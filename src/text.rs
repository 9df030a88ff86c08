//! Text building blocks: decimal rendering, latency rendering and the
//! random identity token.
use vstd::prelude::*;

verus! {

/// The character of a decimal digit.
pub open spec fn digit_char(d: nat) -> char
    recommends
        d < 10,
{
    if d == 0 { '0' }
    else if d == 1 { '1' }
    else if d == 2 { '2' }
    else if d == 3 { '3' }
    else if d == 4 { '4' }
    else if d == 5 { '5' }
    else if d == 6 { '6' }
    else if d == 7 { '7' }
    else if d == 8 { '8' }
    else { '9' }
}

/// The decimal digits of `n`, most significant first, without leading zeros.
pub open spec fn decimal(n: nat) -> Seq<char>
    decreases n,
{
    if n < 10 {
        seq![digit_char(n)]
    } else {
        decimal(n / 10).push(digit_char(n % 10))
    }
}

/// A latency of `us` microseconds, plus a fraction of one where `fraction`,
/// in tenths of a millisecond, rounded to the nearest tenth; an exact tie
/// goes to the even tenth.
pub open spec fn rtt_tenths(us: nat, fraction: bool) -> nat {
    let q = us / 100;
    let r = us % 100;
    if r > 50 || (r == 50 && (fraction || q % 2 == 1)) {
        q + 1
    } else {
        q
    }
}

/// The rendering of a latency of `us` microseconds (plus a fraction of one
/// where `fraction`): milliseconds with one fractional digit, then " ms".
pub open spec fn rtt_text(us: nat, fraction: bool) -> Seq<char> {
    let t = rtt_tenths(us, fraction);
    decimal(t / 10) + seq!['.', digit_char(t % 10), ' ', 'm', 's']
}

/// Relies on String::push: the character is appended at the end.
#[verifier::external_body]
pub(crate) fn push_char(s: &mut String, c: char)
    ensures
        final(s)@ == old(s)@.push(c),
{
    s.push(c)
}

fn digit(d: u64) -> (c: char)
    requires
        d < 10,
    ensures
        c == digit_char(d as nat),
{
    if d == 0 { '0' }
    else if d == 1 { '1' }
    else if d == 2 { '2' }
    else if d == 3 { '3' }
    else if d == 4 { '4' }
    else if d == 5 { '5' }
    else if d == 6 { '6' }
    else if d == 7 { '7' }
    else if d == 8 { '8' }
    else { '9' }
}

/// Appends the decimal digits of `n` to `s`.
pub fn push_decimal(s: &mut String, n: u64)
    ensures
        final(s)@ == old(s)@ + decimal(n as nat),
    decreases n,
{
    if n >= 10 {
        push_decimal(s, n / 10);
    }
    push_char(s, digit(n % 10));
    proof {
        assert(final(s)@ =~= old(s)@ + decimal(n as nat));
    }
}

/// Renders a latency as milliseconds with one fractional digit and the
/// unit: `rtt` is the whole microseconds, and `fraction` tells whether the
/// latency exceeds them by a part of one. 12345 becomes "12.3 ms".
pub fn format_rtt(rtt: u64, fraction: bool) -> (r: String)
    ensures
        r@ == rtt_text(rtt as nat, fraction),
{
    let q = rtt / 100;
    let rem = rtt % 100;
    let tenths = if rem > 50 || (rem == 50 && (fraction || q % 2 == 1)) { q + 1 } else { q };
    let mut s = String::new();
    push_decimal(&mut s, tenths / 10);
    push_char(&mut s, '.');
    push_char(&mut s, digit(tenths % 10));
    push_char(&mut s, ' ');
    push_char(&mut s, 'm');
    push_char(&mut s, 's');
    assert(s@ =~= rtt_text(rtt as nat, fraction));
    s
}

/// An ASCII letter or digit.
pub open spec fn is_alphanumeric(c: char) -> bool {
    ('0' <= c && c <= '9') || ('A' <= c && c <= 'Z') || ('a' <= c && c <= 'z')
}

/// Relies on rand's thread_rng and its Alphanumeric distribution, whose
/// sample is one byte of the set A-Z, a-z, 0-9.
#[verifier::external_body]
fn random_alphanumeric() -> (c: char)
    ensures
        is_alphanumeric(c),
{
    let b: u8 = rand::Rng::sample(&mut rand::thread_rng(), rand::distributions::Alphanumeric);
    char::from(b)
}

/// A fresh random string of `length` ASCII letters and digits, used as an
/// identity token.
pub fn generate_random_string(length: usize) -> (r: String)
    ensures
        r@.len() == length,
        forall|i: int| 0 <= i < length ==> is_alphanumeric(#[trigger] r@[i]),
{
    let mut s = String::new();
    let mut n: usize = 0;
    while n < length
        invariant
            n <= length,
            s@.len() == n,
            forall|i: int| 0 <= i < n ==> is_alphanumeric(#[trigger] s@[i]),
        decreases length - n,
    {
        push_char(&mut s, random_alphanumeric());
        n = n + 1;
    }
    s
}

} // verus!
