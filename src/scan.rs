//! The scan: which probes a directory calls for, the endpoints they reach,
//! which probe is the active one, and the report lines.
use crate::structs::{client_family, ActiveServer, AddressFamily, ClientAddress, Probe, Server, ServerInfo};
use crate::text::{format_rtt, push_char, rtt_text};
use vstd::prelude::*;

verus! {

/// The name of a family as it stands in endpoint names.
pub open spec fn family_label(f: AddressFamily) -> Seq<char> {
    match f {
        AddressFamily::Ipv4 => "ipv4"@,
        AddressFamily::Ipv6 => "ipv6"@,
    }
}

/// The endpoint that tells which server handles a client that asks under
/// the name `token`.
pub fn active_server_url(token: &str) -> (r: String)
    ensures
        r@ == "https://"@ + token@ + ".test.nextdns.io/"@,
{
    let mut s = String::from_str("https://");
    s.append(token);
    s.append(".test.nextdns.io/");
    s
}

/// The info endpoint of `server` over `family`.
pub fn info_url(server: &Server, family: AddressFamily) -> (r: String)
    ensures
        r@ == "https://"@ + family_label(family) + "-"@ + server.server@ + ".edge.nextdns.io/info"@,
{
    let mut s = String::from_str("https://");
    match family {
        AddressFamily::Ipv4 => s.append("ipv4"),
        AddressFamily::Ipv6 => s.append("ipv6"),
    }
    s.append("-");
    s.append(server.server.as_str());
    s.append(".edge.nextdns.io/info");
    s
}

/// The probes that the server at position `i` calls for: IPv4 if it serves
/// IPv4, then IPv6 if it serves IPv6 and the client's network carries IPv6.
pub open spec fn probes_of(i: int, s: Server, ipv6_capable: bool) -> Seq<Probe> {
    (if s.ipv4 {
        seq![Probe { server: i as usize, family: AddressFamily::Ipv4 }]
    } else {
        Seq::empty()
    }) + (if s.ipv6 && ipv6_capable {
        seq![Probe { server: i as usize, family: AddressFamily::Ipv6 }]
    } else {
        Seq::empty()
    })
}

/// Every probe of a directory, in directory order.
pub open spec fn probe_plan(servers: Seq<Server>, ipv6_capable: bool) -> Seq<Probe>
    decreases servers.len(),
{
    if servers.len() == 0 {
        Seq::empty()
    } else {
        probe_plan(servers.drop_last(), ipv6_capable) + probes_of(
            servers.len() - 1,
            servers.last(),
            ipv6_capable,
        )
    }
}

/// The probes to dispatch for `servers`, in the order their lines are
/// reported: directory order, IPv4 before IPv6 for one server. No IPv6 probe
/// is planned unless `ipv6_capable`.
pub fn plan_probes(servers: &Vec<Server>, ipv6_capable: bool) -> (r: Vec<Probe>)
    ensures
        r@ == probe_plan(servers@, ipv6_capable),
{
    let mut plan: Vec<Probe> = Vec::new();
    let mut i: usize = 0;
    while i < servers.len()
        invariant
            i <= servers.len(),
            plan@ == probe_plan(servers@.subrange(0, i as int), ipv6_capable),
        decreases servers.len() - i,
    {
        let ghost before = plan@;
        if servers[i].ipv4 {
            plan.push(Probe { server: i, family: AddressFamily::Ipv4 });
        }
        if servers[i].ipv6 && ipv6_capable {
            plan.push(Probe { server: i, family: AddressFamily::Ipv6 });
        }
        proof {
            let next = servers@.subrange(0, i + 1);
            assert(next.drop_last() =~= servers@.subrange(0, i as int));
            assert(plan@ =~= before + probes_of(i as int, servers@[i as int], ipv6_capable));
        }
        i = i + 1;
    }
    assert(servers@.subrange(0, servers.len() as int) =~= servers@);
    plan
}

/// Whether the probe of `s` over `family` is the one that serves the
/// client: the lookup answered with status "ok" and the same server
/// identifier, and the client's address is of the probed family. An unknown
/// address matches no probe.
pub open spec fn marks_active(
    s: Server,
    family: AddressFamily,
    active: Option<ActiveServer>,
    client: ClientAddress,
) -> bool {
    match active {
        Some(a) => a.status@ == "ok"@ && a.server@ == s.server@ && client_family(client) == Some(
            family,
        ),
        None => false,
    }
}

/// Decides whether the probe of `server` over `family` is the one that
/// serves the client. A report marks its line only where, besides, no other
/// probed entry shares the identifier.
pub fn is_active(
    server: &Server,
    family: AddressFamily,
    active: &Option<ActiveServer>,
    client: &ClientAddress,
) -> (r: bool)
    ensures
        r == marks_active(*server, family, *active, *client),
{
    let family_matches = match client {
        ClientAddress::Unknown => false,
        ClientAddress::V4(_) => family == AddressFamily::Ipv4,
        ClientAddress::V6(_) => family == AddressFamily::Ipv6,
    };
    match active {
        Some(a) => {
            let ok = String::from_str("ok");
            a.status == ok && a.server == server.server && family_matches
        },
        None => false,
    }
}

/// The leading mark of a line: a filled square on the active probe, a space
/// elsewhere.
pub open spec fn marker(marked: bool) -> char {
    if marked {
        '\u{25A0}'
    } else {
        ' '
    }
}

/// The tag that follows the location of an IPv6 probe.
pub open spec fn family_tag(family: AddressFamily) -> Seq<char> {
    match family {
        AddressFamily::Ipv4 => Seq::empty(),
        AddressFamily::Ipv6 => " (IPv6)"@,
    }
}

/// The report line of one probe: the mark, the location, the family tag and
/// the latency; where the probe failed, the server's own location and
/// "error".
pub open spec fn line_text(
    s: Server,
    family: AddressFamily,
    outcome: Option<ServerInfo>,
    marked: bool,
) -> Seq<char> {
    match outcome {
        Some(info) => seq![marker(marked), ' '] + info.pop@ + family_tag(family) + seq![' ']
            + rtt_text(info.rtt as nat, info.rtt_fraction),
        None => seq![marker(marked), ' '] + s.pop@ + family_tag(family) + seq![' '] + "error"@,
    }
}

/// Renders the report line of the probe of `server` over `family`, whose
/// answer is `outcome` (`None` where the probe failed).
pub fn format_line(
    server: &Server,
    family: AddressFamily,
    outcome: &Option<ServerInfo>,
    marked: bool,
) -> (r: String)
    ensures
        r@ == line_text(*server, family, *outcome, marked),
{
    let mut s = String::new();
    push_char(&mut s, if marked { '\u{25A0}' } else { ' ' });
    push_char(&mut s, ' ');
    match outcome {
        Some(info) => s.append(info.pop.as_str()),
        None => s.append(server.pop.as_str()),
    }
    match family {
        AddressFamily::Ipv4 => {},
        AddressFamily::Ipv6 => s.append(" (IPv6)"),
    }
    push_char(&mut s, ' ');
    match outcome {
        Some(info) => {
            let rtt = format_rtt(info.rtt, info.rtt_fraction);
            s.append(rtt.as_str());
        },
        None => s.append("error"),
    }
    assert(s@ =~= line_text(*server, family, *outcome, marked));
    s
}

/// The probes refer to servers of the directory.
pub open spec fn probes_in(servers: Seq<Server>, probes: Seq<Probe>) -> bool {
    forall|i: int| 0 <= i < probes.len() ==> (#[trigger] probes[i]).server < servers.len()
}

/// No probe of `probes` reaches another directory entry with the identifier
/// of the entry at position `i`: that entry is the only probed one with it.
/// (One edge server may back several locations, so identifiers can repeat.)
pub open spec fn only_probed_entry(servers: Seq<Server>, probes: Seq<Probe>, i: int) -> bool {
    forall|j: int|
        0 <= j < probes.len() && servers[(#[trigger] probes[j]).server as int].server@
            == servers[i].server@ ==> probes[j].server == i
}

/// Whether the line of `probes[k]` is marked active: the probe is the one
/// that serves the client, and the active identifier names no other probed
/// entry of the directory. An identifier shared by several probed entries
/// marks none of them.
pub open spec fn line_marked(
    servers: Seq<Server>,
    probes: Seq<Probe>,
    k: int,
    active: Option<ActiveServer>,
    client: ClientAddress,
) -> bool {
    let p = probes[k];
    marks_active(servers[p.server as int], p.family, active, client) && only_probed_entry(
        servers,
        probes,
        p.server as int,
    )
}

/// The report line of `probes[k]`, given its outcome.
pub open spec fn report_line(
    servers: Seq<Server>,
    probes: Seq<Probe>,
    k: int,
    outcome: Option<ServerInfo>,
    active: Option<ActiveServer>,
    client: ClientAddress,
) -> Seq<char> {
    let p = probes[k];
    line_text(
        servers[p.server as int],
        p.family,
        outcome,
        line_marked(servers, probes, k, active, client),
    )
}

/// Decides whether the entry at position `i` is the only probed entry with
/// its identifier.
fn only_probed(servers: &Vec<Server>, probes: &Vec<Probe>, i: usize) -> (r: bool)
    requires
        probes_in(servers@, probes@),
        i < servers.len(),
    ensures
        r == only_probed_entry(servers@, probes@, i as int),
{
    let mut j: usize = 0;
    while j < probes.len()
        invariant
            j <= probes.len(),
            probes_in(servers@, probes@),
            i < servers.len(),
            forall|m: int|
                0 <= m < j && servers@[(#[trigger] probes@[m]).server as int].server@
                    == servers@[i as int].server@ ==> probes@[m].server == i,
        decreases probes.len() - j,
    {
        let p = probes[j];
        assert(probes@[j as int].server < servers.len());
        if servers[p.server].server == servers[i].server && p.server != i {
            return false;
        }
        j = j + 1;
    }
    true
}

/// Renders one line per probe, in the order of `probes`; `outcomes[i]` is
/// the answer of `probes[i]`. Where the active-server lookup failed
/// (`active` is `None`) no line is marked.
pub fn render_report(
    servers: &Vec<Server>,
    probes: &Vec<Probe>,
    outcomes: &Vec<Option<ServerInfo>>,
    active: &Option<ActiveServer>,
    client: &ClientAddress,
) -> (r: Vec<String>)
    requires
        probes_in(servers@, probes@),
        outcomes.len() == probes.len(),
    ensures
        r.len() == probes.len(),
        forall|i: int|
            0 <= i < r.len() ==> (#[trigger] r@[i])@ == report_line(
                servers@,
                probes@,
                i,
                outcomes@[i],
                *active,
                *client,
            ),
{
    let mut lines: Vec<String> = Vec::new();
    let mut i: usize = 0;
    while i < probes.len()
        invariant
            i <= probes.len(),
            outcomes.len() == probes.len(),
            probes_in(servers@, probes@),
            lines.len() == i,
            forall|j: int|
                0 <= j < i ==> (#[trigger] lines@[j])@ == report_line(
                    servers@,
                    probes@,
                    j,
                    outcomes@[j],
                    *active,
                    *client,
                ),
        decreases probes.len() - i,
    {
        let probe = probes[i];
        assert(probes@[i as int].server < servers.len());
        let server = &servers[probe.server];
        let marked = is_active(server, probe.family, active, client) && only_probed(
            servers,
            probes,
            probe.server,
        );
        lines.push(format_line(server, probe.family, &outcomes[i], marked));
        i = i + 1;
    }
    lines
}

/// The outcomes of `count` probes, put in probe order from `completions`,
/// which pairs a probe's position with its outcome in the order the probes
/// finished. A position that no completion names counts as failed; where two
/// name one position, the later one stands; a position out of range is
/// ignored.
pub open spec fn placed(
    count: nat,
    completions: Seq<(usize, Option<ServerInfo>)>,
) -> Seq<Option<ServerInfo>>
    decreases completions.len(),
{
    if completions.len() == 0 {
        Seq::new(count, |k: int| None)
    } else {
        let rest = placed(count, completions.drop_last());
        let (k, outcome) = completions.last();
        if k < count {
            rest.update(k as int, outcome)
        } else {
            rest
        }
    }
}

/// Puts the outcomes of `count` probes back in probe order, whatever order
/// the probes finished in.
pub fn order_results(count: usize, completions: Vec<(usize, Option<ServerInfo>)>) -> (r: Vec<
    Option<ServerInfo>,
>)
    ensures
        r@ == placed(count as nat, completions@),
{
    let ghost all = completions@;
    let mut slots: Vec<Option<ServerInfo>> = Vec::new();
    let mut n: usize = 0;
    while n < count
        invariant
            n <= count,
            slots@ =~= Seq::new(n as nat, |k: int| None::<ServerInfo>),
        decreases count - n,
    {
        slots.push(None);
        n = n + 1;
    }
    assert(placed(count as nat, all.take(0)) == slots@);
    for c in it: completions
        invariant
            it.seq() == all,
            slots.len() == count,
            slots@ == placed(count as nat, all.take(it.index() as int)),
    {
        let ghost i = it.index();
        assert(c == all[i as int]);
        let (k, outcome) = c;
        assert(all.take(i + 1).drop_last() =~= all.take(i as int));
        assert(all.take(i + 1).last() == all[i as int]);
        if k < slots.len() {
            slots.set(k, outcome);
        }
    }
    assert(all.take(all.len() as int) =~= all);
    slots
}

} // verus!
