//! Properties of a scan that hold for every directory and every outcome.
use crate::scan::{
    line_marked, marks_active, only_probed_entry, placed, probe_plan, probes_of, report_line,
};
use crate::structs::{ActiveServer, AddressFamily, ClientAddress, Probe, Server, ServerInfo};
use vstd::prelude::*;

verus! {

/// The number of servers of `servers` that serve IPv4.
pub open spec fn ipv4_count(servers: Seq<Server>) -> nat
    decreases servers.len(),
{
    if servers.len() == 0 {
        0
    } else {
        ipv4_count(servers.drop_last()) + if servers.last().ipv4 { 1nat } else { 0nat }
    }
}

/// The number of servers of `servers` that serve IPv6.
pub open spec fn ipv6_count(servers: Seq<Server>) -> nat
    decreases servers.len(),
{
    if servers.len() == 0 {
        0
    } else {
        ipv6_count(servers.drop_last()) + if servers.last().ipv6 { 1nat } else { 0nat }
    }
}

/// A scan reports one line for each server that serves IPv4, and one more
/// for each that serves IPv6 when the client's network carries IPv6: no
/// more, no fewer.
pub proof fn lemma_line_count(servers: Seq<Server>, ipv6_capable: bool)
    ensures
        probe_plan(servers, ipv6_capable).len() == ipv4_count(servers) + if ipv6_capable {
            ipv6_count(servers)
        } else {
            0
        },
    decreases servers.len(),
{
    if servers.len() > 0 {
        lemma_line_count(servers.drop_last(), ipv6_capable);
    }
}

/// Every planned probe names a server of the directory.
pub proof fn lemma_plan_in_range(servers: Seq<Server>, ipv6_capable: bool)
    ensures
        forall|i: int|
            0 <= i < probe_plan(servers, ipv6_capable).len() ==> (#[trigger] probe_plan(
                servers,
                ipv6_capable,
            )[i]).server < servers.len(),
    decreases servers.len(),
{
    if servers.len() > 0 {
        lemma_plan_in_range(servers.drop_last(), ipv6_capable);
    }
}

/// The order of the lines follows the directory alone: a server's lines come
/// before those of every later server, and its IPv4 line before its IPv6
/// line.
pub proof fn lemma_plan_order(servers: Seq<Server>, ipv6_capable: bool)
    requires
        servers.len() <= usize::MAX,
    ensures
        forall|i: int, j: int|
            0 <= i < j < probe_plan(servers, ipv6_capable).len() ==> {
                let p = #[trigger] probe_plan(servers, ipv6_capable)[i];
                let q = #[trigger] probe_plan(servers, ipv6_capable)[j];
                p.server < q.server || (p.server == q.server && p.family == AddressFamily::Ipv4
                    && q.family == AddressFamily::Ipv6)
            },
    decreases servers.len(),
{
    if servers.len() > 0 {
        let front = servers.drop_last();
        lemma_plan_order(front, ipv6_capable);
        lemma_plan_in_range(front, ipv6_capable);
        let a = probe_plan(front, ipv6_capable);
        let b = probes_of(servers.len() - 1, servers.last(), ipv6_capable);
        let plan = probe_plan(servers, ipv6_capable);
        assert(plan == a + b);
        assert forall|i: int, j: int| 0 <= i < j < plan.len() implies {
            let p = #[trigger] plan[i];
            let q = #[trigger] plan[j];
            p.server < q.server || (p.server == q.server && p.family == AddressFamily::Ipv4
                && q.family == AddressFamily::Ipv6)
        } by {
            if j < a.len() {
                assert(plan[i] == a[i] && plan[j] == a[j]);
            } else if i < a.len() {
                assert(plan[i] == a[i]);
                assert(a[i].server < front.len());
                assert(plan[j] == b[j - a.len()]);
                assert(b[j - a.len()].server == front.len());
            } else {
                assert(plan[i] == b[i - a.len()]);
                assert(plan[j] == b[j - a.len()]);
                assert(b.len() == 2);
            }
        }
    }
}

/// No IPv6 probe is planned when the client's network does not carry IPv6,
/// whatever the servers advertise.
pub proof fn lemma_no_ipv6_without_support(servers: Seq<Server>)
    ensures
        forall|i: int|
            0 <= i < probe_plan(servers, false).len() ==> (#[trigger] probe_plan(
                servers,
                false,
            )[i]).family == AddressFamily::Ipv4,
    decreases servers.len(),
{
    if servers.len() > 0 {
        lemma_no_ipv6_without_support(servers.drop_last());
    }
}

/// The number of the first `n` lines of a report on `probes` that are marked
/// active.
pub open spec fn marked_count(
    servers: Seq<Server>,
    probes: Seq<Probe>,
    n: int,
    active: Option<ActiveServer>,
    client: ClientAddress,
) -> nat
    decreases n,
{
    if n <= 0 {
        0
    } else {
        marked_count(servers, probes, n - 1, active, client) + if line_marked(
            servers,
            probes,
            n - 1,
            active,
            client,
        ) {
            1nat
        } else {
            0nat
        }
    }
}

/// Whether a planned probe of `s` is the one that serves the client.
pub open spec fn serves_client(
    s: Server,
    ipv6_capable: bool,
    active: Option<ActiveServer>,
    client: ClientAddress,
) -> bool {
    (s.ipv4 && marks_active(s, AddressFamily::Ipv4, active, client)) || (s.ipv6 && ipv6_capable
        && marks_active(s, AddressFamily::Ipv6, active, client))
}

/// Every planned probe is of a family that its server serves.
pub proof fn lemma_plan_entries(servers: Seq<Server>, ipv6_capable: bool)
    requires
        servers.len() <= usize::MAX,
    ensures
        forall|k: int|
            0 <= k < probe_plan(servers, ipv6_capable).len() ==> {
                let p = #[trigger] probe_plan(servers, ipv6_capable)[k];
                &&& p.server < servers.len()
                &&& p.family == AddressFamily::Ipv4 ==> servers[p.server as int].ipv4
                &&& p.family == AddressFamily::Ipv6 ==> servers[p.server as int].ipv6
                    && ipv6_capable
            },
    decreases servers.len(),
{
    if servers.len() > 0 {
        let front = servers.drop_last();
        lemma_plan_entries(front, ipv6_capable);
        let a = probe_plan(front, ipv6_capable);
        let plan = probe_plan(servers, ipv6_capable);
        assert forall|k: int| 0 <= k < plan.len() implies {
            let p = #[trigger] plan[k];
            &&& p.server < servers.len()
            &&& p.family == AddressFamily::Ipv4 ==> servers[p.server as int].ipv4
            &&& p.family == AddressFamily::Ipv6 ==> servers[p.server as int].ipv6 && ipv6_capable
        } by {
            if k < a.len() {
                assert(plan[k] == a[k]);
                assert(servers[a[k].server as int] == front[a[k].server as int]);
            }
        }
    }
}

/// Every family that a server serves, and the client's network carries, is
/// planned for it.
pub proof fn lemma_plan_covers(servers: Seq<Server>, ipv6_capable: bool)
    requires
        servers.len() <= usize::MAX,
    ensures
        forall|i: int|
            0 <= i < servers.len() ==> {
                &&& (#[trigger] servers[i]).ipv4 ==> exists|k: int|
                    0 <= k < probe_plan(servers, ipv6_capable).len() && probe_plan(
                        servers,
                        ipv6_capable,
                    )[k] == Probe { server: i as usize, family: AddressFamily::Ipv4 }
                &&& servers[i].ipv6 && ipv6_capable ==> exists|k: int|
                    0 <= k < probe_plan(servers, ipv6_capable).len() && probe_plan(
                        servers,
                        ipv6_capable,
                    )[k] == Probe { server: i as usize, family: AddressFamily::Ipv6 }
            },
    decreases servers.len(),
{
    if servers.len() > 0 {
        let front = servers.drop_last();
        lemma_plan_covers(front, ipv6_capable);
        let a = probe_plan(front, ipv6_capable);
        let b = probes_of(servers.len() - 1, servers.last(), ipv6_capable);
        let plan = probe_plan(servers, ipv6_capable);
        assert(plan == a + b);
        assert forall|i: int| 0 <= i < servers.len() implies {
            &&& (#[trigger] servers[i]).ipv4 ==> exists|k: int|
                0 <= k < plan.len() && plan[k] == Probe {
                    server: i as usize,
                    family: AddressFamily::Ipv4,
                }
            &&& servers[i].ipv6 && ipv6_capable ==> exists|k: int|
                0 <= k < plan.len() && plan[k] == Probe {
                    server: i as usize,
                    family: AddressFamily::Ipv6,
                }
        } by {
            if i < front.len() {
                assert(servers[i] == front[i]);
                if servers[i].ipv4 {
                    let k = choose|k: int|
                        0 <= k < a.len() && a[k] == Probe {
                            server: i as usize,
                            family: AddressFamily::Ipv4,
                        };
                    assert(plan[k] == a[k]);
                }
                if servers[i].ipv6 && ipv6_capable {
                    let k = choose|k: int|
                        0 <= k < a.len() && a[k] == Probe {
                            server: i as usize,
                            family: AddressFamily::Ipv6,
                        };
                    assert(plan[k] == a[k]);
                }
            } else {
                if servers[i].ipv4 {
                    assert(plan[a.len() as int] == b[0]);
                }
                if servers[i].ipv6 && ipv6_capable {
                    assert(plan[plan.len() - 1] == b[b.len() - 1]);
                }
            }
        }
    }
}

proof fn lemma_count_single(
    servers: Seq<Server>,
    probes: Seq<Probe>,
    n: int,
    active: Option<ActiveServer>,
    client: ClientAddress,
)
    requires
        0 <= n <= probes.len(),
        forall|k1: int, k2: int|
            0 <= k1 < probes.len() && 0 <= k2 < probes.len() && #[trigger] line_marked(
                servers,
                probes,
                k1,
                active,
                client,
            ) && #[trigger] line_marked(servers, probes, k2, active, client) ==> k1 == k2,
    ensures
        marked_count(servers, probes, n, active, client) <= 1,
        marked_count(servers, probes, n, active, client) == 1 <==> exists|k: int|
            0 <= k < n && #[trigger] line_marked(servers, probes, k, active, client),
    decreases n,
{
    if n > 0 {
        lemma_count_single(servers, probes, n - 1, active, client);
        if line_marked(servers, probes, n - 1, active, client) {
            if exists|k: int| 0 <= k < n - 1 && #[trigger] line_marked(servers, probes, k, active, client) {
                let k = choose|k: int|
                    0 <= k < n - 1 && #[trigger] line_marked(servers, probes, k, active, client);
                assert(k == n - 1);
            }
        }
    }
}

/// At most one line of a scan is marked active, and exactly one when the
/// lookup answered "ok" with the identifier of exactly one probed directory
/// entry, and that entry is probed over the family of the client's address.
/// Where several probed entries share the active identifier, none is marked.
pub proof fn lemma_single_active(
    servers: Seq<Server>,
    ipv6_capable: bool,
    active: Option<ActiveServer>,
    client: ClientAddress,
)
    requires
        servers.len() <= usize::MAX,
    ensures
        marked_count(
            servers,
            probe_plan(servers, ipv6_capable),
            probe_plan(servers, ipv6_capable).len() as int,
            active,
            client,
        ) <= 1,
        marked_count(
            servers,
            probe_plan(servers, ipv6_capable),
            probe_plan(servers, ipv6_capable).len() as int,
            active,
            client,
        ) == 1 <==> exists|i: int|
            0 <= i < servers.len() && serves_client(
                #[trigger] servers[i],
                ipv6_capable,
                active,
                client,
            ) && only_probed_entry(servers, probe_plan(servers, ipv6_capable), i),
{
    let plan = probe_plan(servers, ipv6_capable);
    lemma_plan_order(servers, ipv6_capable);
    lemma_plan_entries(servers, ipv6_capable);
    lemma_plan_covers(servers, ipv6_capable);
    assert forall|k1: int, k2: int|
        0 <= k1 < plan.len() && 0 <= k2 < plan.len() && #[trigger] line_marked(
            servers,
            plan,
            k1,
            active,
            client,
        ) && #[trigger] line_marked(servers, plan, k2, active, client) implies k1 == k2 by {
        let p1 = plan[k1];
        let p2 = plan[k2];
        if p1.server != p2.server {
            assert(servers[p2.server as int].server@ == servers[p1.server as int].server@);
        } else {
            assert(p1.family == p2.family);
            if k1 < k2 {
                assert(plan[k1] == p1 && plan[k2] == p2);
            } else if k2 < k1 {
                assert(plan[k2] == p2 && plan[k1] == p1);
            }
        }
    }
    lemma_count_single(servers, plan, plan.len() as int, active, client);
    if exists|k: int| 0 <= k < plan.len() && #[trigger] line_marked(servers, plan, k, active, client) {
        let k = choose|k: int|
            0 <= k < plan.len() && #[trigger] line_marked(servers, plan, k, active, client);
        let i = plan[k].server as int;
        assert(serves_client(servers[i], ipv6_capable, active, client));
    }
    if exists|i: int|
        0 <= i < servers.len() && serves_client(#[trigger] servers[i], ipv6_capable, active, client)
            && only_probed_entry(servers, plan, i) {
        let i = choose|i: int|
            0 <= i < servers.len() && serves_client(
                #[trigger] servers[i],
                ipv6_capable,
                active,
                client,
            ) && only_probed_entry(servers, plan, i);
        let s = servers[i];
        if s.ipv4 && marks_active(s, AddressFamily::Ipv4, active, client) {
            let k = choose|k: int|
                0 <= k < plan.len() && plan[k] == Probe {
                    server: i as usize,
                    family: AddressFamily::Ipv4,
                };
            assert(line_marked(servers, plan, k, active, client));
        } else {
            let k = choose|k: int|
                0 <= k < plan.len() && plan[k] == Probe {
                    server: i as usize,
                    family: AddressFamily::Ipv6,
                };
            assert(line_marked(servers, plan, k, active, client));
        }
    }
}

/// Each probe finished at most once: no two completions name one position.
pub open spec fn one_per_probe(completions: Seq<(usize, Option<ServerInfo>)>) -> bool {
    forall|i: int, j: int|
        0 <= i < completions.len() && 0 <= j < completions.len() && i != j ==> (
        #[trigger] completions[i]).0 != (#[trigger] completions[j]).0
}

/// Completions that name one position agree on its outcome.
spec fn agree(completions: Seq<(usize, Option<ServerInfo>)>) -> bool {
    forall|i: int, j: int|
        0 <= i < completions.len() && 0 <= j < completions.len() && (
        #[trigger] completions[i]).0 == (#[trigger] completions[j]).0 ==> completions[i]
            == completions[j]
}

/// The outcome that `completions` gives position `k`, failed if none does.
spec fn slot_of(completions: Seq<(usize, Option<ServerInfo>)>, k: int) -> Option<ServerInfo> {
    if exists|j: int| 0 <= j < completions.len() && (#[trigger] completions[j]).0 == k {
        completions[choose|j: int| 0 <= j < completions.len() && (#[trigger] completions[j]).0 == k].1
    } else {
        None
    }
}

proof fn lemma_placed_slots(count: nat, completions: Seq<(usize, Option<ServerInfo>)>)
    requires
        agree(completions),
    ensures
        placed(count, completions).len() == count,
        forall|k: int| 0 <= k < count ==> #[trigger] placed(count, completions)[k] == slot_of(completions, k),
    decreases completions.len(),
{
    if completions.len() > 0 {
        let front = completions.drop_last();
        lemma_placed_slots(count, front);
        let last = completions.last();
        assert forall|k: int| 0 <= k < count implies #[trigger] placed(count, completions)[k] == slot_of(completions, k) by {
            let n = completions.len() - 1;
            if last.0 == k {
                assert(completions[n].0 == k);
                let j = choose|j: int| 0 <= j < completions.len() && (#[trigger] completions[j]).0 == k;
                assert(completions[j] == completions[n]);
            } else {
                if exists|j: int| 0 <= j < completions.len() && (#[trigger] completions[j]).0 == k {
                    let j = choose|j: int| 0 <= j < completions.len() && (#[trigger] completions[j]).0 == k;
                    assert(front[j].0 == k);
                    let j2 = choose|j: int| 0 <= j < front.len() && (#[trigger] front[j]).0 == k;
                    assert(completions[j2] == completions[j]);
                } else {
                    assert forall|j: int| 0 <= j < front.len() implies (#[trigger] front[j]).0 != k by {
                        assert(completions[j].0 != k);
                    }
                }
            }
        }
    }
}

/// The outcomes in probe order do not depend on the order in which the
/// probes finished: two arrival orders of the same completions, one per
/// probe, give the same outcomes.
pub proof fn lemma_completion_order_irrelevant(
    count: nat,
    completions: Seq<(usize, Option<ServerInfo>)>,
    reordered: Seq<(usize, Option<ServerInfo>)>,
)
    requires
        one_per_probe(completions),
        reordered.to_multiset() == completions.to_multiset(),
    ensures
        placed(count, reordered) == placed(count, completions),
{
    completions.to_multiset_ensures();
    reordered.to_multiset_ensures();
    assert forall|i: int| 0 <= i < reordered.len() implies completions.contains(#[trigger] reordered[i]) by {
        assert(reordered.contains(reordered[i]));
        assert(reordered.to_multiset().count(reordered[i]) > 0);
        assert(completions.to_multiset().count(reordered[i]) > 0);
    }
    assert forall|i: int| 0 <= i < completions.len() implies reordered.contains(#[trigger] completions[i]) by {
        assert(completions.contains(completions[i]));
        assert(completions.to_multiset().count(completions[i]) > 0);
        assert(reordered.to_multiset().count(completions[i]) > 0);
    }
    assert(agree(completions));
    assert forall|i: int, j: int|
        0 <= i < reordered.len() && 0 <= j < reordered.len() && (#[trigger] reordered[i]).0 == (
        #[trigger] reordered[j]).0 implies reordered[i] == reordered[j] by {
        assert(completions.contains(reordered[i]));
        assert(completions.contains(reordered[j]));
    }
    lemma_placed_slots(count, completions);
    lemma_placed_slots(count, reordered);
    assert forall|k: int| 0 <= k < count implies slot_of(reordered, k) == slot_of(completions, k) by {
        if exists|j: int| 0 <= j < reordered.len() && (#[trigger] reordered[j]).0 == k {
            let j = choose|j: int| 0 <= j < reordered.len() && (#[trigger] reordered[j]).0 == k;
            assert(completions.contains(reordered[j]));
            let i = choose|i: int| 0 <= i < completions.len() && completions[i] == reordered[j];
            assert(completions[i].0 == k);
            let i2 = choose|i: int| 0 <= i < completions.len() && (#[trigger] completions[i]).0 == k;
            assert(completions[i2] == completions[i]);
        } else if exists|i: int| 0 <= i < completions.len() && (#[trigger] completions[i]).0 == k {
            let i = choose|i: int| 0 <= i < completions.len() && (#[trigger] completions[i]).0 == k;
            assert(reordered.contains(completions[i]));
            let j = choose|j: int| 0 <= j < reordered.len() && reordered[j] == completions[i];
            assert(reordered[j].0 == k);
        }
    }
    assert(placed(count, reordered) =~= placed(count, completions));
}

/// Whether `line` ends with `suffix`.
pub open spec fn ends_with(line: Seq<char>, suffix: Seq<char>) -> bool {
    line.len() >= suffix.len() && line.subrange(line.len() - suffix.len(), line.len() as int)
        == suffix
}

/// A probe that failed, whatever the cause, gets a line that ends in
/// "error", and the failure changes no other probe's line.
pub proof fn lemma_failure_isolated(
    servers: Seq<Server>,
    probes: Seq<Probe>,
    outcomes: Seq<Option<ServerInfo>>,
    i: int,
    active: Option<ActiveServer>,
    client: ClientAddress,
)
    requires
        0 <= i < outcomes.len(),
        probes.len() == outcomes.len(),
    ensures
        ends_with(report_line(servers, probes, i, None, active, client), " error"@),
        forall|j: int|
            0 <= j < outcomes.len() && j != i ==> report_line(
                servers,
                probes,
                j,
                #[trigger] outcomes.update(i, None)[j],
                active,
                client,
            ) == report_line(servers, probes, j, outcomes[j], active, client),
{
    reveal_strlit(" error");
    reveal_strlit("error");
    let line = report_line(servers, probes, i, None, active, client);
    let n = line.len();
    assert(line.subrange(n - 6, n as int) =~= " error"@);
}

} // verus!
