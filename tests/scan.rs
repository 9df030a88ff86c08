use edge_ping::{
    active_server_url, format_line, format_rtt, generate_random_string, info_url, is_active,
    order_results, plan_probes, render_report, ActiveServer, AddressFamily, ClientAddress, Probe,
    Server, ServerInfo,
};

fn server(pop: &str, id: &str, ipv4: bool, ipv6: bool) -> Server {
    Server { pop: pop.to_string(), server: id.to_string(), ipv4, ipv6 }
}

fn active(status: &str, id: &str, client: Option<&str>) -> ActiveServer {
    ActiveServer {
        status: status.to_string(),
        resolver: None,
        protocol: None,
        profile: None,
        client: client.map(|c| c.to_string()),
        srcip: None,
        anycast: None,
        server: id.to_string(),
        clientname: None,
        devicename: None,
        deviceid: None,
    }
}

fn info(pop: &str, rtt: u64) -> ServerInfo {
    ServerInfo {
        location_name: format!("{} city", pop),
        pop: pop.to_string(),
        rtt,
        rtt_fraction: false,
    }
}

const V4_CLIENT: ClientAddress = ClientAddress::V4([203, 0, 113, 5]);
const V6_CLIENT: ClientAddress = ClientAddress::V6([0x2001, 0xdb8, 0, 0, 0, 0, 0, 1]);

#[test]
fn rtt_whole_milliseconds() {
    assert_eq!(format_rtt(5000, false), "5.0 ms");
}

#[test]
fn rtt_below_one_millisecond() {
    assert_eq!(format_rtt(123, false), "0.1 ms");
}

#[test]
fn rtt_zero() {
    assert_eq!(format_rtt(0, false), "0.0 ms");
}

#[test]
fn rtt_rounds_to_one_decimal() {
    assert_eq!(format_rtt(12345, false), "12.3 ms");
    assert_eq!(format_rtt(12351, false), "12.4 ms");
    assert_eq!(format_rtt(99999, false), "100.0 ms");
}

#[test]
fn rtt_ties_go_to_even_tenth() {
    assert_eq!(format_rtt(250, false), "0.2 ms");
    assert_eq!(format_rtt(750, false), "0.8 ms");
    assert_eq!(format_rtt(1250, false), "1.2 ms");
}

#[test]
fn rtt_fraction_breaks_ties_upward() {
    assert_eq!(format_rtt(149, true), "0.1 ms");
    assert_eq!(format_rtt(150, true), "0.2 ms");
    assert_eq!(format_rtt(250, true), "0.3 ms");
    assert_eq!(format_rtt(250, false), "0.2 ms");
}

#[test]
fn rtt_largest_value() {
    assert_eq!(format_rtt(u64::MAX, false), "18446744073709551.6 ms");
}

#[test]
fn random_string_has_length_and_alphabet() {
    let s = generate_random_string(20);
    assert_eq!(s.chars().count(), 20);
    assert!(s.chars().all(|c| c.is_ascii_alphanumeric()));
    assert_ne!(s, generate_random_string(20));
}

#[test]
fn random_string_empty() {
    assert_eq!(generate_random_string(0), "");
}

#[test]
fn active_server_endpoint() {
    assert_eq!(active_server_url("abc123"), "https://abc123.test.nextdns.io/");
}

#[test]
fn info_endpoints() {
    let s = server("ams", "ams-1", true, true);
    assert_eq!(info_url(&s, AddressFamily::Ipv4), "https://ipv4-ams-1.edge.nextdns.io/info");
    assert_eq!(info_url(&s, AddressFamily::Ipv6), "https://ipv6-ams-1.edge.nextdns.io/info");
}

#[test]
fn plan_counts_each_supported_family() {
    let servers = vec![
        server("ams", "ams-1", true, true),
        server("fra", "fra-1", true, false),
        server("lon", "lon-1", false, true),
        server("par", "par-1", false, false),
    ];
    let plan = plan_probes(&servers, true);
    assert_eq!(
        plan,
        vec![
            Probe { server: 0, family: AddressFamily::Ipv4 },
            Probe { server: 0, family: AddressFamily::Ipv6 },
            Probe { server: 1, family: AddressFamily::Ipv4 },
            Probe { server: 2, family: AddressFamily::Ipv6 },
        ]
    );
}

#[test]
fn plan_skips_ipv6_without_support() {
    let servers = vec![server("ams", "ams-1", true, true), server("lon", "lon-1", false, true)];
    let plan = plan_probes(&servers, false);
    assert_eq!(plan, vec![Probe { server: 0, family: AddressFamily::Ipv4 }]);
}

#[test]
fn plan_of_empty_directory() {
    assert!(plan_probes(&Vec::new(), true).is_empty());
}

#[test]
fn active_needs_status_ok() {
    let s = server("ams", "ams-1", true, false);
    let a = Some(active("ok", "ams-1", Some("203.0.113.5")));
    assert!(is_active(&s, AddressFamily::Ipv4, &a, &V4_CLIENT));
    let failed = Some(active("unconfigured", "ams-1", Some("203.0.113.5")));
    assert!(!is_active(&s, AddressFamily::Ipv4, &failed, &V4_CLIENT));
}

#[test]
fn active_needs_same_server() {
    let s = server("fra", "fra-1", true, false);
    let a = Some(active("ok", "ams-1", None));
    assert!(!is_active(&s, AddressFamily::Ipv4, &a, &V4_CLIENT));
}

#[test]
fn active_needs_matching_family() {
    let s = server("ams", "ams-1", true, true);
    let a = Some(active("ok", "ams-1", None));
    assert!(!is_active(&s, AddressFamily::Ipv6, &a, &V4_CLIENT));
    assert!(is_active(&s, AddressFamily::Ipv6, &a, &V6_CLIENT));
    assert!(!is_active(&s, AddressFamily::Ipv4, &a, &V6_CLIENT));
}

#[test]
fn active_never_with_unknown_address() {
    let s = server("ams", "ams-1", true, true);
    let a = Some(active("ok", "ams-1", None));
    assert!(!is_active(&s, AddressFamily::Ipv4, &a, &ClientAddress::Unknown));
    assert!(!is_active(&s, AddressFamily::Ipv6, &a, &ClientAddress::Unknown));
}

#[test]
fn active_never_without_lookup() {
    let s = server("ams", "ams-1", true, true);
    assert!(!is_active(&s, AddressFamily::Ipv4, &None, &V4_CLIENT));
}

#[test]
fn line_of_success() {
    let s = server("ams", "ams-1", true, true);
    let o = Some(info("ams", 8000));
    assert_eq!(format_line(&s, AddressFamily::Ipv4, &o, true), "\u{25A0} ams 8.0 ms");
    assert_eq!(format_line(&s, AddressFamily::Ipv6, &o, false), "  ams (IPv6) 8.0 ms");
}

#[test]
fn line_of_failure_uses_directory_location() {
    let s = server("ams", "ams-1", true, true);
    assert_eq!(format_line(&s, AddressFamily::Ipv4, &None, false), "  ams error");
    assert_eq!(format_line(&s, AddressFamily::Ipv6, &None, true), "\u{25A0} ams (IPv6) error");
}

#[test]
fn results_return_to_probe_order() {
    let completions = vec![(2, Some(info("c", 300))), (0, Some(info("a", 100))), (1, None)];
    let placed = order_results(3, completions);
    assert_eq!(placed.len(), 3);
    assert_eq!(placed[0].as_ref().map(|i| i.rtt), Some(100));
    assert!(placed[1].is_none());
    assert_eq!(placed[2].as_ref().map(|i| i.pop.clone()), Some("c".to_string()));
}

#[test]
fn results_missing_or_out_of_range() {
    let placed = order_results(2, vec![(5, Some(info("x", 1))), (1, Some(info("b", 2)))]);
    assert!(placed[0].is_none());
    assert_eq!(placed[1].as_ref().map(|i| i.rtt), Some(2));
}

#[test]
fn report_independent_of_completion_order() {
    let servers = vec![
        server("ams", "ams-1", true, true),
        server("fra", "fra-1", true, false),
    ];
    let plan = plan_probes(&servers, true);
    let a = Some(active("ok", "fra-1", Some("203.0.113.5")));
    let first = order_results(
        3,
        vec![(0, Some(info("ams", 1000))), (1, Some(info("ams", 2000))), (2, Some(info("fra", 3000)))],
    );
    let second = order_results(
        3,
        vec![(2, Some(info("fra", 3000))), (1, Some(info("ams", 2000))), (0, Some(info("ams", 1000)))],
    );
    let lines1 = render_report(&servers, &plan, &first, &a, &V4_CLIENT);
    let lines2 = render_report(&servers, &plan, &second, &a, &V4_CLIENT);
    assert_eq!(lines1, lines2);
    assert_eq!(
        lines1,
        vec!["  ams 1.0 ms", "  ams (IPv6) 2.0 ms", "\u{25A0} fra 3.0 ms"]
    );
}

#[test]
fn report_marks_exactly_one_line() {
    let servers = vec![
        server("ams", "ams-1", true, true),
        server("fra", "fra-1", true, true),
        server("lon", "lon-1", true, true),
    ];
    let plan = plan_probes(&servers, true);
    assert_eq!(plan.len(), 6);
    let outcomes: Vec<Option<ServerInfo>> =
        (0..6).map(|i| Some(info("x", 1000 * (i as u64 + 1)))).collect();
    let a = Some(active("ok", "fra-1", None));
    let lines = render_report(&servers, &plan, &outcomes, &a, &V6_CLIENT);
    let marked: Vec<usize> =
        (0..lines.len()).filter(|&i| lines[i].starts_with('\u{25A0}')).collect();
    assert_eq!(marked, vec![3]);
    let none = render_report(&servers, &plan, &outcomes, &a, &ClientAddress::Unknown);
    assert!(none.iter().all(|l| l.starts_with(' ')));
}

#[test]
fn report_failed_probe_does_not_affect_others() {
    let servers = vec![
        server("ams", "ams-1", true, false),
        server("fra", "fra-1", true, false),
        server("lon", "lon-1", true, false),
    ];
    let plan = plan_probes(&servers, false);
    let outcomes = vec![Some(info("ams", 4000)), None, Some(info("lon", 6000))];
    let lines = render_report(&servers, &plan, &outcomes, &None, &V4_CLIENT);
    assert_eq!(lines, vec!["  ams 4.0 ms", "  fra error", "  lon 6.0 ms"]);
}

#[test]
fn end_to_end_single_active_server() {
    let servers = vec![server("ams", "ams-1", true, false)];
    let a = Some(active("ok", "ams-1", Some("203.0.113.5")));
    let plan = plan_probes(&servers, false);
    assert_eq!(plan.len(), 1);
    assert_eq!(info_url(&servers[plan[0].server], plan[0].family), "https://ipv4-ams-1.edge.nextdns.io/info");
    let outcomes = order_results(1, vec![(0, Some(info("ams", 8000)))]);
    let lines = render_report(&servers, &plan, &outcomes, &a, &V4_CLIENT);
    assert_eq!(lines, vec!["\u{25A0} ams 8.0 ms"]);
}

#[test]
fn report_marks_nothing_when_identifier_repeats() {
    let servers = vec![
        server("ams", "edge-1", true, false),
        server("bru", "edge-1", true, false),
        server("fra", "fra-1", true, false),
    ];
    let plan = plan_probes(&servers, false);
    let outcomes = vec![Some(info("ams", 1000)), Some(info("bru", 2000)), Some(info("fra", 3000))];
    let a = Some(active("ok", "edge-1", Some("203.0.113.5")));
    let lines = render_report(&servers, &plan, &outcomes, &a, &V4_CLIENT);
    assert_eq!(lines, vec!["  ams 1.0 ms", "  bru 2.0 ms", "  fra 3.0 ms"]);
}

#[test]
fn report_ignores_unprobed_entry_with_same_identifier() {
    let servers = vec![
        server("ams", "edge-1", true, false),
        server("bru", "edge-1", false, true),
    ];
    let plan = plan_probes(&servers, false);
    assert_eq!(plan.len(), 1);
    let outcomes = vec![Some(info("ams", 1000))];
    let a = Some(active("ok", "edge-1", None));
    let lines = render_report(&servers, &plan, &outcomes, &a, &V4_CLIENT);
    assert_eq!(lines, vec!["\u{25A0} ams 1.0 ms"]);
}
