//! Latency probing of a DNS service's edge servers: which probes to run,
//! which result belongs to the server that currently serves the client, and
//! how each result is reported.

pub mod laws;
pub mod scan;
pub mod structs;
pub mod text;

pub use scan::{
    active_server_url, format_line, info_url, is_active, order_results, plan_probes, render_report,
};
pub use structs::{ActiveServer, AddressFamily, ClientAddress, Probe, Server, ServerInfo};
pub use text::{format_rtt, generate_random_string};
