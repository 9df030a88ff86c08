//! The records that a scan reads: the server directory, the answer of the
//! active-server lookup, one probe's answer, and the client's address.
use vstd::prelude::*;

verus! {

/// One edge server of the directory, with the protocol families it serves.
#[derive(Clone, Debug)]
pub struct Server {
    pub pop: String,
    pub server: String,
    pub ipv4: bool,
    pub ipv6: bool,
}

/// What a server's info endpoint answers. The measured round trip is `rtt`
/// whole microseconds, plus a part of one more where `rtt_fraction`.
#[derive(Clone, Debug)]
pub struct ServerInfo {
    pub location_name: String,
    pub pop: String,
    pub rtt: u64,
    pub rtt_fraction: bool,
}

/// What the active-server lookup answers: the server that handles this
/// client (valid when `status` is "ok") and, in `client`, the address it
/// saw the client come from.
#[derive(Clone, Debug)]
pub struct ActiveServer {
    pub status: String,
    pub resolver: Option<String>,
    pub protocol: Option<String>,
    pub profile: Option<String>,
    pub client: Option<String>,
    pub srcip: Option<String>,
    pub anycast: Option<bool>,
    pub server: String,
    pub clientname: Option<String>,
    pub devicename: Option<String>,
    pub deviceid: Option<String>,
}

/// The protocol family of a probe or of an address.
#[derive(Clone, Copy, Debug, PartialEq, Eq, Structural)]
pub enum AddressFamily {
    Ipv4,
    Ipv6,
}

/// The client's address as the active-server lookup reported it; `Unknown`
/// where none was reported or it was not an address.
#[derive(Clone, Copy, Debug, PartialEq, Eq)]
pub enum ClientAddress {
    Unknown,
    V4([u8; 4]),
    V6([u16; 8]),
}

/// The family of a client address, if it is known.
pub open spec fn client_family(c: ClientAddress) -> Option<AddressFamily> {
    match c {
        ClientAddress::Unknown => None,
        ClientAddress::V4(_) => Some(AddressFamily::Ipv4),
        ClientAddress::V6(_) => Some(AddressFamily::Ipv6),
    }
}

/// One probe to dispatch: the position of a server in the directory and
/// the family to probe it over.
#[derive(Clone, Copy, Debug, PartialEq, Eq, Structural)]
pub struct Probe {
    pub server: usize,
    pub family: AddressFamily,
}

} // verus!
