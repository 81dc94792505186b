use vstd::prelude::*;
use crate::addr::AddrV4;
use crate::connected;

verus! {

/// The state of a connection.
#[derive(Debug)]
pub enum StatusState {
    Connecting,
    Connected(connected::StatusInfo),
    Done,
}

/// What a connection reports of itself, with the time of the report in
/// milliseconds since the epoch.
#[derive(Debug)]
pub struct StatusInfo {
    pub ts_ms: u64,
    pub addr: AddrV4,
    pub state: StatusState,
}

/// How much a status request asks for.
#[derive(Debug, Clone, Copy, PartialEq, Eq, Structural)]
pub enum StatusDetail {
    Light,
    Full,
}

} // verus!
