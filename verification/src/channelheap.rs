use vstd::prelude::*;
use crate::channelhandler;

verus! {

/// What a channel handler reports: its snapshot while it runs, or that it is
/// done.
#[derive(Debug)]
pub enum StatusChannelHandlerState {
    Active(channelhandler::StatusInfo),
    Done,
}

/// One channel of the heap of a connection.
#[derive(Debug)]
pub struct StatusChannelHandler {
    pub name: String,
    pub cid: u32,
    pub state: StatusChannelHandlerState,
}

/// The channels of a connection whose protocol session is running.
#[derive(Debug)]
pub struct StatusInfo {
    pub channel_count_total: u32,
    pub handlers: Vec<StatusChannelHandler>,
}

} // verus!
