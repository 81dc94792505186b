use vstd::prelude::*;

verus! {

/// One connection of the connection list: its address, port, and the host
/// name it resolves to.
#[derive(Debug, Clone, PartialEq, Eq)]
pub struct ConnectionListV1Conn1 {
    pub ip: u32,
    pub port: u16,
    pub name: String,
}

/// The connections of an ingest process.
#[derive(Debug, Clone, PartialEq, Eq)]
pub struct ConnectionListV1 {
    pub ingest_name: String,
    pub list: Vec<ConnectionListV1Conn1>,
}

/// A channel of a connection with the short name of its state.
#[derive(Debug, Clone, PartialEq, Eq)]
pub struct ChannelInfoV1 {
    pub name: String,
    pub state_short: String,
}

/// The channels of one connection.
#[derive(Debug, Clone, PartialEq, Eq)]
pub struct ChannelsForAddrInfoV1 {
    pub channels: Vec<ChannelInfoV1>,
}

impl ChannelsForAddrInfoV1 {
    pub fn new() -> (r: Self)
        ensures
            r.channels@.len() == 0,
    {
        ChannelsForAddrInfoV1 { channels: Vec::new() }
    }

    /// Adds the channels of another answer after the present ones.
    pub fn extend(&mut self, other: ChannelsForAddrInfoV1)
        ensures
            final(self).channels@ == old(self).channels@ + other.channels@,
    {
        let mut other = other;
        self.channels.append(&mut other.channels);
    }
}

/// The type tag of a dynamic command.
#[derive(Debug, Clone, PartialEq, Eq)]
pub struct CmdType {
    pub ty: String,
}

/// The dynamic command that lists channels by a regex on their name, either
/// those of the connection set or those of its connections.
#[derive(Debug, Clone, PartialEq, Eq)]
pub struct CmdChannelsByRegex {
    pub ty: String,
    pub regex: String,
    pub src: String,
    pub kind: String,
}

/// The extra copies that inserts make: pairs of series ids.
#[derive(Debug, Clone, PartialEq, Eq)]
pub struct ExtraInsertsConf {
    pub copies: Vec<(u64, u64)>,
}

impl ExtraInsertsConf {
    pub fn new() -> (r: Self)
        ensures
            r.copies@.len() == 0,
    {
        ExtraInsertsConf { copies: Vec::new() }
    }
}

} // verus!
