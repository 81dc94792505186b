use vstd::prelude::*;

verus! {

/// The configuration of a channel, as far as this library reads it: the
/// channel's name, and where the configuration came from.
#[derive(Debug)]
pub struct ChannelConfig {
    name: String,
    origin: String,
}

impl ChannelConfig {
    pub closed spec fn name_spec(&self) -> Seq<char> {
        self.name@
    }

    pub closed spec fn origin_spec(&self) -> Seq<char> {
        self.origin@
    }

    /// Whether two configurations read the same.
    pub open spec fn same(&self, other: &ChannelConfig) -> bool {
        &&& self.name_spec() == other.name_spec()
        &&& self.origin_spec() == other.origin_spec()
    }

    /// A monitored channel of this name, configured by `origin`.
    pub fn st_monitor(name: &str, origin: &str) -> (r: Self)
        ensures
            r.name_spec() == name@,
            r.origin_spec() == origin@,
    {
        ChannelConfig { name: String::from_str(name), origin: String::from_str(origin) }
    }

    pub fn name(&self) -> (r: &str)
        ensures
            r@ == self.name_spec(),
    {
        self.name.as_str()
    }

    pub fn origin(&self) -> (r: &str)
        ensures
            r@ == self.origin_spec(),
    {
        self.origin.as_str()
    }

    /// A copy of the configuration.
    pub fn duplicate(&self) -> (r: Self)
        ensures
            r.same(self),
    {
        ChannelConfig { name: self.name.clone(), origin: self.origin.clone() }
    }
}

} // verus!
