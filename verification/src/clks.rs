use vstd::prelude::*;

verus! {

/// The path of the cluster and keyspace info endpoint.
pub open spec fn clks_path() -> Seq<char> {
    "/api/4/private/ClKsInfo"@
}

/// The handler of the cluster and keyspace info endpoint.
#[derive(Debug, Clone, Copy, PartialEq, Eq, Structural)]
pub struct ClKsInfo {}

/// What the endpoint answers.
#[derive(Debug, Clone, Copy, PartialEq, Eq, Structural)]
pub enum ClKsAnswer {
    /// Only GET is served.
    MethodNotAllowed,
    /// The clusters and their keyspaces of the configured database.
    Clusters,
    /// No database is configured: an error document, with status OK.
    NoScylla,
}

impl ClKsInfo {
    /// The handler, for a request to its path.
    pub fn handler(path: &str) -> (r: Option<Self>)
        ensures
            r is Some <==> path@ == clks_path(),
    {
        let p = String::from_str("/api/4/private/ClKsInfo");
        let q = String::from_str(path);
        if q == p {
            Some(ClKsInfo {})
        } else {
            None
        }
    }

    /// The answer to a request, from whether it is a GET and whether a
    /// database is configured.
    pub fn answer(&self, is_get: bool, has_scylla: bool) -> (r: ClKsAnswer)
        ensures
            r == (if !is_get {
                ClKsAnswer::MethodNotAllowed
            } else if has_scylla {
                ClKsAnswer::Clusters
            } else {
                ClKsAnswer::NoScylla
            }),
    {
        if !is_get {
            ClKsAnswer::MethodNotAllowed
        } else if has_scylla {
            ClKsAnswer::Clusters
        } else {
            ClKsAnswer::NoScylla
        }
    }
}

} // verus!
