use vstd::prelude::*;

verus! {

/// The query of the channel add endpoint.
#[derive(Debug, Clone, PartialEq, Eq)]
pub struct ChannelAddQuery {
    pub name: String,
}

/// The body of a failed channel add.
#[derive(Debug, Clone, PartialEq, Eq)]
pub struct ChannelAddErrorBody {
    pub kind: String,
    pub error: String,
}

/// The failure of the channel add endpoint.
#[derive(Debug, Clone, PartialEq, Eq)]
pub enum ChannelAddApiError {
    AddFailed(String),
}

impl ChannelAddApiError {
    /// The stable machine-readable name of the failure.
    pub fn kind(&self) -> (r: &'static str)
        ensures
            r@ == "add-failed"@,
    {
        match self {
            ChannelAddApiError::AddFailed(..) => "add-failed",
        }
    }

    /// The HTTP status of the failure: always an internal error.
    pub fn status_code(&self) -> (r: u16)
        ensures
            r == 500,
    {
        500
    }
}

/// The query of the channel remove endpoint.
#[derive(Debug, Clone, PartialEq, Eq)]
pub struct ChannelRemoveQuery {
    pub addr: String,
    pub backend: String,
    pub name: String,
}

/// The query of the read-notify endpoint.
#[derive(Debug, Clone, PartialEq, Eq)]
pub struct ChannelReadNotifyQuery {
    pub name: String,
}

/// The body of a failed read-notify request.
#[derive(Debug, Clone, PartialEq, Eq)]
pub struct ChannelReadNotifyErrorBody {
    pub kind: String,
    pub error: String,
}

/// The failures of the read-notify endpoint: the v2 ingest path does not
/// run, or the command failed.
#[derive(Debug, Clone, PartialEq, Eq)]
pub enum ChannelReadNotifyApiError {
    Conn2NotActive,
    Backend(String),
}

impl ChannelReadNotifyApiError {
    pub open spec fn kind_spec(&self) -> Seq<char> {
        match self {
            ChannelReadNotifyApiError::Conn2NotActive => "conn2-not-active"@,
            ChannelReadNotifyApiError::Backend(..) => "backend-error"@,
        }
    }

    /// The stable machine-readable name of the failure.
    pub fn kind(&self) -> (r: &'static str)
        ensures
            r@ == self.kind_spec(),
    {
        match self {
            ChannelReadNotifyApiError::Conn2NotActive => "conn2-not-active",
            ChannelReadNotifyApiError::Backend(..) => "backend-error",
        }
    }

    /// The HTTP status: unavailable without the v2 path, an internal error
    /// otherwise.
    pub fn status_code(&self) -> (r: u16)
        ensures
            r == (if self is Conn2NotActive { 503u16 } else { 500u16 }),
    {
        match self {
            ChannelReadNotifyApiError::Conn2NotActive => 503,
            ChannelReadNotifyApiError::Backend(..) => 500,
        }
    }
}

/// The query of the channel trace endpoint.
#[derive(Debug, Clone, PartialEq, Eq)]
pub struct ChannelTraceQuery {
    pub name: String,
}

/// The body of a failed channel trace request.
#[derive(Debug, Clone, PartialEq, Eq)]
pub struct ChannelTraceErrorBody {
    pub kind: String,
    pub error: String,
}

/// The failures of the channel trace endpoint.
#[derive(Debug, Clone, PartialEq, Eq)]
pub enum ChannelTraceApiError {
    Conn2NotActive,
    Backend(String),
}

impl ChannelTraceApiError {
    pub open spec fn kind_spec(&self) -> Seq<char> {
        match self {
            ChannelTraceApiError::Conn2NotActive => "conn2-not-active"@,
            ChannelTraceApiError::Backend(..) => "backend-error"@,
        }
    }

    /// The stable machine-readable name of the failure.
    pub fn kind(&self) -> (r: &'static str)
        ensures
            r@ == self.kind_spec(),
    {
        match self {
            ChannelTraceApiError::Conn2NotActive => "conn2-not-active",
            ChannelTraceApiError::Backend(..) => "backend-error",
        }
    }

    /// The HTTP status: unavailable without the v2 path, an internal error
    /// otherwise.
    pub fn status_code(&self) -> (r: u16)
        ensures
            r == (if self is Conn2NotActive { 503u16 } else { 500u16 }),
    {
        match self {
            ChannelTraceApiError::Conn2NotActive => 503,
            ChannelTraceApiError::Backend(..) => 500,
        }
    }
}

} // verus!
