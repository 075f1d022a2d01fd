//! The search for a port to forward.

use crate::server::ServerView;
use vstd::prelude::*;

verus! {

/// How many random ports are tried for a client that asks for any.
pub const PORT_ATTEMPTS: u8 = 150;

/// Why a port could not be bound.
#[derive(Copy, Clone, Debug, PartialEq, Eq)]
pub enum BindError {
    /// Somebody else has it.
    AddrInUse,
    /// It may not be had.
    PermissionDenied,
    /// Any other reason.
    Other,
}

/// Why a client gets no port.
#[derive(Copy, Clone, Debug, PartialEq, Eq)]
pub enum PortError {
    /// The port that it asked for may not be forwarded.
    OutOfRange,
    /// The port that it asked for could not be bound.
    Bind(BindError),
    /// It asked for any port, and none of those that were tried could be bound.
    NoneAvailable,
}

impl PortError {
    /// The words in which the error is reported.
    pub open spec fn text(self) -> Seq<char> {
        match self {
            PortError::OutOfRange => "client port number not in allowed range"@,
            PortError::Bind(BindError::AddrInUse) => "port already in use"@,
            PortError::Bind(BindError::PermissionDenied) => "permission denied"@,
            PortError::Bind(BindError::Other) => "failed to bind to port"@,
            PortError::NoneAvailable => "failed to find an available port"@,
        }
    }

    /// The words in which the error is reported.
    pub fn message(&self) -> (text: String)
        ensures
            text@ == self.text(),
    {
        match self {
            PortError::OutOfRange => "client port number not in allowed range".to_owned(),
            PortError::Bind(BindError::AddrInUse) => "port already in use".to_owned(),
            PortError::Bind(BindError::PermissionDenied) => "permission denied".to_owned(),
            PortError::Bind(BindError::Other) => "failed to bind to port".to_owned(),
            PortError::NoneAvailable => "failed to find an available port".to_owned(),
        }
    }
}

/// The search for a port that a client asked for: zero asks for any.
#[derive(Copy, Clone, Debug, PartialEq, Eq)]
pub struct PortSearch {
    /// The port that was asked for.
    pub requested: u16,
    /// How many ports could not be bound so far.
    pub failures: u8,
}

/// What is to be done next in the search for a port.
#[derive(Copy, Clone, Debug, PartialEq, Eq)]
pub enum PortStep {
    /// Bind this port.
    Bind(u16),
    /// Give up.
    Refuse(PortError),
}

/// How a search starts.
pub open spec fn first_port(server: ServerView, requested: u16, pick: u16) -> PortStep {
    if requested == 0 {
        PortStep::Bind(pick)
    } else if server.min_port <= requested <= server.max_port {
        PortStep::Bind(requested)
    } else {
        PortStep::Refuse(PortError::OutOfRange)
    }
}

/// How a search goes on after a port could not be bound.
pub open spec fn next_port(search: PortSearch, error: BindError, pick: u16) -> PortStep {
    if search.requested != 0 {
        PortStep::Refuse(PortError::Bind(error))
    } else if search.failures + 1 < PORT_ATTEMPTS {
        PortStep::Bind(pick)
    } else {
        PortStep::Refuse(PortError::NoneAvailable)
    }
}

impl PortSearch {
    /// How to go on after a port could not be bound, with the port to try if the client asked for
    /// any.
    pub fn retry(&self, error: BindError, pick: u16) -> (step: PortStep)
        ensures
            step == next_port(*self, error, pick),
    {
        if self.requested > 0 {
            PortStep::Refuse(PortError::Bind(error))
        } else if self.failures < PORT_ATTEMPTS - 1 {
            PortStep::Bind(pick)
        } else {
            PortStep::Refuse(PortError::NoneAvailable)
        }
    }
}

/// A client that asks for any port is offered the one that was picked; one that asks for a certain
/// port is offered that port, if it can be forwarded, and no other.
pub proof fn search_starts_with_what_was_asked(server: ServerView, requested: u16, pick: u16)
    ensures
        requested == 0 ==> first_port(server, requested, pick) == PortStep::Bind(pick),
        requested != 0 && server.min_port <= requested <= server.max_port ==> first_port(
            server,
            requested,
            pick,
        ) == PortStep::Bind(requested),
        requested != 0 && !(server.min_port <= requested <= server.max_port) ==> first_port(
            server,
            requested,
            pick,
        ) == PortStep::Refuse(PortError::OutOfRange),
{
}

/// A port that was asked for is not replaced by another: the reason is reported. Where any port
/// will do, the next one that was picked is tried, until a hundred and fifty could not be bound.
pub proof fn search_goes_on_where_any_port_will_do(
    search: PortSearch,
    error: BindError,
    pick: u16,
)
    ensures
        search.requested != 0 ==> next_port(search, error, pick) == PortStep::Refuse(
            PortError::Bind(error),
        ),
        search.requested == 0 && search.failures < 149 ==> next_port(search, error, pick)
            == PortStep::Bind(pick),
        search.requested == 0 && search.failures >= 149 ==> next_port(search, error, pick)
            == PortStep::Refuse(PortError::NoneAvailable),
{
}

} // verus!
