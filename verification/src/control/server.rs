//! The bounded listener: how many connections it holds and how they ended.
use vstd::prelude::*;

verus! {

/// How many connections are open at a time.
pub const MAX_CONNECTIONS: usize = 128;

/// How long a connection may take, in seconds.
pub const CONNECTION_SECONDS: u64 = 15;

/// How long the headers of a request may take, in seconds.
pub const HEADER_SECONDS: u64 = 2;

/// How long open connections may take to end once the listener stops, in seconds.
pub const DRAIN_SECONDS: u64 = 3;

/// How a connection ended.
#[derive(Clone, Copy, Debug, PartialEq, Eq, Structural)]
pub enum ConnectionEnd {
    Completed,
    ProtocolError,
    DeadlineExceeded,
    /// Its task failed.
    Failed,
}

#[derive(Clone, Copy, Debug, PartialEq, Eq, Structural)]
pub struct ConnectionStats {
    pub completed: u64,
    pub protocol_errors: u64,
    pub deadline_exceeded: u64,
    pub task_failures: u64,
    pub aborted_on_shutdown: u64,
}

impl Default for ConnectionStats {
    fn default() -> (r: ConnectionStats)
        ensures
            r == (ConnectionStats {
                completed: 0,
                protocol_errors: 0,
                deadline_exceeded: 0,
                task_failures: 0,
                aborted_on_shutdown: 0,
            }),
    {
        ConnectionStats {
            completed: 0,
            protocol_errors: 0,
            deadline_exceeded: 0,
            task_failures: 0,
            aborted_on_shutdown: 0,
        }
    }
}

impl ConnectionStats {
    /// The counter of an end.
    pub open spec fn count(self, end: ConnectionEnd) -> u64 {
        match end {
            ConnectionEnd::Completed => self.completed,
            ConnectionEnd::ProtocolError => self.protocol_errors,
            ConnectionEnd::DeadlineExceeded => self.deadline_exceeded,
            ConnectionEnd::Failed => self.task_failures,
        }
    }

    /// Count an end, and it alone.
    pub fn record(&mut self, end: ConnectionEnd)
        requires
            old(self).count(end) < u64::MAX,
        ensures
            final(self).count(end) == old(self).count(end) + 1,
            forall|other: ConnectionEnd|
                other != end ==> #[trigger] final(self).count(other) == old(self).count(other),
            final(self).aborted_on_shutdown == old(self).aborted_on_shutdown,
    {
        match end {
            ConnectionEnd::Completed => {
                self.completed = self.completed + 1;
            },
            ConnectionEnd::ProtocolError => {
                self.protocol_errors = self.protocol_errors + 1;
            },
            ConnectionEnd::DeadlineExceeded => {
                self.deadline_exceeded = self.deadline_exceeded + 1;
            },
            ConnectionEnd::Failed => {
                self.task_failures = self.task_failures + 1;
            },
        }
    }
}

/// Whether one more connection is accepted.
pub fn may_accept(open: usize) -> (r: bool)
    ensures
        r == (open < MAX_CONNECTIONS),
        r <==> open < 128,
{
    open < MAX_CONNECTIONS
}

/// What a question for readiness is answered: only this machine may ask.
pub fn ready(peer_is_loopback: bool, schema_is_compatible: bool) -> (r: u16)
    ensures
        r == (if !peer_is_loopback {
            403u16
        } else if schema_is_compatible {
            200u16
        } else {
            503u16
        }),
{
    if !peer_is_loopback {
        403
    } else if schema_is_compatible {
        200
    } else {
        503
    }
}

/// Each end has a counter of its own, and together they count all ends.
pub proof fn ends_are_counted_apart(stats: ConnectionStats)
    ensures
        stats.count(ConnectionEnd::Completed) == stats.completed,
        stats.count(ConnectionEnd::ProtocolError) == stats.protocol_errors,
        stats.count(ConnectionEnd::DeadlineExceeded) == stats.deadline_exceeded,
        stats.count(ConnectionEnd::Failed) == stats.task_failures,
{
}

/// Headers have a part of the time of their connection, and a listener that stops
/// waits for less than a connection may take.
pub proof fn connections_end_in_time()
    ensures
        HEADER_SECONDS == 2 && DRAIN_SECONDS == 3 && CONNECTION_SECONDS == 15,
        HEADER_SECONDS < DRAIN_SECONDS < CONNECTION_SECONDS,
{
}

} // verus!
