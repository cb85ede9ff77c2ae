//! The vocabulary shared by the three roles: what a role asks its caller to do,
//! what the caller reports back, and how a fatal condition is named.

use vstd::prelude::*;
use vstd::slice::slice_subrange;

verus! {

/// The size in bytes that suits a role's staging buffer: room for the largest
/// datagram and for a generous chunk of local input.
pub const STAGING_CAPACITY: usize = 0x20000;

/// One of the three concurrent roles that share the session.
#[derive(Clone, Copy, Debug, PartialEq, Eq, Structural)]
pub enum Role {
    /// Network to local output.
    Inbound,
    /// Local input to network.
    Outbound,
    /// Periodic timer maintenance.
    Ticker,
}

/// The kinds of operation a role can ask for.
#[derive(Clone, Copy, Debug, PartialEq, Eq, Structural)]
pub enum Operation {
    /// Taking a datagram from the transport.
    Receive,
    /// Reading from the local input.
    Read,
    /// Sleeping for one interval.
    Sleep,
    /// Taking exclusive access to the session.
    Acquire,
    /// Giving exclusive access back.
    Release,
    /// Feeding a datagram to the engine.
    Input,
    /// Offering bytes to the engine for transmission.
    Send,
    /// Advancing the engine's timers.
    Update,
    /// Making the engine write out what it has queued.
    Flush,
    /// Asking the engine for a complete message.
    Recv,
    /// Writing a message to the local output.
    Deliver,
}

/// A fatal condition: which role was stopped by the failure of which operation.
#[derive(Clone, Copy, Debug, PartialEq, Eq, Structural)]
pub struct Fault {
    pub role: Role,
    pub operation: Operation,
}

/// What the caller reports once the requested operation has returned.
#[derive(Clone, Copy, Debug, PartialEq, Eq, Structural)]
pub enum Outcome {
    /// The operation succeeded and carries no count.
    Done,
    /// The operation succeeded and moved this many bytes.
    Bytes(usize),
    /// The engine has no complete message ready.
    QueueEmpty,
    /// The engine holds part of a message and waits for the rest of it.
    ExpectingFragment,
    /// The operation failed.
    Failed,
}

/// The operation that a role wants performed next. Byte ranges index the
/// role's staging buffer.
#[derive(Clone, Copy, Debug, PartialEq, Eq, Structural)]
pub enum Action {
    /// Block until the transport yields one datagram into the staging buffer.
    Receive,
    /// Block until the local input yields bytes into the staging buffer.
    Read,
    /// Sleep for the given number of milliseconds.
    Sleep { millis: u64 },
    /// Take exclusive access to the session.
    Acquire,
    /// Give exclusive access back.
    Release,
    /// Feed the first `len` staged bytes to the engine as one datagram.
    Input { len: usize },
    /// Offer the staged bytes from `start` up to `end` to the engine.
    Send { start: usize, end: usize },
    /// Advance the engine's timers to `now` milliseconds.
    Update { now: u32 },
    /// Make the engine write out the datagrams it has queued.
    Flush,
    /// Ask the engine for the next complete message, into the staging buffer.
    Recv,
    /// Write the first `len` staged bytes to the local output, all of them.
    Deliver { len: usize },
    /// The role has ended cleanly; nothing is left to do.
    Finish,
    /// The role has ended on a fatal condition.
    Halt(Fault),
}

/// One report from the caller: the outcome of the operation that was pending,
/// and the clock's tick at the moment of the report.
#[derive(Clone, Copy, Debug, PartialEq, Eq, Structural)]
pub struct Stimulus {
    pub outcome: Outcome,
    pub now: u32,
}

/// The outcomes of a trace, without their ticks.
pub open spec fn outcomes_of(trace: Seq<Stimulus>) -> Seq<Outcome> {
    Seq::new(trace.len(), |i: int| trace[i].outcome)
}

/// The outcomes of a part of a trace are that part of the trace's outcomes.
pub(crate) proof fn lemma_outcomes_of_subrange(trace: Seq<Stimulus>, from: int, to: int)
    requires
        0 <= from <= to <= trace.len(),
    ensures
        outcomes_of(trace.subrange(from, to)) == outcomes_of(trace).subrange(from, to),
{
    assert(outcomes_of(trace.subrange(from, to)) =~= outcomes_of(trace).subrange(from, to));
}

/// The bytes of `staging` from `start` up to `end`, where there are such.
fn span_of<'a>(staging: &'a [u8], start: usize, end: usize) -> (named: Option<&'a [u8]>)
    ensures
        start <= end <= staging@.len() ==> (named matches Some(bytes) && bytes@
            == staging@.subrange(start as int, end as int)),
        !(start <= end <= staging@.len()) ==> named is None,
{
    if start <= end && end <= staging.len() {
        Some(slice_subrange(staging, start, end))
    } else {
        None
    }
}

impl Action {
    /// The kind of operation that this action asks for, if it asks for one.
    pub open spec fn operation(self) -> Option<Operation> {
        match self {
            Action::Receive => Some(Operation::Receive),
            Action::Read => Some(Operation::Read),
            Action::Sleep { .. } => Some(Operation::Sleep),
            Action::Acquire => Some(Operation::Acquire),
            Action::Release => Some(Operation::Release),
            Action::Input { .. } => Some(Operation::Input),
            Action::Send { .. } => Some(Operation::Send),
            Action::Update { .. } => Some(Operation::Update),
            Action::Flush => Some(Operation::Flush),
            Action::Recv => Some(Operation::Recv),
            Action::Deliver { .. } => Some(Operation::Deliver),
            Action::Finish => None,
            Action::Halt(_) => None,
        }
    }

    /// Whether this action is a call into the engine.
    pub open spec fn is_engine_call(self) -> bool {
        self is Input || self is Send || self is Update || self is Flush || self is Recv
    }

    /// Whether this action may block for an unbounded time outside the engine.
    pub open spec fn is_blocking_wait(self) -> bool {
        self is Receive || self is Read || self is Sleep
    }

    /// Whether every range of staged bytes that this action names lies within
    /// a staging buffer of `capacity` bytes. An offer to the engine is never
    /// empty.
    pub open spec fn within(self, capacity: usize) -> bool {
        match self {
            Action::Input { len } => len <= capacity,
            Action::Deliver { len } => len <= capacity,
            Action::Send { start, end } => start < end <= capacity,
            _ => true,
        }
    }

    /// The range of staged bytes that this action names, as its start and its
    /// end, if it names one.
    pub open spec fn span(self) -> Option<(usize, usize)> {
        match self {
            Action::Input { len } => Some((0usize, len)),
            Action::Deliver { len } => Some((0usize, len)),
            Action::Send { start, end } => Some((start, end)),
            _ => None,
        }
    }

    /// The staged bytes that this action names: the bytes of `staging` from
    /// the start of the action's range up to its end. There are none where the
    /// action names no range, or a range that does not lie within `staging`.
    pub fn bytes<'a>(&self, staging: &'a [u8]) -> (named: Option<&'a [u8]>)
        ensures
            match self.span() {
                Some((start, end)) => if start <= end <= staging@.len() {
                    named matches Some(bytes) && bytes@ == staging@.subrange(
                        start as int,
                        end as int,
                    )
                } else {
                    named is None
                },
                None => named is None,
            },
    {
        match self {
            Action::Input { len } => span_of(staging, 0, *len),
            Action::Deliver { len } => span_of(staging, 0, *len),
            Action::Send { start, end } => span_of(staging, *start, *end),
            _ => None,
        }
    }

    /// Tells whether this action is a call into the engine.
    pub fn engine_call(&self) -> (b: bool)
        ensures
            b == self.is_engine_call(),
    {
        match self {
            Action::Input { .. } => true,
            Action::Send { .. } => true,
            Action::Update { .. } => true,
            Action::Flush => true,
            Action::Recv => true,
            _ => false,
        }
    }
}

impl Role {
    /// The name of the role as a text.
    pub open spec fn name_text(self) -> Seq<char> {
        match self {
            Role::Inbound => "inbound"@,
            Role::Outbound => "outbound"@,
            Role::Ticker => "ticker"@,
        }
    }

    /// The name by which the role is reported.
    pub fn name(&self) -> (text: &'static str)
        ensures
            text@ == self.name_text(),
    {
        match self {
            Role::Inbound => "inbound",
            Role::Outbound => "outbound",
            Role::Ticker => "ticker",
        }
    }
}

impl Operation {
    /// The text that names the failure of an operation.
    pub open spec fn failure_text(self) -> Seq<char> {
        match self {
            Operation::Receive => "failed to read from udp socket"@,
            Operation::Read => "failed to read from stdin"@,
            Operation::Sleep => "failed to sleep"@,
            Operation::Acquire => "failed to lock kcp instance"@,
            Operation::Release => "failed to unlock kcp instance"@,
            Operation::Input => "invalid kcp packet received"@,
            Operation::Send => "failed to write to kcp stream"@,
            Operation::Update => "failed to update kcp instance"@,
            Operation::Flush => "failed to flush kcp stream"@,
            Operation::Recv => "failed to read from kcp stream"@,
            Operation::Deliver => "failed to write to stdout"@,
        }
    }
}

impl Fault {
    /// The message that names the operation which failed. Together with the
    /// name of the role it tells every fault from every other.
    pub fn message(&self) -> (text: &'static str)
        ensures
            text@ == self.operation.failure_text(),
    {
        match self.operation {
            Operation::Receive => "failed to read from udp socket",
            Operation::Read => "failed to read from stdin",
            Operation::Sleep => "failed to sleep",
            Operation::Acquire => "failed to lock kcp instance",
            Operation::Release => "failed to unlock kcp instance",
            Operation::Input => "invalid kcp packet received",
            Operation::Send => "failed to write to kcp stream",
            Operation::Update => "failed to update kcp instance",
            Operation::Flush => "failed to flush kcp stream",
            Operation::Recv => "failed to read from kcp stream",
            Operation::Deliver => "failed to write to stdout",
        }
    }
}

/// The names tell the roles apart.
pub proof fn lemma_role_names_differ(one: Role, other: Role)
    requires
        one != other,
    ensures
        one.name_text() != other.name_text(),
{
    reveal_strlit("inbound");
    reveal_strlit("outbound");
    reveal_strlit("ticker");
    assert(one.name_text().len() != other.name_text().len());
}

/// The messages tell the operations apart: two operations with the same
/// failure text are the same operation.
pub proof fn lemma_failure_texts_differ(one: Operation, other: Operation)
    requires
        one != other,
    ensures
        one.failure_text() != other.failure_text(),
{
    reveal_strlit("failed to read from udp socket");
    reveal_strlit("failed to read from stdin");
    reveal_strlit("failed to sleep");
    reveal_strlit("failed to lock kcp instance");
    reveal_strlit("failed to unlock kcp instance");
    reveal_strlit("invalid kcp packet received");
    reveal_strlit("failed to write to kcp stream");
    reveal_strlit("failed to update kcp instance");
    reveal_strlit("failed to flush kcp stream");
    reveal_strlit("failed to read from kcp stream");
    reveal_strlit("failed to write to stdout");
    let a = one.failure_text();
    let b = other.failure_text();
    if a.len() == b.len() {
        // Texts of one length differ in their first, eleventh, twelfth or
        // twenty-first character.
        assert(a[0] != b[0] || a[10] != b[10] || a[11] != b[11] || a[20] != b[20]);
    }
}

} // verus!
