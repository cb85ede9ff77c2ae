//! The inbound pump: datagrams from the transport go into the engine, and the
//! messages that the engine reassembles go to the local output.

use crate::protocol::lemma_failure_texts_differ;
use crate::protocol::lemma_outcomes_of_subrange;
use crate::protocol::outcomes_of;
use crate::protocol::Action;
use crate::protocol::Fault;
use crate::protocol::Operation;
use crate::protocol::Outcome;
use crate::protocol::Role;
use crate::protocol::Stimulus;
use vstd::prelude::*;

verus! {

/// Where the inbound pump stands in its cycle. Each phase has exactly one
/// pending operation.
#[derive(Clone, Copy, Debug, PartialEq, Eq, Structural)]
pub enum InboundPhase {
    /// Waiting for the next datagram; the session is not held.
    Receiving,
    /// A datagram of `len` bytes is staged; waiting for the session.
    Acquiring { len: usize },
    /// The session is held; the staged datagram goes to the engine.
    Feeding { len: usize },
    /// The engine's timers are advanced to `now`.
    Updating { now: u32 },
    /// The engine writes out what the datagram made it queue.
    Flushing,
    /// The engine is asked for the next complete message.
    Draining,
    /// A message of `len` bytes is staged and goes to the local output.
    Delivering { len: usize },
    /// Nothing more is ready; the session is given back.
    Releasing,
    /// The pump has stopped on a fatal condition.
    Failed(Fault),
}

/// The inbound pump: its phase, and the size of the staging buffer that the
/// caller keeps for it.
#[derive(Clone, Copy, Debug, PartialEq, Eq, Structural)]
pub struct InboundState {
    pub capacity: usize,
    pub phase: InboundPhase,
}

/// One arrival as the engine sees it: a datagram of `datagram` bytes, after
/// which the engine yields the messages of the lengths `messages`, in this
/// order, and then reports `stop`.
pub struct Arrival {
    pub datagram: usize,
    pub messages: Seq<usize>,
    pub stop: Outcome,
}

/// The two outcomes by which the engine says that it has nothing more to yield
/// for now.
pub open spec fn ends_drain(outcome: Outcome) -> bool {
    outcome is QueueEmpty || outcome is ExpectingFragment
}

/// The phase in which the inbound pump rests after `operation` has failed.
pub open spec fn inbound_failure(operation: Operation) -> InboundPhase {
    InboundPhase::Failed(Fault { role: Role::Inbound, operation })
}

/// What the caller reports while the engine yields `messages` and then `stop`:
/// for each message the byte count and the completed delivery, then `stop`.
pub open spec fn drain_outcomes(messages: Seq<usize>, stop: Outcome) -> Seq<Outcome>
    decreases messages.len(),
{
    if messages.len() == 0 {
        seq![stop]
    } else {
        seq![Outcome::Bytes(messages[0]), Outcome::Done] + drain_outcomes(
            messages.drop_first(),
            stop,
        )
    }
}

/// What the caller reports over one whole arrival: the datagram, the granted
/// session, the accepted input, the update, the flush, the drain, and the
/// release.
pub open spec fn arrival_outcomes(arrival: Arrival) -> Seq<Outcome> {
    seq![
        Outcome::Bytes(arrival.datagram),
        Outcome::Done,
        Outcome::Done,
        Outcome::Done,
        Outcome::Done,
    ] + drain_outcomes(arrival.messages, arrival.stop) + seq![Outcome::Done]
}

/// What the caller reports over a run of arrivals, one after the other.
pub open spec fn arrivals_outcomes(arrivals: Seq<Arrival>) -> Seq<Outcome>
    decreases arrivals.len(),
{
    if arrivals.len() == 0 {
        seq![]
    } else {
        arrival_outcomes(arrivals[0]) + arrivals_outcomes(arrivals.drop_first())
    }
}

/// The messages that the engine yields over a run of arrivals, in the order in
/// which it yields them.
pub open spec fn arrivals_messages(arrivals: Seq<Arrival>) -> Seq<usize>
    decreases arrivals.len(),
{
    if arrivals.len() == 0 {
        seq![]
    } else {
        arrivals[0].messages + arrivals_messages(arrivals.drop_first())
    }
}

/// Whether an arrival fits the staging buffer and ends its drain in one of the
/// two expected ways.
pub open spec fn arrival_fits(arrival: Arrival, capacity: usize) -> bool {
    &&& arrival.datagram <= capacity
    &&& forall|i: int| 0 <= i < arrival.messages.len() ==> arrival.messages[i] <= capacity
    &&& ends_drain(arrival.stop)
}

fn stopped_by(operation: Operation) -> (phase: InboundPhase)
    ensures
        phase == inbound_failure(operation),
{
    InboundPhase::Failed(Fault { role: Role::Inbound, operation })
}

impl InboundState {
    /// The operation that the pump waits for.
    pub open spec fn pending(&self) -> Action {
        match self.phase {
            InboundPhase::Receiving => Action::Receive,
            InboundPhase::Acquiring { .. } => Action::Acquire,
            InboundPhase::Feeding { len } => Action::Input { len },
            InboundPhase::Updating { now } => Action::Update { now },
            InboundPhase::Flushing => Action::Flush,
            InboundPhase::Draining => Action::Recv,
            InboundPhase::Delivering { len } => Action::Deliver { len },
            InboundPhase::Releasing => Action::Release,
            InboundPhase::Failed(fault) => Action::Halt(fault),
        }
    }

    /// Whether the pump has exclusive access to the session in this phase.
    pub open spec fn holds_session(&self) -> bool {
        match self.phase {
            InboundPhase::Feeding { .. } => true,
            InboundPhase::Updating { .. } => true,
            InboundPhase::Flushing => true,
            InboundPhase::Draining => true,
            InboundPhase::Delivering { .. } => true,
            InboundPhase::Releasing => true,
            _ => false,
        }
    }

    /// Every staged length fits the staging buffer.
    pub open spec fn wf(&self) -> bool {
        match self.phase {
            InboundPhase::Acquiring { len } => len <= self.capacity,
            InboundPhase::Feeding { len } => len <= self.capacity,
            InboundPhase::Delivering { len } => len <= self.capacity,
            InboundPhase::Failed(fault) => fault.role == Role::Inbound,
            _ => true,
        }
    }

    /// The phase to which a success takes the pump: where the pending operation
    /// can end in `outcome`, the phase that follows when it does and the clock
    /// reads `now`. A count of more bytes than the staging buffer holds is no
    /// success.
    pub open spec fn success(&self, outcome: Outcome, now: u32) -> Option<InboundPhase> {
        match (self.phase, outcome) {
            (InboundPhase::Receiving, Outcome::Bytes(len)) => if len <= self.capacity {
                Some(InboundPhase::Acquiring { len })
            } else {
                None
            },
            (InboundPhase::Acquiring { len }, Outcome::Done) => Some(InboundPhase::Feeding { len }),
            (InboundPhase::Feeding { .. }, Outcome::Done) => Some(InboundPhase::Updating { now }),
            (InboundPhase::Updating { .. }, Outcome::Done) => Some(InboundPhase::Flushing),
            (InboundPhase::Flushing, Outcome::Done) => Some(InboundPhase::Draining),
            (InboundPhase::Draining, Outcome::Bytes(len)) => if len <= self.capacity {
                Some(InboundPhase::Delivering { len })
            } else {
                None
            },
            (InboundPhase::Draining, Outcome::QueueEmpty) => Some(InboundPhase::Releasing),
            (InboundPhase::Draining, Outcome::ExpectingFragment) => Some(InboundPhase::Releasing),
            (InboundPhase::Delivering { .. }, Outcome::Done) => Some(InboundPhase::Draining),
            (InboundPhase::Releasing, Outcome::Done) => Some(InboundPhase::Receiving),
            _ => None,
        }
    }

    /// The phase that follows when the pending operation ends in `outcome` and
    /// the clock reads `now`. A stopped pump stays as it is. Otherwise a
    /// success takes the pump on, and anything else is the failure of the
    /// pending operation.
    pub open spec fn next_phase(&self, outcome: Outcome, now: u32) -> InboundPhase {
        if self.phase is Failed {
            self.phase
        } else {
            match self.success(outcome, now) {
                Some(phase) => phase,
                None => inbound_failure(self.pending().operation().unwrap()),
            }
        }
    }

    /// The pump after one report.
    pub open spec fn next(&self, outcome: Outcome, now: u32) -> InboundState {
        InboundState { capacity: self.capacity, phase: self.next_phase(outcome, now) }
    }

    /// The pump after a whole trace of reports.
    pub open spec fn run(&self, trace: Seq<Stimulus>) -> InboundState
        decreases trace.len(),
    {
        if trace.len() == 0 {
            *self
        } else {
            self.next(trace[0].outcome, trace[0].now).run(trace.drop_first())
        }
    }

    /// The lengths of the messages that the pump asks to have delivered over a
    /// trace of reports, in the order in which it asks.
    pub open spec fn deliveries(&self, trace: Seq<Stimulus>) -> Seq<usize>
        decreases trace.len(),
    {
        if trace.len() == 0 {
            seq![]
        } else {
            let after = self.next(trace[0].outcome, trace[0].now);
            let rest = after.deliveries(trace.drop_first());
            match after.phase {
                InboundPhase::Delivering { len } => seq![len] + rest,
                _ => rest,
            }
        }
    }
}

/// The inbound pump as the caller holds it. Its state can only be reached from
/// a fresh pump by reports, so it is well formed at all times.
#[derive(Clone, Copy, Debug)]
pub struct InboundPump {
    state: InboundState,
}

impl View for InboundPump {
    type V = InboundState;

    closed spec fn view(&self) -> InboundState {
        self.state
    }
}

impl InboundPump {
    #[verifier::type_invariant]
    spec fn well_formed(self) -> bool {
        self.state.wf()
    }

    /// A pump for a staging buffer of `capacity` bytes, waiting for its first
    /// datagram.
    pub fn new(capacity: usize) -> (pump: InboundPump)
        ensures
            pump@ == (InboundState { capacity, phase: InboundPhase::Receiving }),
    {
        InboundPump { state: InboundState { capacity, phase: InboundPhase::Receiving } }
    }

    /// The size of the staging buffer that the pump was made for.
    pub fn capacity(&self) -> (capacity: usize)
        ensures
            capacity == self@.capacity,
    {
        self.state.capacity
    }

    /// The phase in which the pump stands.
    pub fn phase(&self) -> (phase: InboundPhase)
        ensures
            phase == self@.phase,
    {
        self.state.phase
    }

    /// Whether the pump has exclusive access to the session in this phase.
    pub fn holds_session(&self) -> (held: bool)
        ensures
            held == self@.holds_session(),
    {
        match self.state.phase {
            InboundPhase::Feeding { .. } => true,
            InboundPhase::Updating { .. } => true,
            InboundPhase::Flushing => true,
            InboundPhase::Draining => true,
            InboundPhase::Delivering { .. } => true,
            InboundPhase::Releasing => true,
            _ => false,
        }
    }

    /// The operation that the caller has to perform next.
    pub fn pending(&self) -> (request: Action)
        ensures
            request == self@.pending(),
            request.within(self@.capacity),
            self@.wf(),
    {
        proof {
            use_type_invariant(self);
        }
        match self.state.phase {
            InboundPhase::Receiving => Action::Receive,
            InboundPhase::Acquiring { .. } => Action::Acquire,
            InboundPhase::Feeding { len } => Action::Input { len },
            InboundPhase::Updating { now } => Action::Update { now },
            InboundPhase::Flushing => Action::Flush,
            InboundPhase::Draining => Action::Recv,
            InboundPhase::Delivering { len } => Action::Deliver { len },
            InboundPhase::Releasing => Action::Release,
            InboundPhase::Failed(fault) => Action::Halt(fault),
        }
    }

    /// Takes the outcome of the pending operation, with the clock's tick at
    /// this moment, and returns the operation to perform next.
    pub fn step(&mut self, outcome: Outcome, now: u32) -> (request: Action)
        ensures
            final(self)@ == old(self)@.next(outcome, now),
            request == final(self)@.pending(),
            request.within(final(self)@.capacity),
            final(self)@.wf(),
    {
        proof {
            use_type_invariant(&*self);
        }
        let phase = match self.state.phase {
            InboundPhase::Receiving => match outcome {
                Outcome::Bytes(len) => if len <= self.state.capacity {
                    InboundPhase::Acquiring { len }
                } else {
                    stopped_by(Operation::Receive)
                },
                _ => stopped_by(Operation::Receive),
            },
            InboundPhase::Acquiring { len } => match outcome {
                Outcome::Done => InboundPhase::Feeding { len },
                _ => stopped_by(Operation::Acquire),
            },
            InboundPhase::Feeding { .. } => match outcome {
                Outcome::Done => InboundPhase::Updating { now },
                _ => stopped_by(Operation::Input),
            },
            InboundPhase::Updating { .. } => match outcome {
                Outcome::Done => InboundPhase::Flushing,
                _ => stopped_by(Operation::Update),
            },
            InboundPhase::Flushing => match outcome {
                Outcome::Done => InboundPhase::Draining,
                _ => stopped_by(Operation::Flush),
            },
            InboundPhase::Draining => match outcome {
                Outcome::Bytes(len) => if len <= self.state.capacity {
                    InboundPhase::Delivering { len }
                } else {
                    stopped_by(Operation::Recv)
                },
                Outcome::QueueEmpty => InboundPhase::Releasing,
                Outcome::ExpectingFragment => InboundPhase::Releasing,
                _ => stopped_by(Operation::Recv),
            },
            InboundPhase::Delivering { .. } => match outcome {
                Outcome::Done => InboundPhase::Draining,
                _ => stopped_by(Operation::Deliver),
            },
            InboundPhase::Releasing => match outcome {
                Outcome::Done => InboundPhase::Receiving,
                _ => stopped_by(Operation::Release),
            },
            InboundPhase::Failed(fault) => InboundPhase::Failed(fault),
        };
        self.state = InboundState { capacity: self.state.capacity, phase };
        self.pending()
    }
}

/// A drain of `messages` takes two reports for each message and one to end.
proof fn lemma_drain_outcomes_len(messages: Seq<usize>, stop: Outcome)
    ensures
        drain_outcomes(messages, stop).len() == 2 * messages.len() + 1,
    decreases messages.len(),
{
    if messages.len() > 0 {
        lemma_drain_outcomes_len(messages.drop_first(), stop);
    }
}

/// Running a trace in two parts is running the whole: the pump ends in the same
/// phase and asks for the same deliveries.
pub proof fn lemma_inbound_run_in_parts(
    pump: InboundState,
    head: Seq<Stimulus>,
    tail: Seq<Stimulus>,
)
    ensures
        pump.run(head + tail) == pump.run(head).run(tail),
        pump.deliveries(head + tail) == pump.deliveries(head) + pump.run(head).deliveries(tail),
    decreases head.len(),
{
    if head.len() == 0 {
        assert(head + tail =~= tail);
        assert(pump.deliveries(head) + pump.run(head).deliveries(tail) =~= pump.deliveries(tail));
    } else {
        let whole = head + tail;
        let after = pump.next(head[0].outcome, head[0].now);
        assert(whole[0] == head[0]);
        assert(whole.drop_first() =~= head.drop_first() + tail);
        lemma_inbound_run_in_parts(after, head.drop_first(), tail);
        let rest = after.deliveries(head.drop_first()) + after.run(head.drop_first()).deliveries(
            tail,
        );
        match after.phase {
            InboundPhase::Delivering { len } => {
                assert(seq![len] + rest =~= (seq![len] + after.deliveries(head.drop_first()))
                    + after.run(head.drop_first()).deliveries(tail));
            },
            _ => {},
        }
    }
}

/// One drain delivers what the engine yields: from the phase in which the
/// engine is first asked, a drain in which the engine yields `messages` and
/// then has nothing more makes the pump ask for the delivery of exactly these
/// messages, in this order, and then give the session back. Neither way of
/// having nothing more stops the pump.
pub proof fn lemma_drain_delivers_all(
    pump: InboundState,
    trace: Seq<Stimulus>,
    messages: Seq<usize>,
    stop: Outcome,
)
    requires
        pump.phase == InboundPhase::Draining,
        forall|i: int| 0 <= i < messages.len() ==> messages[i] <= pump.capacity,
        ends_drain(stop),
        outcomes_of(trace) == drain_outcomes(messages, stop),
    ensures
        pump.run(trace).phase == InboundPhase::Releasing,
        pump.run(trace).capacity == pump.capacity,
        pump.deliveries(trace) == messages,
    decreases messages.len(),
{
    let reports = drain_outcomes(messages, stop);
    lemma_drain_outcomes_len(messages, stop);
    assert(trace.len() == reports.len());
    assert(forall|i: int| 0 <= i < trace.len() ==> trace[i].outcome == outcomes_of(trace)[i]);
    if messages.len() == 0 {
        assert(trace[0].outcome == reports[0]);
        let after = pump.next(trace[0].outcome, trace[0].now);
        assert(after.phase == InboundPhase::Releasing);
        assert(trace.drop_first().len() == 0);
        assert(after.run(trace.drop_first()) == after);
        assert(pump.run(trace) == after.run(trace.drop_first()));
        assert(after.deliveries(trace.drop_first()) =~= Seq::<usize>::empty());
        assert(pump.deliveries(trace) =~= messages);
    } else {
        let later = drain_outcomes(messages.drop_first(), stop);
        assert(reports == seq![Outcome::Bytes(messages[0]), Outcome::Done] + later);
        assert(trace[0].outcome == reports[0]);
        assert(trace[1].outcome == reports[1]);
        let staged = pump.next(trace[0].outcome, trace[0].now);
        assert(staged.phase == InboundPhase::Delivering { len: messages[0] });
        let rest1 = trace.drop_first();
        assert(rest1[0] == trace[1]);
        let asked = staged.next(rest1[0].outcome, rest1[0].now);
        assert(asked.phase == InboundPhase::Draining);
        let rest2 = rest1.drop_first();
        assert(rest2 =~= trace.subrange(2, trace.len() as int));
        lemma_outcomes_of_subrange(trace, 2, trace.len() as int);
        assert(reports.subrange(2, reports.len() as int) =~= later);
        assert forall|i: int| 0 <= i < messages.drop_first().len() implies messages.drop_first()[i]
            <= asked.capacity by {
            assert(messages.drop_first()[i] == messages[i + 1]);
        }
        lemma_drain_delivers_all(asked, rest2, messages.drop_first(), stop);
        assert(pump.run(trace) == staged.run(rest1));
        assert(staged.run(rest1) == asked.run(rest2));
        assert(staged.deliveries(rest1) == asked.deliveries(rest2));
        assert(pump.deliveries(trace) == seq![messages[0]] + staged.deliveries(rest1));
        assert(seq![messages[0]] + messages.drop_first() =~= messages);
    }
}

/// One arrival is delivered in full: a pump that waits for a datagram, taken
/// through one arrival that fits its staging buffer, asks for the delivery of
/// exactly the messages that the engine yields, in the engine's order, and
/// waits for the next datagram afterwards.
pub proof fn lemma_arrival_is_delivered(pump: InboundState, trace: Seq<Stimulus>, arrival: Arrival)
    requires
        pump.phase == InboundPhase::Receiving,
        arrival_fits(arrival, pump.capacity),
        outcomes_of(trace) == arrival_outcomes(arrival),
    ensures
        pump.run(trace).phase == InboundPhase::Receiving,
        pump.run(trace).capacity == pump.capacity,
        pump.deliveries(trace) == arrival.messages,
{
    let reports = arrival_outcomes(arrival);
    let drain = drain_outcomes(arrival.messages, arrival.stop);
    lemma_drain_outcomes_len(arrival.messages, arrival.stop);
    let n = trace.len() as int;
    assert(n == reports.len());
    assert(n == 5 + drain.len() + 1);
    assert(forall|i: int| 0 <= i < n ==> trace[i].outcome == outcomes_of(trace)[i]);
    let head = trace.subrange(0, 5);
    let middle = trace.subrange(5, n - 1);
    let last = trace.subrange(n - 1, n);
    assert(trace =~= head + (middle + last));

    // The five reports before the drain.
    let opening = seq![
        Outcome::Bytes(arrival.datagram),
        Outcome::Done,
        Outcome::Done,
        Outcome::Done,
        Outcome::Done,
    ];
    assert(reports == opening + drain + seq![Outcome::Done]);
    assert forall|i: int| 0 <= i < 5 implies head[i].outcome == opening[i] by {
        assert(head[i] == trace[i]);
        assert(reports[i] == opening[i]);
    }
    let flushed = pump.run(head);
    assert(flushed.phase == InboundPhase::Draining && flushed.capacity == pump.capacity
        && pump.deliveries(head) == Seq::<usize>::empty()) by {
        reveal_with_fuel(InboundState::run, 6);
        reveal_with_fuel(InboundState::deliveries, 6);
        let h1 = head.drop_first();
        let h2 = h1.drop_first();
        let h3 = h2.drop_first();
        let h4 = h3.drop_first();
        assert(h1[0] == head[1] && h2[0] == head[2] && h3[0] == head[3] && h4[0] == head[4]);
        assert(h4.drop_first().len() == 0);
    }

    // The drain.
    lemma_outcomes_of_subrange(trace, 5, n - 1);
    assert(reports.subrange(5, n - 1) =~= drain);
    lemma_drain_delivers_all(flushed, middle, arrival.messages, arrival.stop);
    let drained = flushed.run(middle);

    // The release.
    assert(last.len() == 1);
    assert(last[0].outcome == reports[n - 1]);
    assert(reports[n - 1] == Outcome::Done);
    assert(drained.run(last).phase == InboundPhase::Receiving && drained.run(last).capacity
        == pump.capacity && drained.deliveries(last) == Seq::<usize>::empty()) by {
        reveal_with_fuel(InboundState::run, 2);
        reveal_with_fuel(InboundState::deliveries, 2);
        assert(last.drop_first().len() == 0);
    }

    lemma_inbound_run_in_parts(flushed, middle, last);
    lemma_inbound_run_in_parts(pump, head, middle + last);
    assert(pump.deliveries(trace) =~= arrival.messages);
}

/// Drain completeness: a pump that waits for a datagram, taken through any
/// number of arrivals that fit its staging buffer, asks for the delivery of
/// exactly the messages that the engine yields over all of them, each once
/// and in the engine's order, and is never stopped by an engine that has
/// nothing ready or waits for a fragment.
pub proof fn lemma_arrivals_are_delivered(
    pump: InboundState,
    trace: Seq<Stimulus>,
    arrivals: Seq<Arrival>,
)
    requires
        pump.phase == InboundPhase::Receiving,
        forall|i: int|
            0 <= i < arrivals.len() ==> arrival_fits(#[trigger] arrivals[i], pump.capacity),
        outcomes_of(trace) == arrivals_outcomes(arrivals),
    ensures
        pump.run(trace).phase == InboundPhase::Receiving,
        pump.run(trace).capacity == pump.capacity,
        pump.deliveries(trace) == arrivals_messages(arrivals),
    decreases arrivals.len(),
{
    if arrivals.len() == 0 {
        assert(trace.len() == 0);
        assert(pump.deliveries(trace) =~= arrivals_messages(arrivals));
    } else {
        let first = arrival_outcomes(arrivals[0]);
        let others = arrivals_outcomes(arrivals.drop_first());
        let n = trace.len() as int;
        let k = first.len() as int;
        assert(outcomes_of(trace).len() == n);
        assert(n == k + others.len());
        let head = trace.subrange(0, k);
        let tail = trace.subrange(k, n);
        assert(trace =~= head + tail);
        lemma_outcomes_of_subrange(trace, 0, k);
        lemma_outcomes_of_subrange(trace, k, n);
        assert((first + others).subrange(0, k) =~= first);
        assert((first + others).subrange(k, n) =~= others);
        assert(arrival_fits(arrivals[0], pump.capacity));
        lemma_arrival_is_delivered(pump, head, arrivals[0]);
        let ready = pump.run(head);
        assert forall|i: int| 0 <= i < arrivals.drop_first().len() implies arrival_fits(
            #[trigger] arrivals.drop_first()[i],
            ready.capacity,
        ) by {
            assert(arrivals.drop_first()[i] == arrivals[i + 1]);
        }
        lemma_arrivals_are_delivered(ready, tail, arrivals.drop_first());
        lemma_inbound_run_in_parts(pump, head, tail);
    }
}

/// A stopped pump stays stopped: whatever is reported to a pump that has
/// stopped on a fault, it keeps asking for the halt on that same fault and asks
/// for no further delivery.
pub proof fn lemma_inbound_fault_is_final(pump: InboundState, trace: Seq<Stimulus>)
    requires
        pump.phase is Failed,
    ensures
        pump.run(trace) == pump,
        pump.deliveries(trace) == Seq::<usize>::empty(),
        pump.run(trace).pending() == Action::Halt(pump.phase->Failed_0),
    decreases trace.len(),
{
    if trace.len() > 0 {
        let after = pump.next(trace[0].outcome, trace[0].now);
        assert(after == pump);
        lemma_inbound_fault_is_final(pump, trace.drop_first());
    }
}

/// Fatal propagation: when the engine does not accept a staged datagram, the
/// pump stops on the fault of the input operation. This fault differs from the
/// one on which a failed receive stops the pump, its message differs too, and
/// nothing that is reported afterwards takes the pump out of it.
pub proof fn lemma_rejected_datagram_is_fatal(
    pump: InboundState,
    outcome: Outcome,
    now: u32,
    trace: Seq<Stimulus>,
)
    requires
        pump.phase is Feeding,
        outcome != Outcome::Done,
    ensures
        pump.next(outcome, now).phase == inbound_failure(Operation::Input),
        pump.next(outcome, now).run(trace).phase == inbound_failure(Operation::Input),
        pump.next(outcome, now).deliveries(trace) == Seq::<usize>::empty(),
        inbound_failure(Operation::Input) != inbound_failure(Operation::Receive),
        Operation::Input.failure_text() != Operation::Receive.failure_text(),
{
    lemma_inbound_fault_is_final(pump.next(outcome, now), trace);
    lemma_failure_texts_differ(Operation::Input, Operation::Receive);
}

/// The discipline of the session: the pump calls the engine only while it
/// holds the session, asks for the session only while it does not hold it,
/// gives back only what it holds, and holds nothing while it waits outside or
/// once it has stopped. A
/// well-formed pump names no bytes outside its staging buffer.
pub proof fn lemma_inbound_discipline(pump: InboundState)
    ensures
        pump.pending().is_engine_call() ==> pump.holds_session(),
        pump.pending() is Deliver ==> pump.holds_session(),
        pump.pending() is Release ==> pump.holds_session(),
        pump.pending() is Acquire ==> !pump.holds_session(),
        pump.pending().is_blocking_wait() ==> !pump.holds_session(),
        pump.pending() is Halt ==> !pump.holds_session(),
        pump.wf() ==> pump.pending().within(pump.capacity),
{
}

} // verus!
