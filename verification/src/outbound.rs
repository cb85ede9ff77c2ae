//! The outbound pump: bytes read from the local input are offered to the
//! engine until the engine has accepted every one of them.

use crate::protocol::lemma_outcomes_of_subrange;
use crate::protocol::outcomes_of;
use crate::protocol::Action;
use crate::protocol::Fault;
use crate::protocol::Operation;
use crate::protocol::Outcome;
use crate::protocol::Role;
use crate::protocol::Stimulus;
use vstd::prelude::*;

verus! {

/// Where the outbound pump stands. In the phases that carry them, `read` is the
/// length of the staged chunk and `sent` says how many of its bytes the engine
/// has accepted so far.
#[derive(Clone, Copy, Debug, PartialEq, Eq, Structural)]
pub enum OutboundPhase {
    /// Waiting for bytes from the local input; the session is not held.
    Reading,
    /// Bytes remain to be offered; waiting for the session.
    Acquiring { sent: usize, read: usize },
    /// The session is held; the remaining bytes are offered to the engine.
    Sending { sent: usize, read: usize },
    /// The engine's timers are advanced to `now`.
    Updating { sent: usize, read: usize, now: u32 },
    /// The engine writes out what it has queued.
    Flushing { sent: usize, read: usize },
    /// The session is given back before the next attempt or the next read.
    Releasing { sent: usize, read: usize },
    /// The local input has ended; the pump is done.
    Finished,
    /// The pump has stopped on a fatal condition.
    Failed(Fault),
}

/// The outbound pump: its phase, and the size of the staging buffer that the
/// caller keeps for it.
#[derive(Clone, Copy, Debug, PartialEq, Eq, Structural)]
pub struct OutboundState {
    pub capacity: usize,
    pub phase: OutboundPhase,
}

/// The phase in which the outbound pump rests after `operation` has failed.
pub open spec fn outbound_failure(operation: Operation) -> OutboundPhase {
    OutboundPhase::Failed(Fault { role: Role::Outbound, operation })
}

/// The bytes that the engine has accepted over a run of attempts, given how
/// many it accepted in each.
pub open spec fn accepted_total(accepts: Seq<usize>) -> int
    decreases accepts.len(),
{
    if accepts.len() == 0 {
        0
    } else {
        accepted_total(accepts.drop_last()) + accepts.last()
    }
}

/// The bytes that the engine has accepted before attempt `i`.
pub open spec fn accepted_before(accepts: Seq<usize>, i: int) -> int {
    accepted_total(accepts.take(i))
}

/// What the caller reports over one attempt in which the engine accepts
/// `accepted` bytes: the granted session, the accepted count, the update, the
/// flush, and the release.
pub open spec fn attempt_outcomes(accepted: usize) -> Seq<Outcome> {
    seq![Outcome::Done, Outcome::Bytes(accepted), Outcome::Done, Outcome::Done, Outcome::Done]
}

/// What the caller reports over a run of attempts, one after the other.
pub open spec fn attempts_outcomes(accepts: Seq<usize>) -> Seq<Outcome>
    decreases accepts.len(),
{
    if accepts.len() == 0 {
        seq![]
    } else {
        attempts_outcomes(accepts.drop_last()) + attempt_outcomes(accepts.last())
    }
}

/// What the caller reports for one chunk: the read of `read` bytes, then the
/// attempts.
pub open spec fn chunk_outcomes(read: usize, accepts: Seq<usize>) -> Seq<Outcome> {
    seq![Outcome::Bytes(read)] + attempts_outcomes(accepts)
}

/// The engine keeps to what it was offered: before each attempt bytes of the
/// chunk remain, and the attempt accepts no more than remain.
pub open spec fn increments_fit(read: usize, accepts: Seq<usize>) -> bool {
    forall|i: int|
        #![trigger accepts[i]]
        0 <= i < accepts.len() ==> accepted_before(accepts, i) < read && accepted_before(
            accepts,
            i,
        ) + accepts[i] <= read
}

/// The offers that a chunk of `read` bytes calls for: each starts where the
/// bytes accepted so far end, and reaches to the end of the chunk.
pub open spec fn offers_due(read: usize, accepts: Seq<usize>) -> Seq<(usize, usize)> {
    Seq::new(accepts.len(), |i: int| (accepted_before(accepts, i) as usize, read))
}

/// The bytes of `chunk` that the engine takes when attempt `i` is offered the
/// range `offers[i]` and accepts the first `accepts[i]` bytes of it, put
/// together in the order of the attempts.
pub open spec fn taken(chunk: Seq<u8>, offers: Seq<(usize, usize)>, accepts: Seq<usize>) -> Seq<u8>
    decreases accepts.len(),
{
    if accepts.len() == 0 {
        seq![]
    } else {
        taken(chunk, offers.drop_last(), accepts.drop_last()) + chunk.subrange(
            offers.last().0 as int,
            offers.last().0 + accepts.last(),
        )
    }
}

fn stopped_by(operation: Operation) -> (phase: OutboundPhase)
    ensures
        phase == outbound_failure(operation),
{
    OutboundPhase::Failed(Fault { role: Role::Outbound, operation })
}

impl OutboundState {
    /// The operation that the pump waits for.
    pub open spec fn pending(&self) -> Action {
        match self.phase {
            OutboundPhase::Reading => Action::Read,
            OutboundPhase::Acquiring { .. } => Action::Acquire,
            OutboundPhase::Sending { sent, read } => Action::Send { start: sent, end: read },
            OutboundPhase::Updating { now, .. } => Action::Update { now },
            OutboundPhase::Flushing { .. } => Action::Flush,
            OutboundPhase::Releasing { .. } => Action::Release,
            OutboundPhase::Finished => Action::Finish,
            OutboundPhase::Failed(fault) => Action::Halt(fault),
        }
    }

    /// Whether the pump has exclusive access to the session in this phase.
    pub open spec fn holds_session(&self) -> bool {
        match self.phase {
            OutboundPhase::Sending { .. } => true,
            OutboundPhase::Updating { .. } => true,
            OutboundPhase::Flushing { .. } => true,
            OutboundPhase::Releasing { .. } => true,
            _ => false,
        }
    }

    /// The accepted bytes are part of the chunk, the chunk fits the staging
    /// buffer, and the engine is only asked while bytes remain.
    pub open spec fn wf(&self) -> bool {
        match self.phase {
            OutboundPhase::Acquiring { sent, read } => sent < read <= self.capacity,
            OutboundPhase::Sending { sent, read } => sent < read <= self.capacity,
            OutboundPhase::Updating { sent, read, .. } => sent <= read <= self.capacity,
            OutboundPhase::Flushing { sent, read } => sent <= read <= self.capacity,
            OutboundPhase::Releasing { sent, read } => sent <= read <= self.capacity,
            OutboundPhase::Failed(fault) => fault.role == Role::Outbound,
            _ => true,
        }
    }

    /// The phase to which a success takes the pump: where the pending operation
    /// can end in `outcome`, the phase that follows when it does and the clock
    /// reads `now`. A read of more bytes than the staging buffer holds is no
    /// success, nor is an engine that accepts more than it was offered.
    pub open spec fn success(&self, outcome: Outcome, now: u32) -> Option<OutboundPhase> {
        match (self.phase, outcome) {
            (OutboundPhase::Reading, Outcome::Bytes(read)) => if read == 0 {
                Some(OutboundPhase::Finished)
            } else if read <= self.capacity {
                Some(OutboundPhase::Acquiring { sent: 0, read })
            } else {
                None
            },
            (OutboundPhase::Acquiring { sent, read }, Outcome::Done) => Some(
                OutboundPhase::Sending { sent, read },
            ),
            (OutboundPhase::Sending { sent, read }, Outcome::Bytes(accepted)) => if sent + accepted
                <= read {
                Some(OutboundPhase::Updating { sent: (sent + accepted) as usize, read, now })
            } else {
                None
            },
            (OutboundPhase::Updating { sent, read, .. }, Outcome::Done) => Some(
                OutboundPhase::Flushing { sent, read },
            ),
            (OutboundPhase::Flushing { sent, read }, Outcome::Done) => Some(
                OutboundPhase::Releasing { sent, read },
            ),
            (OutboundPhase::Releasing { sent, read }, Outcome::Done) => if sent == read {
                Some(OutboundPhase::Reading)
            } else {
                Some(OutboundPhase::Acquiring { sent, read })
            },
            _ => None,
        }
    }

    /// The phase that follows when the pending operation ends in `outcome` and
    /// the clock reads `now`. A pump that has ended or stopped stays as it is.
    /// Otherwise a success takes the pump on, and anything else is the failure
    /// of the pending operation.
    pub open spec fn next_phase(&self, outcome: Outcome, now: u32) -> OutboundPhase {
        if self.phase is Finished || self.phase is Failed {
            self.phase
        } else {
            match self.success(outcome, now) {
                Some(phase) => phase,
                None => outbound_failure(self.pending().operation().unwrap()),
            }
        }
    }

    /// The pump after one report.
    pub open spec fn next(&self, outcome: Outcome, now: u32) -> OutboundState {
        OutboundState { capacity: self.capacity, phase: self.next_phase(outcome, now) }
    }

    /// The pump after a whole trace of reports.
    pub open spec fn run(&self, trace: Seq<Stimulus>) -> OutboundState
        decreases trace.len(),
    {
        if trace.len() == 0 {
            *self
        } else {
            self.next(trace[0].outcome, trace[0].now).run(trace.drop_first())
        }
    }

    /// The ranges of staged bytes that the pump asks to have offered to the
    /// engine over a trace of reports, each as its start and its end, in the
    /// order in which it asks.
    pub open spec fn offers(&self, trace: Seq<Stimulus>) -> Seq<(usize, usize)>
        decreases trace.len(),
    {
        if trace.len() == 0 {
            seq![]
        } else {
            let after = self.next(trace[0].outcome, trace[0].now);
            let rest = after.offers(trace.drop_first());
            match after.phase {
                OutboundPhase::Sending { sent, read } => seq![(sent, read)] + rest,
                _ => rest,
            }
        }
    }
}

/// The outbound pump as the caller holds it. Its state can only be reached from
/// a fresh pump by reports, so it is well formed at all times.
#[derive(Clone, Copy, Debug)]
pub struct OutboundPump {
    state: OutboundState,
}

impl View for OutboundPump {
    type V = OutboundState;

    closed spec fn view(&self) -> OutboundState {
        self.state
    }
}

impl OutboundPump {
    #[verifier::type_invariant]
    spec fn well_formed(self) -> bool {
        self.state.wf()
    }

    /// A pump for a staging buffer of `capacity` bytes, waiting for its first
    /// chunk of local input.
    pub fn new(capacity: usize) -> (pump: OutboundPump)
        ensures
            pump@ == (OutboundState { capacity, phase: OutboundPhase::Reading }),
    {
        OutboundPump { state: OutboundState { capacity, phase: OutboundPhase::Reading } }
    }

    /// The size of the staging buffer that the pump was made for.
    pub fn capacity(&self) -> (capacity: usize)
        ensures
            capacity == self@.capacity,
    {
        self.state.capacity
    }

    /// The phase in which the pump stands.
    pub fn phase(&self) -> (phase: OutboundPhase)
        ensures
            phase == self@.phase,
    {
        self.state.phase
    }

    /// Whether the pump has exclusive access to the session in this phase.
    pub fn holds_session(&self) -> (held: bool)
        ensures
            held == self@.holds_session(),
    {
        match self.state.phase {
            OutboundPhase::Sending { .. } => true,
            OutboundPhase::Updating { .. } => true,
            OutboundPhase::Flushing { .. } => true,
            OutboundPhase::Releasing { .. } => true,
            _ => false,
        }
    }

    /// The operation that the caller has to perform next.
    pub fn pending(&self) -> (request: Action)
        ensures
            request == self@.pending(),
            request.within(self@.capacity),
            self@.wf(),
    {
        proof {
            use_type_invariant(self);
        }
        match self.state.phase {
            OutboundPhase::Reading => Action::Read,
            OutboundPhase::Acquiring { .. } => Action::Acquire,
            OutboundPhase::Sending { sent, read } => Action::Send { start: sent, end: read },
            OutboundPhase::Updating { now, .. } => Action::Update { now },
            OutboundPhase::Flushing { .. } => Action::Flush,
            OutboundPhase::Releasing { .. } => Action::Release,
            OutboundPhase::Finished => Action::Finish,
            OutboundPhase::Failed(fault) => Action::Halt(fault),
        }
    }

    /// Takes the outcome of the pending operation, with the clock's tick at
    /// this moment, and returns the operation to perform next.
    pub fn step(&mut self, outcome: Outcome, now: u32) -> (request: Action)
        ensures
            final(self)@ == old(self)@.next(outcome, now),
            request == final(self)@.pending(),
            request.within(final(self)@.capacity),
            final(self)@.wf(),
    {
        proof {
            use_type_invariant(&*self);
        }
        let phase = match self.state.phase {
            OutboundPhase::Reading => match outcome {
                Outcome::Bytes(read) => if read == 0 {
                    OutboundPhase::Finished
                } else if read <= self.state.capacity {
                    OutboundPhase::Acquiring { sent: 0, read }
                } else {
                    stopped_by(Operation::Read)
                },
                _ => stopped_by(Operation::Read),
            },
            OutboundPhase::Acquiring { sent, read } => match outcome {
                Outcome::Done => OutboundPhase::Sending { sent, read },
                _ => stopped_by(Operation::Acquire),
            },
            OutboundPhase::Sending { sent, read } => match outcome {
                Outcome::Bytes(accepted) => if sent <= read && accepted <= read - sent {
                    OutboundPhase::Updating { sent: sent + accepted, read, now }
                } else {
                    stopped_by(Operation::Send)
                },
                _ => stopped_by(Operation::Send),
            },
            OutboundPhase::Updating { sent, read, .. } => match outcome {
                Outcome::Done => OutboundPhase::Flushing { sent, read },
                _ => stopped_by(Operation::Update),
            },
            OutboundPhase::Flushing { sent, read } => match outcome {
                Outcome::Done => OutboundPhase::Releasing { sent, read },
                _ => stopped_by(Operation::Flush),
            },
            OutboundPhase::Releasing { sent, read } => match outcome {
                Outcome::Done => if sent == read {
                    OutboundPhase::Reading
                } else {
                    OutboundPhase::Acquiring { sent, read }
                },
                _ => stopped_by(Operation::Release),
            },
            OutboundPhase::Finished => OutboundPhase::Finished,
            OutboundPhase::Failed(fault) => OutboundPhase::Failed(fault),
        };
        self.state = OutboundState { capacity: self.state.capacity, phase };
        self.pending()
    }
}

/// A run of attempts takes five reports for each attempt.
proof fn lemma_attempts_outcomes_len(accepts: Seq<usize>)
    ensures
        attempts_outcomes(accepts).len() == 5 * accepts.len(),
    decreases accepts.len(),
{
    if accepts.len() > 0 {
        lemma_attempts_outcomes_len(accepts.drop_last());
    }
}

/// Running a trace in two parts is running the whole: the pump ends in the same
/// phase and asks for the same offers.
pub proof fn lemma_outbound_run_in_parts(
    pump: OutboundState,
    head: Seq<Stimulus>,
    tail: Seq<Stimulus>,
)
    ensures
        pump.run(head + tail) == pump.run(head).run(tail),
        pump.offers(head + tail) == pump.offers(head) + pump.run(head).offers(tail),
    decreases head.len(),
{
    if head.len() == 0 {
        assert(head + tail =~= tail);
        assert(pump.offers(head) + pump.run(head).offers(tail) =~= pump.offers(tail));
    } else {
        let whole = head + tail;
        let after = pump.next(head[0].outcome, head[0].now);
        assert(whole[0] == head[0]);
        assert(whole.drop_first() =~= head.drop_first() + tail);
        lemma_outbound_run_in_parts(after, head.drop_first(), tail);
        let rest = after.offers(head.drop_first()) + after.run(head.drop_first()).offers(tail);
        match after.phase {
            OutboundPhase::Sending { sent, read } => {
                assert(seq![(sent, read)] + rest =~= (seq![(sent, read)] + after.offers(
                    head.drop_first(),
                )) + after.run(head.drop_first()).offers(tail));
            },
            _ => {},
        }
    }
}

/// One attempt: a pump that waits for the session with `sent` of `read` bytes
/// accepted offers the bytes from `sent` to `read` once, adds what the engine
/// accepts, and gives the session back. It then waits for the next chunk if all
/// is accepted, and for the session again if not.
pub proof fn lemma_attempt(pump: OutboundState, trace: Seq<Stimulus>, accepted: usize)
    requires
        pump.phase is Acquiring,
        pump.phase->Acquiring_sent + accepted <= pump.phase->Acquiring_read,
        outcomes_of(trace) == attempt_outcomes(accepted),
    ensures
        pump.offers(trace) == seq![(pump.phase->Acquiring_sent, pump.phase->Acquiring_read)],
        pump.run(trace).capacity == pump.capacity,
        pump.run(trace).phase == (if pump.phase->Acquiring_sent + accepted
            == pump.phase->Acquiring_read {
            OutboundPhase::Reading
        } else {
            OutboundPhase::Acquiring {
                sent: (pump.phase->Acquiring_sent + accepted) as usize,
                read: pump.phase->Acquiring_read,
            }
        }),
{
    let reports = attempt_outcomes(accepted);
    assert(reports.len() == 5);
    assert(outcomes_of(trace).len() == trace.len());
    assert forall|i: int| 0 <= i < 5 implies trace[i].outcome == reports[i] by {
        assert(trace[i].outcome == outcomes_of(trace)[i]);
    }
    reveal_with_fuel(OutboundState::run, 6);
    reveal_with_fuel(OutboundState::offers, 6);
    let t1 = trace.drop_first();
    let t2 = t1.drop_first();
    let t3 = t2.drop_first();
    let t4 = t3.drop_first();
    assert(t1[0] == trace[1] && t2[0] == trace[2] && t3[0] == trace[3] && t4[0] == trace[4]);
    assert(t4.drop_first().len() == 0);
    assert(pump.offers(trace) =~= seq![(pump.phase->Acquiring_sent, pump.phase->Acquiring_read)]);
}

/// What holds of all attempts holds of all but the last, and the last attempt
/// starts where the earlier ones ended.
proof fn lemma_increments_fit_earlier(read: usize, accepts: Seq<usize>)
    requires
        increments_fit(read, accepts),
        accepts.len() > 0,
    ensures
        increments_fit(read, accepts.drop_last()),
        0 <= accepted_total(accepts.drop_last()) < read,
        accepted_total(accepts) <= read,
        offers_due(read, accepts) == offers_due(read, accepts.drop_last()).push(
            (accepted_total(accepts.drop_last()) as usize, read),
        ),
{
    let earlier = accepts.drop_last();
    let m = earlier.len() as int;
    assert(accepts.take(m) =~= earlier);
    assert(accepts[m] == accepts.last());
    assert(accepted_before(accepts, m) == accepted_total(earlier));
    lemma_accepted_total_is_not_negative(earlier);
    assert forall|i: int| 0 <= i < m implies accepted_before(accepts, i) == accepted_before(
        earlier,
        i,
    ) by {
        assert(accepts.take(i) =~= earlier.take(i));
    }
    assert forall|i: int| 0 <= i < earlier.len() implies accepted_before(earlier, i) < read
        && accepted_before(earlier, i) + #[trigger] earlier[i] <= read by {
        assert(earlier[i] == accepts[i]);
        assert(accepted_before(accepts, i) == accepted_before(earlier, i));
    }
    let longer = offers_due(read, earlier).push((accepted_total(earlier) as usize, read));
    assert(offers_due(read, accepts).len() == longer.len());
    assert forall|i: int| 0 <= i < longer.len() implies offers_due(read, accepts)[i]
        == longer[i] by {
        if i < m {
            assert(accepted_before(accepts, i) == accepted_before(earlier, i));
        }
    }
    assert(offers_due(read, accepts) =~= longer);
}

/// The attempts on one chunk: a pump that waits for the session with none of
/// `read` bytes accepted, taken through attempts in which the engine keeps to
/// what it was offered, makes exactly the offers that are due.
proof fn lemma_attempts(
    pump: OutboundState,
    trace: Seq<Stimulus>,
    read: usize,
    accepts: Seq<usize>,
)
    requires
        pump.phase == (OutboundPhase::Acquiring { sent: 0, read }),
        0 < read,
        increments_fit(read, accepts),
        outcomes_of(trace) == attempts_outcomes(accepts),
    ensures
        0 <= accepted_total(accepts) <= read,
        pump.offers(trace) == offers_due(read, accepts),
        pump.run(trace).capacity == pump.capacity,
        pump.run(trace).phase == (if accepted_total(accepts) == read {
            OutboundPhase::Reading
        } else {
            OutboundPhase::Acquiring { sent: accepted_total(accepts) as usize, read }
        }),
    decreases accepts.len(),
{
    if accepts.len() == 0 {
        assert(trace.len() == 0);
        assert(pump.offers(trace) =~= offers_due(read, accepts));
    } else {
        let earlier = accepts.drop_last();
        let m = earlier.len() as int;
        lemma_increments_fit_earlier(read, accepts);
        lemma_attempts_outcomes_len(accepts);
        lemma_attempts_outcomes_len(earlier);
        let n = trace.len() as int;
        let k = 5 * m;
        assert(outcomes_of(trace).len() == n);
        assert(n == k + 5);
        let head = trace.subrange(0, k);
        let tail = trace.subrange(k, n);
        assert(trace =~= head + tail);
        let before = attempts_outcomes(earlier);
        let this = attempt_outcomes(accepts.last());
        assert(outcomes_of(head) == before) by {
            lemma_outcomes_of_subrange(trace, 0, k);
            assert((before + this).subrange(0, k) =~= before);
        }
        assert(outcomes_of(tail) == this) by {
            lemma_outcomes_of_subrange(trace, k, n);
            assert((before + this).subrange(k, n) =~= this);
        }
        lemma_attempts(pump, head, read, earlier);
        let ready = pump.run(head);
        assert(ready.phase == (OutboundPhase::Acquiring {
            sent: accepted_total(earlier) as usize,
            read,
        }));
        lemma_attempt(ready, tail, accepts.last());
        lemma_outbound_run_in_parts(pump, head, tail);
        assert(pump.offers(head) + seq![(accepted_total(earlier) as usize, read)]
            =~= offers_due(read, earlier).push((accepted_total(earlier) as usize, read)));
    }
}

/// When each offer starts where the bytes accepted so far end, the bytes that
/// the engine takes are the first bytes of the chunk, as many as it has
/// accepted: none is left out and none is taken twice.
pub proof fn lemma_taken_is_a_prefix(
    chunk: Seq<u8>,
    offers: Seq<(usize, usize)>,
    accepts: Seq<usize>,
)
    requires
        offers.len() == accepts.len(),
        forall|i: int|
            0 <= i < accepts.len() ==> (#[trigger] offers[i]).0 == accepted_before(accepts, i),
        accepted_total(accepts) <= chunk.len(),
    ensures
        0 <= accepted_total(accepts),
        taken(chunk, offers, accepts) == chunk.subrange(0, accepted_total(accepts)),
    decreases accepts.len(),
{
    if accepts.len() == 0 {
        assert(taken(chunk, offers, accepts) =~= chunk.subrange(0, 0));
    } else {
        let earlier = accepts.drop_last();
        let m = earlier.len() as int;
        assert(accepts.take(m) =~= earlier);
        assert forall|i: int| 0 <= i < m implies (#[trigger] offers.drop_last()[i]).0
            == accepted_before(earlier, i) by {
            assert(accepts.take(i) =~= earlier.take(i));
            assert(offers.drop_last()[i] == offers[i]);
        }
        lemma_accepted_total_is_not_negative(earlier);
        lemma_taken_is_a_prefix(chunk, offers.drop_last(), earlier);
        assert(offers.last() == offers[m]);
        assert(offers.last().0 == accepted_total(earlier));
        assert(taken(chunk, offers, accepts) =~= chunk.subrange(0, accepted_total(accepts)));
    }
}

/// A count of accepted bytes is never negative.
proof fn lemma_accepted_total_is_not_negative(accepts: Seq<usize>)
    ensures
        0 <= accepted_total(accepts),
    decreases accepts.len(),
{
    if accepts.len() > 0 {
        lemma_accepted_total_is_not_negative(accepts.drop_last());
    }
}

/// Send completeness: a pump that waits for local input and reads a chunk of
/// `read` bytes offers it to the engine again and again, each time from where
/// the accepted bytes end up to the end of the chunk, whatever increments the
/// engine accepts. The bytes that the engine takes are the first bytes of the
/// chunk in their order. Once they are all of the chunk, and not before, the
/// pump waits for the next chunk.
pub proof fn lemma_chunk_is_sent_in_full(
    pump: OutboundState,
    trace: Seq<Stimulus>,
    read: usize,
    accepts: Seq<usize>,
    chunk: Seq<u8>,
)
    requires
        pump.phase == OutboundPhase::Reading,
        0 < read <= pump.capacity,
        chunk.len() == read,
        increments_fit(read, accepts),
        outcomes_of(trace) == chunk_outcomes(read, accepts),
    ensures
        0 <= accepted_total(accepts) <= read,
        pump.offers(trace) == offers_due(read, accepts),
        taken(chunk, pump.offers(trace), accepts) == chunk.subrange(0, accepted_total(accepts)),
        accepted_total(accepts) == read ==> taken(chunk, pump.offers(trace), accepts) == chunk,
        pump.run(trace).phase == OutboundPhase::Reading <==> accepted_total(accepts) == read,
        accepted_total(accepts) < read ==> pump.run(trace).phase == (OutboundPhase::Acquiring {
            sent: accepted_total(accepts) as usize,
            read,
        }),
{
    lemma_attempts_outcomes_len(accepts);
    let n = trace.len() as int;
    assert(outcomes_of(trace).len() == n);
    let head = trace.subrange(0, 1);
    let tail = trace.subrange(1, n);
    assert(trace =~= head + tail);
    lemma_outcomes_of_subrange(trace, 1, n);
    assert(chunk_outcomes(read, accepts).subrange(1, n) =~= attempts_outcomes(accepts));
    assert(head[0].outcome == outcomes_of(trace)[0]);
    assert(head[0].outcome == Outcome::Bytes(read));
    let staged = pump.next(head[0].outcome, head[0].now);
    assert(staged.phase == (OutboundPhase::Acquiring { sent: 0, read }));
    assert(staged.run(head.drop_first()) == staged);
    assert(pump.run(head) == staged.run(head.drop_first()));
    assert(staged.offers(head.drop_first()) =~= Seq::<(usize, usize)>::empty());
    assert(pump.offers(head) == staged.offers(head.drop_first()));
    lemma_attempts(staged, tail, read, accepts);
    lemma_outbound_run_in_parts(pump, head, tail);
    assert(pump.offers(trace) =~= offers_due(read, accepts));
    assert forall|i: int| 0 <= i < accepts.len() implies (#[trigger] offers_due(
        read,
        accepts,
    )[i]).0 == accepted_before(accepts, i) by {
        lemma_accepted_total_is_not_negative(accepts.take(i));
        assert(accepted_before(accepts, i) + accepts[i] <= read);
    }
    lemma_taken_is_a_prefix(chunk, offers_due(read, accepts), accepts);
    assert(chunk.subrange(0, read as int) =~= chunk);
}

/// A pump that has ended or stopped stays so: whatever is reported to it, its
/// state does not change and it asks for no further offer.
pub proof fn lemma_outbound_end_is_final(pump: OutboundState, trace: Seq<Stimulus>)
    requires
        pump.phase is Finished || pump.phase is Failed,
    ensures
        pump.run(trace) == pump,
        pump.offers(trace) == Seq::<(usize, usize)>::empty(),
    decreases trace.len(),
{
    if trace.len() > 0 {
        let after = pump.next(trace[0].outcome, trace[0].now);
        assert(after == pump);
        lemma_outbound_end_is_final(pump, trace.drop_first());
    }
}

/// Clean shutdown on end of input: a read of no bytes ends the pump. It asks
/// for the finish and for nothing else from then on, whatever is reported to
/// it: no session is taken, nothing is offered to the engine, and the end is
/// no fault.
pub proof fn lemma_end_of_input_ends_the_pump(pump: OutboundState, now: u32, trace: Seq<Stimulus>)
    requires
        pump.phase == OutboundPhase::Reading,
    ensures
        pump.next(Outcome::Bytes(0), now).phase == OutboundPhase::Finished,
        pump.next(Outcome::Bytes(0), now).run(trace).phase == OutboundPhase::Finished,
        pump.next(Outcome::Bytes(0), now).run(trace).pending() == Action::Finish,
        pump.next(Outcome::Bytes(0), now).offers(trace) == Seq::<(usize, usize)>::empty(),
{
    lemma_outbound_end_is_final(pump.next(Outcome::Bytes(0), now), trace);
}

/// The discipline of the session: the pump calls the engine only while it
/// holds the session, asks for the session only while it does not hold it,
/// gives back only what it holds, and holds nothing while it waits outside or
/// once it has stopped. A
/// well-formed pump names no bytes outside its staging buffer.
pub proof fn lemma_outbound_discipline(pump: OutboundState)
    ensures
        pump.pending().is_engine_call() ==> pump.holds_session(),
        pump.pending() is Release ==> pump.holds_session(),
        pump.pending() is Acquire ==> !pump.holds_session(),
        pump.pending().is_blocking_wait() ==> !pump.holds_session(),
        pump.pending() is Halt ==> !pump.holds_session(),
        pump.wf() ==> pump.pending().within(pump.capacity),
{
}

} // verus!
