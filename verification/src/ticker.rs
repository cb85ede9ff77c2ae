//! The ticker: at a fixed cadence it advances the engine's timers, whether or
//! not any data moves.

use crate::protocol::Action;
use crate::protocol::Fault;
use crate::protocol::Operation;
use crate::protocol::Outcome;
use crate::protocol::Role;
use crate::protocol::Stimulus;
use vstd::prelude::*;

verus! {

/// The cadence that suits an engine which wants its timers advanced every ten
/// to a hundred milliseconds.
pub const DEFAULT_INTERVAL_MILLIS: u64 = 100;

/// Where the ticker stands in its cycle.
#[derive(Clone, Copy, Debug, PartialEq, Eq, Structural)]
pub enum TickerPhase {
    /// Sleeping for one interval; the session is not held.
    Sleeping,
    /// The interval is over; waiting for the session.
    Acquiring,
    /// The session is held; the engine's timers are advanced to `now`.
    Updating { now: u32 },
    /// The session is given back.
    Releasing,
    /// The ticker has stopped on a fatal condition.
    Failed(Fault),
}

/// The ticker: its phase, and the length of its interval in milliseconds.
#[derive(Clone, Copy, Debug, PartialEq, Eq, Structural)]
pub struct TickerState {
    pub interval: u64,
    pub phase: TickerPhase,
}

/// The phase in which the ticker rests after `operation` has failed.
pub open spec fn ticker_failure(operation: Operation) -> TickerPhase {
    TickerPhase::Failed(Fault { role: Role::Ticker, operation })
}

fn stopped_by(operation: Operation) -> (phase: TickerPhase)
    ensures
        phase == ticker_failure(operation),
{
    TickerPhase::Failed(Fault { role: Role::Ticker, operation })
}

impl TickerState {
    /// The operation that the ticker waits for.
    pub open spec fn pending(&self) -> Action {
        match self.phase {
            TickerPhase::Sleeping => Action::Sleep { millis: self.interval },
            TickerPhase::Acquiring => Action::Acquire,
            TickerPhase::Updating { now } => Action::Update { now },
            TickerPhase::Releasing => Action::Release,
            TickerPhase::Failed(fault) => Action::Halt(fault),
        }
    }

    /// Whether the ticker has exclusive access to the session in this phase.
    pub open spec fn holds_session(&self) -> bool {
        self.phase is Updating || self.phase is Releasing
    }

    /// A stopped ticker names itself in its fault.
    pub open spec fn wf(&self) -> bool {
        self.phase matches TickerPhase::Failed(fault) ==> fault.role == Role::Ticker
    }

    /// The phase that follows when the pending operation ends in `outcome` and
    /// the clock reads `now`. A stopped ticker stays as it is. Otherwise
    /// success takes the ticker to the next phase of its round, and anything
    /// else is the failure of the pending operation.
    pub open spec fn next_phase(&self, outcome: Outcome, now: u32) -> TickerPhase {
        match (self.phase, outcome) {
            (TickerPhase::Failed(_), _) => self.phase,
            (TickerPhase::Sleeping, Outcome::Done) => TickerPhase::Acquiring,
            (TickerPhase::Acquiring, Outcome::Done) => TickerPhase::Updating { now },
            (TickerPhase::Updating { .. }, Outcome::Done) => TickerPhase::Releasing,
            (TickerPhase::Releasing, Outcome::Done) => TickerPhase::Sleeping,
            _ => ticker_failure(self.pending().operation().unwrap()),
        }
    }

    /// The ticker after one report.
    pub open spec fn next(&self, outcome: Outcome, now: u32) -> TickerState {
        TickerState { interval: self.interval, phase: self.next_phase(outcome, now) }
    }

    /// The ticker after a whole trace of reports.
    pub open spec fn run(&self, trace: Seq<Stimulus>) -> TickerState
        decreases trace.len(),
    {
        if trace.len() == 0 {
            *self
        } else {
            self.next(trace[0].outcome, trace[0].now).run(trace.drop_first())
        }
    }
}

/// The ticker as the caller holds it.
#[derive(Clone, Copy, Debug)]
pub struct Ticker {
    state: TickerState,
}

impl View for Ticker {
    type V = TickerState;

    closed spec fn view(&self) -> TickerState {
        self.state
    }
}

impl Ticker {
    #[verifier::type_invariant]
    spec fn well_formed(self) -> bool {
        self.state.wf()
    }

    /// A ticker with the given interval, about to sleep for the first time.
    pub fn new(interval: u64) -> (ticker: Ticker)
        ensures
            ticker@ == (TickerState { interval, phase: TickerPhase::Sleeping }),
    {
        Ticker { state: TickerState { interval, phase: TickerPhase::Sleeping } }
    }

    /// The length of the interval in milliseconds.
    pub fn interval(&self) -> (interval: u64)
        ensures
            interval == self@.interval,
    {
        self.state.interval
    }

    /// The phase in which the ticker stands.
    pub fn phase(&self) -> (phase: TickerPhase)
        ensures
            phase == self@.phase,
    {
        self.state.phase
    }

    /// Whether the ticker has exclusive access to the session in this phase.
    pub fn holds_session(&self) -> (held: bool)
        ensures
            held == self@.holds_session(),
    {
        match self.state.phase {
            TickerPhase::Updating { .. } => true,
            TickerPhase::Releasing => true,
            _ => false,
        }
    }

    /// The operation that the caller has to perform next.
    pub fn pending(&self) -> (request: Action)
        ensures
            request == self@.pending(),
            self@.wf(),
    {
        proof {
            use_type_invariant(self);
        }
        match self.state.phase {
            TickerPhase::Sleeping => Action::Sleep { millis: self.state.interval },
            TickerPhase::Acquiring => Action::Acquire,
            TickerPhase::Updating { now } => Action::Update { now },
            TickerPhase::Releasing => Action::Release,
            TickerPhase::Failed(fault) => Action::Halt(fault),
        }
    }

    /// Takes the outcome of the pending operation, with the clock's tick at
    /// this moment, and returns the operation to perform next.
    pub fn step(&mut self, outcome: Outcome, now: u32) -> (request: Action)
        ensures
            final(self)@ == old(self)@.next(outcome, now),
            request == final(self)@.pending(),
            final(self)@.wf(),
    {
        proof {
            use_type_invariant(&*self);
        }
        let phase = match self.state.phase {
            TickerPhase::Sleeping => match outcome {
                Outcome::Done => TickerPhase::Acquiring,
                _ => stopped_by(Operation::Sleep),
            },
            TickerPhase::Acquiring => match outcome {
                Outcome::Done => TickerPhase::Updating { now },
                _ => stopped_by(Operation::Acquire),
            },
            TickerPhase::Updating { .. } => match outcome {
                Outcome::Done => TickerPhase::Releasing,
                _ => stopped_by(Operation::Update),
            },
            TickerPhase::Releasing => match outcome {
                Outcome::Done => TickerPhase::Sleeping,
                _ => stopped_by(Operation::Release),
            },
            TickerPhase::Failed(fault) => TickerPhase::Failed(fault),
        };
        self.state = TickerState { interval: self.state.interval, phase };
        self.pending()
    }
}

/// One round of the ticker: from its sleep, four successes in a row take the
/// ticker through one update of the engine, to the tick that the clock showed
/// when the session was granted, and back to its sleep.
pub proof fn lemma_ticker_round(
    ticker: TickerState,
    slept: u32,
    granted: u32,
    updated: u32,
    released: u32,
)
    requires
        ticker.phase == TickerPhase::Sleeping,
    ensures
        ticker.next(Outcome::Done, slept).pending() == Action::Acquire,
        ticker.next(Outcome::Done, slept).next(Outcome::Done, granted).pending()
            == (Action::Update { now: granted }),
        ticker.next(Outcome::Done, slept).next(Outcome::Done, granted).next(
            Outcome::Done,
            updated,
        ).pending() == Action::Release,
        ticker.next(Outcome::Done, slept).next(Outcome::Done, granted).next(
            Outcome::Done,
            updated,
        ).next(Outcome::Done, released) == ticker,
{
}

/// A stopped ticker stays stopped, whatever is reported to it.
pub proof fn lemma_ticker_fault_is_final(ticker: TickerState, trace: Seq<Stimulus>)
    requires
        ticker.phase is Failed,
    ensures
        ticker.run(trace) == ticker,
    decreases trace.len(),
{
    if trace.len() > 0 {
        let after = ticker.next(trace[0].outcome, trace[0].now);
        assert(after == ticker);
        lemma_ticker_fault_is_final(ticker, trace.drop_first());
    }
}

/// Any failure stops the ticker: whatever its pending operation ends in, if it
/// is not success, the ticker rests on the fault of that operation.
pub proof fn lemma_ticker_failure_is_fatal(ticker: TickerState, outcome: Outcome, now: u32)
    requires
        !(ticker.phase is Failed),
        outcome != Outcome::Done,
    ensures
        ticker.next(outcome, now).phase == ticker_failure(ticker.pending().operation().unwrap()),
{
}

/// The discipline of the session: the ticker calls the engine only while it
/// holds the session, asks for the session only while it does not hold it,
/// gives back only what it holds, and holds nothing while it waits outside or
/// once it has stopped.
pub proof fn lemma_ticker_discipline(ticker: TickerState)
    ensures
        ticker.pending().is_engine_call() ==> ticker.holds_session(),
        ticker.pending() is Release ==> ticker.holds_session(),
        ticker.pending() is Acquire ==> !ticker.holds_session(),
        ticker.pending().is_blocking_wait() ==> !ticker.holds_session(),
        ticker.pending() is Halt ==> !ticker.holds_session(),
{
}

} // verus!
