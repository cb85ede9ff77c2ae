//! The session driver: the three roles and the guard between them, taken
//! together. It shows what the roles may do in any interleaving, and it runs
//! them on one thread where that is wanted.

use crate::clock::lemma_ticks_follow_time;
use crate::clock::tick_modulus;
use crate::clock::tick_of;
use crate::guard::SessionGuard;
use crate::inbound::InboundPhase;
use crate::inbound::InboundPump;
use crate::inbound::InboundState;
use crate::outbound::OutboundPhase;
use crate::outbound::OutboundPump;
use crate::outbound::OutboundState;
use crate::protocol::Action;
use crate::protocol::Fault;
use crate::protocol::Outcome;
use crate::protocol::Role;
use crate::ticker::Ticker;
use crate::ticker::TickerPhase;
use crate::ticker::TickerState;
use vstd::prelude::*;

verus! {

/// One report to the driver: which role's pending operation has ended, how it
/// ended, and the clock's tick at the moment of the report.
#[derive(Clone, Copy, Debug, PartialEq, Eq, Structural)]
pub struct Turn {
    pub role: Role,
    pub outcome: Outcome,
    pub now: u32,
}

/// How far the driver has come.
#[derive(Clone, Copy, Debug, PartialEq, Eq, Structural)]
pub enum Status {
    /// No role has stopped and the local input has not ended.
    Running,
    /// The local input has ended and the outbound pump is done; no role has
    /// stopped on a fault.
    InputEnded,
    /// A role has stopped on this fault, and with it the driver.
    Stopped(Fault),
}

/// The driver's state: the holder of the session, the three roles, and the
/// fault on which the driver has stopped, if it has.
pub struct DriverState {
    pub holder: Option<Role>,
    pub inbound: InboundState,
    pub outbound: OutboundState,
    pub ticker: TickerState,
    pub fault: Option<Fault>,
}

/// The ticks of a trace never go back.
pub open spec fn ticks_ordered(trace: Seq<Turn>) -> bool {
    forall|i: int, j: int| 0 <= i <= j < trace.len() ==> trace[i].now <= trace[j].now
}

/// The values of a sequence never go down.
pub open spec fn non_decreasing(values: Seq<u32>) -> bool {
    forall|i: int, j: int| 0 <= i <= j < values.len() ==> values[i] <= values[j]
}

impl DriverState {
    /// The driver before anything has been reported: nobody holds the
    /// session, and each role waits for its first operation.
    pub open spec fn fresh(
        inbound_capacity: usize,
        outbound_capacity: usize,
        interval: u64,
    ) -> DriverState {
        DriverState {
            holder: None,
            inbound: InboundState { capacity: inbound_capacity, phase: InboundPhase::Receiving },
            outbound: OutboundState { capacity: outbound_capacity, phase: OutboundPhase::Reading },
            ticker: TickerState { interval, phase: TickerPhase::Sleeping },
            fault: None,
        }
    }

    /// The operation that the role's own machine waits for.
    pub open spec fn role_pending(&self, role: Role) -> Action {
        match role {
            Role::Inbound => self.inbound.pending(),
            Role::Outbound => self.outbound.pending(),
            Role::Ticker => self.ticker.pending(),
        }
    }

    /// The operation that the role has to perform next. Once the driver has
    /// stopped on a fault, every role is told to halt on it.
    pub open spec fn pending(&self, role: Role) -> Action {
        match self.fault {
            Some(fault) => Action::Halt(fault),
            None => self.role_pending(role),
        }
    }

    /// Whether the role's machine is in a phase in which it holds the session.
    pub open spec fn holds(&self, role: Role) -> bool {
        match role {
            Role::Inbound => self.inbound.holds_session(),
            Role::Outbound => self.outbound.holds_session(),
            Role::Ticker => self.ticker.holds_session(),
        }
    }

    /// The fault on which the role's machine has stopped, if it has.
    pub open spec fn role_fault(&self, role: Role) -> Option<Fault> {
        match self.role_pending(role) {
            Action::Halt(fault) => Some(fault),
            _ => None,
        }
    }

    /// Whether the report says that the session was granted to a role while
    /// somebody holds it. Such a report is premature: the role keeps waiting.
    pub open spec fn must_wait(&self, role: Role, outcome: Outcome) -> bool {
        self.role_pending(role) is Acquire && outcome is Done && self.holder is Some
    }

    /// Whether the driver takes the report: it has not stopped, and the role
    /// does not have to wait.
    pub open spec fn accepts(&self, role: Role, outcome: Outcome) -> bool {
        self.fault is None && !self.must_wait(role, outcome)
    }

    /// The driver with the role's machine moved by one report, and nothing
    /// else changed.
    pub open spec fn moved(&self, role: Role, outcome: Outcome, now: u32) -> DriverState {
        match role {
            Role::Inbound => DriverState { inbound: self.inbound.next(outcome, now), ..*self },
            Role::Outbound => DriverState { outbound: self.outbound.next(outcome, now), ..*self },
            Role::Ticker => DriverState { ticker: self.ticker.next(outcome, now), ..*self },
        }
    }

    /// The driver after one report. A report that the driver does not take
    /// changes nothing. Otherwise the role's machine moves; the role holds the
    /// session exactly if its new phase is one that holds it; and if the
    /// machine has stopped on a fault, so has the driver.
    pub open spec fn next(&self, role: Role, outcome: Outcome, now: u32) -> DriverState {
        if !self.accepts(role, outcome) {
            *self
        } else {
            let moved = self.moved(role, outcome, now);
            DriverState {
                holder: if moved.holds(role) {
                    Some(role)
                } else if self.holder == Some(role) {
                    None
                } else {
                    self.holder
                },
                fault: moved.role_fault(role),
                ..moved
            }
        }
    }

    /// The driver after a whole trace of reports.
    pub open spec fn run(&self, trace: Seq<Turn>) -> DriverState
        decreases trace.len(),
    {
        if trace.len() == 0 {
            *self
        } else {
            self.next(trace[0].role, trace[0].outcome, trace[0].now).run(trace.drop_first())
        }
    }

    /// The ticks to which the roles ask to have the engine's timers advanced
    /// over a trace of reports, in the order in which they ask.
    pub open spec fn updates(&self, trace: Seq<Turn>) -> Seq<u32>
        decreases trace.len(),
    {
        if trace.len() == 0 {
            seq![]
        } else {
            let turn = trace[0];
            let after = self.next(turn.role, turn.outcome, turn.now);
            let rest = after.updates(trace.drop_first());
            if self.accepts(turn.role, turn.outcome) && after.pending(turn.role) is Update {
                seq![after.pending(turn.role)->now] + rest
            } else {
                rest
            }
        }
    }

    /// How far the driver has come.
    pub open spec fn status(&self) -> Status {
        match self.fault {
            Some(fault) => Status::Stopped(fault),
            None => if self.outbound.phase is Finished {
                Status::InputEnded
            } else {
                Status::Running
            },
        }
    }

    /// The roles are well formed; the holder of the session is the role whose
    /// phase holds it, and nobody if there is no such role; and the driver has
    /// stopped on a fault exactly if a role has stopped on it.
    pub open spec fn wf(&self) -> bool {
        &&& self.inbound.wf()
        &&& self.outbound.wf()
        &&& self.ticker.wf()
        &&& self.holds(Role::Inbound) <==> self.holder == Some(Role::Inbound)
        &&& self.holds(Role::Outbound) <==> self.holder == Some(Role::Outbound)
        &&& self.holds(Role::Ticker) <==> self.holder == Some(Role::Ticker)
        &&& self.role_fault(Role::Inbound) is Some ==> self.fault == self.role_fault(Role::Inbound)
        &&& self.role_fault(Role::Outbound) is Some ==> self.fault == self.role_fault(
            Role::Outbound,
        )
        &&& self.role_fault(Role::Ticker) is Some ==> self.fault == self.role_fault(Role::Ticker)
        &&& self.fault matches Some(fault) ==> self.role_fault(fault.role) == Some(fault)
    }
}

/// A fresh driver is well formed.
pub proof fn lemma_fresh_is_wf(inbound_capacity: usize, outbound_capacity: usize, interval: u64)
    ensures
        DriverState::fresh(inbound_capacity, outbound_capacity, interval).wf(),
{
}

/// A report keeps a well-formed driver well formed.
pub proof fn lemma_next_keeps_wf(driver: DriverState, role: Role, outcome: Outcome, now: u32)
    requires
        driver.wf(),
    ensures
        driver.next(role, outcome, now).wf(),
{
}

/// A trace of reports keeps a well-formed driver well formed.
pub proof fn lemma_run_keeps_wf(driver: DriverState, trace: Seq<Turn>)
    requires
        driver.wf(),
    ensures
        driver.run(trace).wf(),
    decreases trace.len(),
{
    if trace.len() > 0 {
        lemma_next_keeps_wf(driver, trace[0].role, trace[0].outcome, trace[0].now);
        lemma_run_keeps_wf(
            driver.next(trace[0].role, trace[0].outcome, trace[0].now),
            trace.drop_first(),
        );
    }
}

/// The roles do not interfere: a report that the driver takes moves the machine
/// of the role that it is for exactly as the report would move it alone, and
/// no report moves the machine of another role.
pub proof fn lemma_roles_do_not_interfere(
    driver: DriverState,
    role: Role,
    outcome: Outcome,
    now: u32,
)
    ensures
        driver.next(role, outcome, now).inbound == (if role == Role::Inbound && driver.accepts(
            role,
            outcome,
        ) {
            driver.inbound.next(outcome, now)
        } else {
            driver.inbound
        }),
        driver.next(role, outcome, now).outbound == (if role == Role::Outbound && driver.accepts(
            role,
            outcome,
        ) {
            driver.outbound.next(outcome, now)
        } else {
            driver.outbound
        }),
        driver.next(role, outcome, now).ticker == (if role == Role::Ticker && driver.accepts(
            role,
            outcome,
        ) {
            driver.ticker.next(outcome, now)
        } else {
            driver.ticker
        }),
{
}

/// In a well-formed driver a role that has a call into the engine pending holds
/// the session, a role that waits on the transport, on the local input or in
/// its sleep does not, and so no two roles have a call into the engine pending
/// at once.
pub proof fn lemma_engine_calls_exclude(driver: DriverState, one: Role, other: Role)
    requires
        driver.wf(),
    ensures
        driver.pending(one).is_engine_call() ==> driver.holder == Some(one),
        driver.pending(one).is_blocking_wait() ==> driver.holder != Some(one),
        one != other ==> !(driver.pending(one).is_engine_call() && driver.pending(
            other,
        ).is_engine_call()),
{
}

/// Mutual exclusion: start a driver afresh and report to it whatever, for
/// whichever role, in whatever order. At no point do two roles have a call
/// into the engine pending at once, and a role that has one pending holds the
/// session.
pub proof fn lemma_mutual_exclusion(
    inbound_capacity: usize,
    outbound_capacity: usize,
    interval: u64,
    trace: Seq<Turn>,
    one: Role,
    other: Role,
)
    requires
        one != other,
    ensures
        ({
            let reached = DriverState::fresh(inbound_capacity, outbound_capacity, interval).run(
                trace,
            );
            &&& !(reached.pending(one).is_engine_call() && reached.pending(other).is_engine_call())
            &&& reached.pending(one).is_engine_call() ==> reached.holder == Some(one)
        }),
{
    let fresh = DriverState::fresh(inbound_capacity, outbound_capacity, interval);
    lemma_fresh_is_wf(inbound_capacity, outbound_capacity, interval);
    lemma_run_keeps_wf(fresh, trace);
    lemma_engine_calls_exclude(fresh.run(trace), one, other);
}

/// An update carries the tick of the report that brought it: when a report is
/// taken and the role then asks for an update, it asks for one to the tick
/// that came with the report.
pub proof fn lemma_update_carries_tick(driver: DriverState, role: Role, outcome: Outcome, now: u32)
    requires
        driver.accepts(role, outcome),
        driver.next(role, outcome, now).pending(role) is Update,
    ensures
        driver.next(role, outcome, now).pending(role) == (Action::Update { now }),
{
}

/// Over a trace whose ticks never go back, the updates that the roles ask for
/// never go back either, and none is earlier than the first tick of the trace.
pub proof fn lemma_updates_are_ordered(driver: DriverState, trace: Seq<Turn>)
    requires
        ticks_ordered(trace),
    ensures
        non_decreasing(driver.updates(trace)),
        forall|k: int|
            0 <= k < driver.updates(trace).len() ==> trace.len() > 0 && trace[0].now
                <= #[trigger] driver.updates(trace)[k],
    decreases trace.len(),
{
    if trace.len() > 0 {
        let turn = trace[0];
        let after = driver.next(turn.role, turn.outcome, turn.now);
        let later = trace.drop_first();
        assert forall|i: int, j: int| 0 <= i <= j < later.len() implies later[i].now
            <= later[j].now by {
            assert(later[i] == trace[i + 1] && later[j] == trace[j + 1]);
        }
        lemma_updates_are_ordered(after, later);
        let rest = after.updates(later);
        assert forall|k: int| 0 <= k < rest.len() implies turn.now <= #[trigger] rest[k] by {
            assert(later[0] == trace[1]);
        }
        if driver.accepts(turn.role, turn.outcome) && after.pending(turn.role) is Update {
            lemma_update_carries_tick(driver, turn.role, turn.outcome, turn.now);
            let all = driver.updates(trace);
            assert(all == seq![turn.now] + rest);
            assert forall|i: int, j: int| 0 <= i <= j < all.len() implies all[i] <= all[j] by {
                if i > 0 {
                    assert(all[i] == rest[i - 1] && all[j] == rest[j - 1]);
                } else if j > 0 {
                    assert(all[j] == rest[j - 1]);
                }
            }
            assert forall|k: int| 0 <= k < all.len() implies turn.now <= #[trigger] all[k] by {
                if k > 0 {
                    assert(all[k] == rest[k - 1]);
                }
            }
        }
    }
}

/// Clock monotonicity: let every report carry the tick of a reading of one
/// monotonic clock, the readings taken in the order of the reports, and let
/// the clock not have wrapped around. Then the ticks to which the three roles
/// ask to have the engine's timers advanced never go back, whatever the
/// interleaving of the roles.
pub proof fn lemma_updates_follow_the_clock(
    driver: DriverState,
    trace: Seq<Turn>,
    readings: Seq<u128>,
)
    requires
        readings.len() == trace.len(),
        forall|i: int| 0 <= i < trace.len() ==> (#[trigger] trace[i]).now == tick_of(readings[i]),
        forall|i: int, j: int| 0 <= i <= j < readings.len() ==> readings[i] <= readings[j],
        forall|i: int| 0 <= i < readings.len() ==> readings[i] < tick_modulus(),
    ensures
        non_decreasing(driver.updates(trace)),
{
    assert forall|i: int, j: int| 0 <= i <= j < trace.len() implies trace[i].now
        <= trace[j].now by {
        lemma_ticks_follow_time(readings[i], readings[j]);
    }
    lemma_updates_are_ordered(driver, trace);
}

/// Fatal propagation across the roles: once the driver has stopped on a fault,
/// no report changes it, every role is told to halt on that fault, and no
/// further update is asked for.
pub proof fn lemma_fault_stops_every_role(driver: DriverState, trace: Seq<Turn>, role: Role)
    requires
        driver.fault is Some,
    ensures
        driver.run(trace) == driver,
        driver.run(trace).pending(role) == Action::Halt(driver.fault.unwrap()),
        driver.run(trace).status() == Status::Stopped(driver.fault.unwrap()),
        driver.updates(trace) == Seq::<u32>::empty(),
    decreases trace.len(),
{
    if trace.len() > 0 {
        assert(driver.next(trace[0].role, trace[0].outcome, trace[0].now) == driver);
        lemma_fault_stops_every_role(driver, trace.drop_first(), role);
    }
}

/// The driver as a caller holds it who runs the roles by turns. Its state can
/// only be reached from a fresh driver by reports, so it is well formed at all
/// times.
#[derive(Clone, Copy, Debug)]
pub struct SessionDriver {
    guard: SessionGuard,
    inbound: InboundPump,
    outbound: OutboundPump,
    ticker: Ticker,
    fault: Option<Fault>,
}

impl View for SessionDriver {
    type V = DriverState;

    closed spec fn view(&self) -> DriverState {
        DriverState {
            holder: self.guard@,
            inbound: self.inbound@,
            outbound: self.outbound@,
            ticker: self.ticker@,
            fault: self.fault,
        }
    }
}

impl SessionDriver {
    #[verifier::type_invariant]
    spec fn well_formed(self) -> bool {
        self@.wf()
    }

    /// A driver for staging buffers of the given sizes and a ticker of the
    /// given interval in milliseconds, before anything has been reported.
    pub fn new(inbound_capacity: usize, outbound_capacity: usize, interval: u64) -> (driver:
        SessionDriver)
        ensures
            driver@ == DriverState::fresh(inbound_capacity, outbound_capacity, interval),
    {
        SessionDriver {
            guard: SessionGuard::new(),
            inbound: InboundPump::new(inbound_capacity),
            outbound: OutboundPump::new(outbound_capacity),
            ticker: Ticker::new(interval),
            fault: None,
        }
    }

    /// The role that holds the session, if one does.
    pub fn holder(&self) -> (holder: Option<Role>)
        ensures
            holder == self@.holder,
    {
        self.guard.holder()
    }

    /// The fault on which the driver has stopped, if it has.
    pub fn fault(&self) -> (fault: Option<Fault>)
        ensures
            fault == self@.fault,
    {
        self.fault
    }

    /// How far the driver has come.
    pub fn status(&self) -> (status: Status)
        ensures
            status == self@.status(),
    {
        match self.fault {
            Some(fault) => Status::Stopped(fault),
            None => match self.outbound.phase() {
                OutboundPhase::Finished => Status::InputEnded,
                _ => Status::Running,
            },
        }
    }

    fn role_pending(&self, role: Role) -> (request: Action)
        ensures
            request == self@.role_pending(role),
    {
        match role {
            Role::Inbound => self.inbound.pending(),
            Role::Outbound => self.outbound.pending(),
            Role::Ticker => self.ticker.pending(),
        }
    }

    /// The operation that the role has to perform next.
    pub fn pending(&self, role: Role) -> (request: Action)
        ensures
            request == self@.pending(role),
            self@.wf(),
    {
        proof {
            use_type_invariant(self);
        }
        match self.fault {
            Some(fault) => Action::Halt(fault),
            None => self.role_pending(role),
        }
    }

    /// Takes the outcome of the role's pending operation, with the clock's
    /// tick at this moment, and returns the operation that the role has to
    /// perform next. A stopped driver takes no report, and a role that is
    /// reported to have the session while another holds it keeps waiting.
    pub fn step(&mut self, role: Role, outcome: Outcome, now: u32) -> (request: Action)
        ensures
            final(self)@ == old(self)@.next(role, outcome, now),
            request == final(self)@.pending(role),
            final(self)@.wf(),
    {
        proof {
            use_type_invariant(&*self);
        }
        if let Some(fault) = self.fault {
            return Action::Halt(fault);
        }
        let mut guard = self.guard;
        let mut inbound = self.inbound;
        let mut outbound = self.outbound;
        let mut ticker = self.ticker;
        let granted = match (self.role_pending(role), outcome) {
            (Action::Acquire, Outcome::Done) => true,
            _ => false,
        };
        if granted {
            let free = guard.try_acquire(role);
            if !free {
                return Action::Acquire;
            }
        }
        let request = match role {
            Role::Inbound => inbound.step(outcome, now),
            Role::Outbound => outbound.step(outcome, now),
            Role::Ticker => ticker.step(outcome, now),
        };
        let holds = match role {
            Role::Inbound => inbound.holds_session(),
            Role::Outbound => outbound.holds_session(),
            Role::Ticker => ticker.holds_session(),
        };
        if !holds {
            let _ = guard.release(role);
        }
        let fault = match request {
            Action::Halt(fault) => Some(fault),
            _ => None,
        };
        proof {
            let before = old(self)@;
            let after = DriverState {
                holder: guard@,
                inbound: inbound@,
                outbound: outbound@,
                ticker: ticker@,
                fault,
            };
            assert(before.accepts(role, outcome));
            assert(after == before.next(role, outcome, now));
            lemma_next_keeps_wf(before, role, outcome, now);
        }
        *self = SessionDriver { guard, inbound, outbound, ticker, fault };
        request
    }
}

} // verus!
