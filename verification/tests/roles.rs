use session_driver::driver::SessionDriver;
use session_driver::driver::Status;
use session_driver::guard::SessionGuard;
use session_driver::inbound::InboundPhase;
use session_driver::inbound::InboundPump;
use session_driver::outbound::OutboundPhase;
use session_driver::outbound::OutboundPump;
use session_driver::protocol::Action;
use session_driver::protocol::Fault;
use session_driver::protocol::Operation;
use session_driver::protocol::Outcome;
use session_driver::protocol::Role;
use session_driver::protocol::STAGING_CAPACITY;
use session_driver::ticker::Ticker;
use session_driver::ticker::TickerPhase;
use session_driver::ticker::DEFAULT_INTERVAL_MILLIS;
use std::collections::VecDeque;

/// A stand-in for the engine. A datagram is one marker byte and a payload: the
/// marker 1 says that more of the message follows, the marker 0 that the
/// message ends here. Anything else is malformed. The engine notes every call
/// and whether two calls ever overlapped.
struct FakeEngine {
    ready: VecDeque<Vec<u8>>,
    partial: Vec<u8>,
    accepted: Vec<u8>,
    offered: Vec<usize>,
    windows: VecDeque<usize>,
    updates: Vec<u32>,
    flushes: usize,
    calls: Vec<Operation>,
    in_call: bool,
    overlapped: bool,
}

impl FakeEngine {
    fn new() -> FakeEngine {
        FakeEngine {
            ready: VecDeque::new(),
            partial: Vec::new(),
            accepted: Vec::new(),
            offered: Vec::new(),
            windows: VecDeque::new(),
            updates: Vec::new(),
            flushes: 0,
            calls: Vec::new(),
            in_call: false,
            overlapped: false,
        }
    }

    fn enter(&mut self) {
        if self.in_call {
            self.overlapped = true;
        }
        self.in_call = true;
    }

    fn leave(&mut self) {
        self.in_call = false;
    }

    fn input(&mut self, datagram: &[u8]) -> Outcome {
        self.calls.push(Operation::Input);
        match datagram.first() {
            Some(0) => {
                self.partial.extend_from_slice(&datagram[1..]);
                let message = std::mem::take(&mut self.partial);
                self.ready.push_back(message);
                Outcome::Done
            }
            Some(1) => {
                self.partial.extend_from_slice(&datagram[1..]);
                Outcome::Done
            }
            _ => Outcome::Failed,
        }
    }

    fn recv(&mut self, buffer: &mut [u8]) -> Outcome {
        self.calls.push(Operation::Recv);
        match self.ready.pop_front() {
            Some(message) => {
                if message.len() > buffer.len() {
                    return Outcome::Failed;
                }
                buffer[..message.len()].copy_from_slice(&message);
                Outcome::Bytes(message.len())
            }
            None => {
                if self.partial.is_empty() {
                    Outcome::QueueEmpty
                } else {
                    Outcome::ExpectingFragment
                }
            }
        }
    }

    fn send(&mut self, data: &[u8]) -> Outcome {
        self.calls.push(Operation::Send);
        self.offered.push(data.len());
        let window = self.windows.pop_front().unwrap_or(data.len());
        let count = window.min(data.len());
        self.accepted.extend_from_slice(&data[..count]);
        Outcome::Bytes(count)
    }

    fn update(&mut self, now: u32) -> Outcome {
        self.calls.push(Operation::Update);
        self.updates.push(now);
        Outcome::Done
    }

    fn flush(&mut self) -> Outcome {
        self.calls.push(Operation::Flush);
        self.flushes += 1;
        Outcome::Done
    }
}

/// What stands around one role in a test: the engine, the network, the local
/// input and output, and the role's staging buffer.
struct Bench {
    engine: FakeEngine,
    network: VecDeque<Vec<u8>>,
    input: VecDeque<Vec<u8>>,
    output: Vec<u8>,
    delivered: Vec<Vec<u8>>,
    staging: Vec<u8>,
    requests: Vec<Action>,
    slept: u64,
}

impl Bench {
    fn new(capacity: usize) -> Bench {
        Bench {
            engine: FakeEngine::new(),
            network: VecDeque::new(),
            input: VecDeque::new(),
            output: Vec::new(),
            delivered: Vec::new(),
            staging: vec![0; capacity],
            requests: Vec::new(),
            slept: 0,
        }
    }

    /// Performs one operation as the surrounding program would. `None` says
    /// that the operation would block for good, or that the role is over.
    fn perform(&mut self, action: Action) -> Option<Outcome> {
        self.requests.push(action);
        match action {
            Action::Receive => {
                let datagram = self.network.pop_front()?;
                self.staging[..datagram.len()].copy_from_slice(&datagram);
                Some(Outcome::Bytes(datagram.len()))
            }
            Action::Read => match self.input.pop_front() {
                Some(chunk) => {
                    self.staging[..chunk.len()].copy_from_slice(&chunk);
                    Some(Outcome::Bytes(chunk.len()))
                }
                None => Some(Outcome::Bytes(0)),
            },
            Action::Sleep { millis } => {
                self.slept += millis;
                Some(Outcome::Done)
            }
            Action::Acquire => Some(Outcome::Done),
            Action::Release => Some(Outcome::Done),
            Action::Input { .. } => Some(self.engine.input(action.bytes(&self.staging).unwrap())),
            Action::Send { .. } => Some(self.engine.send(action.bytes(&self.staging).unwrap())),
            Action::Update { now } => Some(self.engine.update(now)),
            Action::Flush => Some(self.engine.flush()),
            Action::Recv => Some(self.engine.recv(&mut self.staging)),
            Action::Deliver { .. } => {
                let message = action.bytes(&self.staging).unwrap();
                self.output.extend_from_slice(message);
                self.delivered.push(message.to_vec());
                Some(Outcome::Done)
            }
            Action::Finish => None,
            Action::Halt(_) => None,
        }
    }
}

fn fragment(more: bool, payload: &[u8]) -> Vec<u8> {
    let mut datagram = vec![if more { 1 } else { 0 }];
    datagram.extend_from_slice(payload);
    datagram
}

fn pattern(len: usize, seed: u8) -> Vec<u8> {
    (0..len).map(|i| (i as u8).wrapping_mul(31).wrapping_add(seed)).collect()
}

fn run_inbound(pump: &mut InboundPump, bench: &mut Bench) {
    let mut now = 0;
    while let Some(outcome) = bench.perform(pump.pending()) {
        now += 1;
        pump.step(outcome, now);
    }
}

fn run_outbound(pump: &mut OutboundPump, bench: &mut Bench) {
    let mut now = 0;
    while let Some(outcome) = bench.perform(pump.pending()) {
        now += 1;
        pump.step(outcome, now);
    }
}

fn inbound_fault(operation: Operation) -> Fault {
    Fault { role: Role::Inbound, operation }
}

fn outbound_fault(operation: Operation) -> Fault {
    Fault { role: Role::Outbound, operation }
}

fn ticker_fault(operation: Operation) -> Fault {
    Fault { role: Role::Ticker, operation }
}

// ---------------------------------------------------------------- inbound

#[test]
fn inbound_starts_by_waiting_for_a_datagram() {
    let pump = InboundPump::new(STAGING_CAPACITY);
    assert_eq!(pump.capacity(), 0x20000);
    assert_eq!(pump.phase(), InboundPhase::Receiving);
    assert_eq!(pump.pending(), Action::Receive);
    assert!(!pump.holds_session());
}

#[test]
fn inbound_feeds_updates_flushes_and_drains_under_one_acquisition() {
    let mut pump = InboundPump::new(64);
    assert_eq!(pump.step(Outcome::Bytes(24), 5), Action::Acquire);
    assert!(!pump.holds_session());
    assert_eq!(pump.step(Outcome::Done, 6), Action::Input { len: 24 });
    assert!(pump.holds_session());
    assert_eq!(pump.step(Outcome::Done, 7), Action::Update { now: 7 });
    assert_eq!(pump.step(Outcome::Done, 8), Action::Flush);
    assert_eq!(pump.step(Outcome::Done, 9), Action::Recv);
    assert_eq!(pump.step(Outcome::Bytes(10), 10), Action::Deliver { len: 10 });
    assert!(pump.holds_session());
    assert_eq!(pump.step(Outcome::Done, 11), Action::Recv);
    assert_eq!(pump.step(Outcome::QueueEmpty, 12), Action::Release);
    assert!(pump.holds_session());
    assert_eq!(pump.step(Outcome::Done, 13), Action::Receive);
    assert!(!pump.holds_session());
    assert_eq!(pump.phase(), InboundPhase::Receiving);
}

#[test]
fn inbound_two_datagrams_reassemble_one_message() {
    let message = pattern(500, 7);
    let mut bench = Bench::new(STAGING_CAPACITY);
    bench.network.push_back(fragment(true, &message[..200]));
    bench.network.push_back(fragment(false, &message[200..]));
    let mut pump = InboundPump::new(STAGING_CAPACITY);
    run_inbound(&mut pump, &mut bench);

    assert_eq!(bench.output.len(), 500);
    assert_eq!(bench.output, message);
    assert_eq!(bench.delivered.len(), 1);
    // The engine has nothing more, the drain has ended, and the pump waits.
    assert_eq!(bench.engine.recv(&mut bench.staging), Outcome::QueueEmpty);
    assert_eq!(pump.phase(), InboundPhase::Receiving);
    assert_eq!(bench.output.len(), 500);
    let deliveries = bench.requests.iter().filter(|a| matches!(a, Action::Deliver { .. })).count();
    assert_eq!(deliveries, 1);
}

#[test]
fn inbound_first_fragment_alone_delivers_nothing() {
    let mut bench = Bench::new(1024);
    bench.network.push_back(fragment(true, &pattern(200, 1)));
    let mut pump = InboundPump::new(1024);
    run_inbound(&mut pump, &mut bench);
    assert!(bench.output.is_empty());
    assert_eq!(pump.phase(), InboundPhase::Receiving);
    assert_eq!(
        bench.requests,
        vec![
            Action::Receive,
            Action::Acquire,
            Action::Input { len: 201 },
            Action::Update { now: 3 },
            Action::Flush,
            Action::Recv,
            Action::Release,
            Action::Receive,
        ]
    );
}

#[test]
fn inbound_delivers_every_ready_message_in_the_engines_order() {
    let first = pattern(17, 1);
    let second = pattern(300, 2);
    let third = pattern(1, 3);
    let mut bench = Bench::new(4096);
    // Two messages are ready before the first arrival is drained.
    bench.engine.ready.push_back(first.clone());
    bench.engine.ready.push_back(second.clone());
    bench.network.push_back(fragment(false, &third));
    bench.network.push_back(fragment(true, &pattern(5, 4)));
    let mut pump = InboundPump::new(4096);
    run_inbound(&mut pump, &mut bench);

    assert_eq!(bench.delivered, vec![first, second, third]);
    assert_eq!(pump.phase(), InboundPhase::Receiving);
    assert_eq!(bench.engine.updates, vec![3, 16]);
    assert_eq!(bench.engine.flushes, 2);
}

#[test]
fn inbound_queue_empty_and_expecting_fragment_end_the_drain() {
    for stop in [Outcome::QueueEmpty, Outcome::ExpectingFragment] {
        let mut pump = InboundPump::new(64);
        pump.step(Outcome::Bytes(8), 0);
        pump.step(Outcome::Done, 0);
        pump.step(Outcome::Done, 0);
        pump.step(Outcome::Done, 0);
        assert_eq!(pump.step(Outcome::Done, 0), Action::Recv);
        assert_eq!(pump.step(stop, 0), Action::Release);
        assert_eq!(pump.step(Outcome::Done, 0), Action::Receive);
    }
}

#[test]
fn inbound_rejected_datagram_is_fatal() {
    let mut bench = Bench::new(64);
    bench.network.push_back(vec![9, 9, 9]);
    bench.network.push_back(fragment(false, b"later"));
    let mut pump = InboundPump::new(64);
    run_inbound(&mut pump, &mut bench);

    let fault = inbound_fault(Operation::Input);
    assert_eq!(pump.phase(), InboundPhase::Failed(fault));
    assert_eq!(pump.pending(), Action::Halt(fault));
    assert!(!pump.holds_session());
    assert!(bench.output.is_empty());
    assert_eq!(bench.network.len(), 1);
    assert_eq!(bench.engine.calls, vec![Operation::Input]);
    assert_eq!(fault.message(), "invalid kcp packet received");
}

#[test]
fn inbound_receive_failure_is_fatal_and_told_apart_from_a_rejected_datagram() {
    let mut unread = InboundPump::new(64);
    assert_eq!(
        unread.step(Outcome::Failed, 0),
        Action::Halt(inbound_fault(Operation::Receive))
    );
    let mut rejected = InboundPump::new(64);
    rejected.step(Outcome::Bytes(3), 0);
    rejected.step(Outcome::Done, 0);
    assert_eq!(
        rejected.step(Outcome::Failed, 0),
        Action::Halt(inbound_fault(Operation::Input))
    );
    assert_ne!(unread.phase(), rejected.phase());
    assert_ne!(unread.pending(), rejected.pending());
    assert_ne!(
        inbound_fault(Operation::Receive).message(),
        inbound_fault(Operation::Input).message()
    );
}

#[test]
fn inbound_stays_stopped() {
    let mut pump = InboundPump::new(64);
    pump.step(Outcome::Failed, 0);
    let fault = inbound_fault(Operation::Receive);
    for outcome in [
        Outcome::Done,
        Outcome::Bytes(1),
        Outcome::QueueEmpty,
        Outcome::ExpectingFragment,
        Outcome::Failed,
    ] {
        assert_eq!(pump.step(outcome, 4), Action::Halt(fault));
        assert_eq!(pump.phase(), InboundPhase::Failed(fault));
    }
}

#[test]
fn inbound_names_the_operation_that_failed() {
    let steps = [
        (Operation::Receive, 0),
        (Operation::Acquire, 1),
        (Operation::Input, 2),
        (Operation::Update, 3),
        (Operation::Flush, 4),
        (Operation::Recv, 5),
        (Operation::Deliver, 6),
    ];
    for (operation, successes) in steps {
        let mut pump = InboundPump::new(64);
        let script = [
            Outcome::Bytes(8),
            Outcome::Done,
            Outcome::Done,
            Outcome::Done,
            Outcome::Done,
            Outcome::Bytes(4),
        ];
        for outcome in script.iter().take(successes) {
            pump.step(*outcome, 0);
        }
        assert_eq!(pump.step(Outcome::Failed, 0), Action::Halt(inbound_fault(operation)));
    }
    let mut pump = InboundPump::new(64);
    for outcome in [
        Outcome::Bytes(8),
        Outcome::Done,
        Outcome::Done,
        Outcome::Done,
        Outcome::Done,
        Outcome::QueueEmpty,
    ] {
        pump.step(outcome, 0);
    }
    assert_eq!(pump.step(Outcome::Failed, 0), Action::Halt(inbound_fault(Operation::Release)));
}

#[test]
fn inbound_counts_beyond_the_staging_buffer_are_failures() {
    let mut pump = InboundPump::new(16);
    assert_eq!(pump.step(Outcome::Bytes(17), 0), Action::Halt(inbound_fault(Operation::Receive)));

    let mut pump = InboundPump::new(16);
    assert_eq!(pump.step(Outcome::Bytes(16), 0), Action::Acquire);
    pump.step(Outcome::Done, 0);
    pump.step(Outcome::Done, 0);
    pump.step(Outcome::Done, 0);
    pump.step(Outcome::Done, 0);
    assert_eq!(pump.step(Outcome::Bytes(17), 0), Action::Halt(inbound_fault(Operation::Recv)));
}

#[test]
fn inbound_outcomes_of_the_wrong_kind_are_failures() {
    let mut pump = InboundPump::new(16);
    assert_eq!(pump.step(Outcome::Done, 0), Action::Halt(inbound_fault(Operation::Receive)));

    let mut pump = InboundPump::new(16);
    pump.step(Outcome::Bytes(4), 0);
    pump.step(Outcome::Done, 0);
    assert_eq!(pump.step(Outcome::QueueEmpty, 0), Action::Halt(inbound_fault(Operation::Input)));

    let mut pump = InboundPump::new(16);
    pump.step(Outcome::Bytes(4), 0);
    pump.step(Outcome::Done, 0);
    pump.step(Outcome::Done, 0);
    assert_eq!(
        pump.step(Outcome::ExpectingFragment, 0),
        Action::Halt(inbound_fault(Operation::Update))
    );
}

#[test]
fn inbound_takes_an_empty_datagram_to_the_engine() {
    let mut pump = InboundPump::new(16);
    assert_eq!(pump.step(Outcome::Bytes(0), 0), Action::Acquire);
    assert_eq!(pump.step(Outcome::Done, 0), Action::Input { len: 0 });
}

#[test]
fn inbound_does_not_hold_the_session_while_it_waits_for_a_datagram() {
    let mut bench = Bench::new(256);
    bench.network.push_back(fragment(false, b"one"));
    bench.network.push_back(fragment(false, b"two"));
    let mut pump = InboundPump::new(256);
    let mut now = 0;
    loop {
        let action = pump.pending();
        match action {
            Action::Receive | Action::Acquire => assert!(!pump.holds_session()),
            _ => assert!(pump.holds_session()),
        }
        match bench.perform(action) {
            Some(outcome) => {
                now += 1;
                pump.step(outcome, now);
            }
            None => break,
        }
    }
    assert_eq!(bench.output, b"onetwo".to_vec());
}

// --------------------------------------------------------------- outbound

#[test]
fn outbound_starts_by_reading() {
    let pump = OutboundPump::new(STAGING_CAPACITY);
    assert_eq!(pump.capacity(), 131072);
    assert_eq!(pump.phase(), OutboundPhase::Reading);
    assert_eq!(pump.pending(), Action::Read);
    assert!(!pump.holds_session());
}

#[test]
fn outbound_offers_again_until_all_is_accepted() {
    // The engine takes 10 of 30, then 20 of 20.
    let mut pump = OutboundPump::new(64);
    assert_eq!(pump.step(Outcome::Bytes(30), 1), Action::Acquire);
    assert_eq!(pump.step(Outcome::Done, 2), Action::Send { start: 0, end: 30 });
    assert_eq!(pump.step(Outcome::Bytes(10), 3), Action::Update { now: 3 });
    assert_eq!(pump.step(Outcome::Done, 4), Action::Flush);
    assert_eq!(pump.step(Outcome::Done, 5), Action::Release);
    assert_eq!(pump.phase(), OutboundPhase::Releasing { sent: 10, read: 30 });
    assert_eq!(pump.step(Outcome::Done, 6), Action::Acquire);
    assert!(!pump.holds_session());
    assert_eq!(pump.step(Outcome::Done, 7), Action::Send { start: 10, end: 30 });
    assert_eq!(pump.step(Outcome::Bytes(20), 8), Action::Update { now: 8 });
    assert_eq!(pump.step(Outcome::Done, 9), Action::Flush);
    assert_eq!(pump.step(Outcome::Done, 10), Action::Release);
    assert_eq!(pump.step(Outcome::Done, 11), Action::Read);
    assert_eq!(pump.phase(), OutboundPhase::Reading);
}

#[test]
fn outbound_hands_every_byte_to_the_engine_once_and_in_order() {
    let chunk = pattern(30, 11);
    let mut bench = Bench::new(64);
    bench.input.push_back(chunk.clone());
    bench.engine.windows.extend([10, 20]);
    let mut pump = OutboundPump::new(64);
    run_outbound(&mut pump, &mut bench);

    assert_eq!(bench.engine.offered, vec![30, 20]);
    assert_eq!(bench.engine.accepted, chunk);
    assert_eq!(pump.phase(), OutboundPhase::Finished);
    assert_eq!(bench.engine.updates.len(), 2);
    assert_eq!(bench.engine.flushes, 2);
}

#[test]
fn outbound_keeps_offering_while_the_engine_accepts_nothing() {
    let chunk = pattern(9, 5);
    let mut bench = Bench::new(64);
    bench.input.push_back(chunk.clone());
    bench.engine.windows.extend([0, 0, 4, 0, 1, 4]);
    let mut pump = OutboundPump::new(64);
    run_outbound(&mut pump, &mut bench);
    assert_eq!(bench.engine.offered, vec![9, 9, 9, 5, 5, 4]);
    assert_eq!(bench.engine.accepted, chunk);
    let acquisitions = bench.requests.iter().filter(|a| **a == Action::Acquire).count();
    let releases = bench.requests.iter().filter(|a| **a == Action::Release).count();
    assert_eq!(acquisitions, 6);
    assert_eq!(releases, 6);
}

#[test]
fn outbound_sends_chunk_after_chunk() {
    let chunks = vec![pattern(64, 1), pattern(1, 2), pattern(33, 3)];
    let mut bench = Bench::new(64);
    bench.input.extend(chunks.iter().cloned());
    bench.engine.windows.extend([60, 1, 3, 1, 16, 16, 16]);
    let mut pump = OutboundPump::new(64);
    run_outbound(&mut pump, &mut bench);
    assert_eq!(bench.engine.accepted, chunks.concat());
    assert_eq!(bench.engine.offered, vec![64, 4, 3, 1, 33, 17, 1]);
    assert_eq!(pump.pending(), Action::Finish);
}

#[test]
fn outbound_end_of_input_finishes_without_a_send() {
    let mut bench = Bench::new(64);
    let mut pump = OutboundPump::new(64);
    run_outbound(&mut pump, &mut bench);
    assert_eq!(pump.phase(), OutboundPhase::Finished);
    assert_eq!(pump.pending(), Action::Finish);
    assert_eq!(bench.requests, vec![Action::Read, Action::Finish]);
    assert!(bench.engine.calls.is_empty());
    assert!(!pump.holds_session());
}

#[test]
fn outbound_stays_finished() {
    let mut pump = OutboundPump::new(64);
    assert_eq!(pump.step(Outcome::Bytes(0), 0), Action::Finish);
    for outcome in [Outcome::Done, Outcome::Bytes(5), Outcome::Failed, Outcome::QueueEmpty] {
        assert_eq!(pump.step(outcome, 1), Action::Finish);
        assert_eq!(pump.phase(), OutboundPhase::Finished);
    }
}

#[test]
fn outbound_engine_that_accepts_more_than_offered_is_a_failure() {
    let mut pump = OutboundPump::new(64);
    pump.step(Outcome::Bytes(30), 0);
    pump.step(Outcome::Done, 0);
    pump.step(Outcome::Bytes(10), 0);
    pump.step(Outcome::Done, 0);
    pump.step(Outcome::Done, 0);
    pump.step(Outcome::Done, 0);
    assert_eq!(pump.step(Outcome::Done, 0), Action::Send { start: 10, end: 30 });
    assert_eq!(pump.step(Outcome::Bytes(21), 0), Action::Halt(outbound_fault(Operation::Send)));

    let mut pump = OutboundPump::new(64);
    pump.step(Outcome::Bytes(30), 0);
    pump.step(Outcome::Done, 0);
    assert_eq!(
        pump.step(Outcome::Bytes(usize::MAX), 0),
        Action::Halt(outbound_fault(Operation::Send))
    );
}

#[test]
fn outbound_read_beyond_the_staging_buffer_is_a_failure() {
    let mut pump = OutboundPump::new(64);
    assert_eq!(pump.step(Outcome::Bytes(65), 0), Action::Halt(outbound_fault(Operation::Read)));
    let mut pump = OutboundPump::new(64);
    assert_eq!(pump.step(Outcome::Bytes(64), 0), Action::Acquire);
}

#[test]
fn outbound_names_the_operation_that_failed() {
    let script = [
        Outcome::Bytes(8),
        Outcome::Done,
        Outcome::Bytes(3),
        Outcome::Done,
        Outcome::Done,
    ];
    let operations = [
        Operation::Read,
        Operation::Acquire,
        Operation::Send,
        Operation::Update,
        Operation::Flush,
        Operation::Release,
    ];
    for (successes, operation) in operations.iter().enumerate() {
        let mut pump = OutboundPump::new(64);
        for outcome in script.iter().take(successes) {
            pump.step(*outcome, 0);
        }
        assert_eq!(pump.step(Outcome::Failed, 0), Action::Halt(outbound_fault(*operation)));
        assert_eq!(pump.step(Outcome::Done, 0), Action::Halt(outbound_fault(*operation)));
    }
}

#[test]
fn outbound_releases_the_session_between_attempts() {
    let mut bench = Bench::new(64);
    bench.input.push_back(pattern(12, 9));
    bench.engine.windows.extend([5, 5, 2]);
    let mut pump = OutboundPump::new(64);
    let mut held = Vec::new();
    let mut now = 0;
    loop {
        let action = pump.pending();
        if action == Action::Acquire || action == Action::Read {
            assert!(!pump.holds_session());
        }
        if action.engine_call() {
            assert!(pump.holds_session());
        }
        held.push(pump.holds_session());
        match bench.perform(action) {
            Some(outcome) => {
                now += 1;
                pump.step(outcome, now);
            }
            None => break,
        }
    }
    let acquired = held.windows(2).filter(|w| !w[0] && w[1]).count();
    assert_eq!(acquired, 3);
    assert_eq!(bench.engine.accepted, pattern(12, 9));
}

// ----------------------------------------------------------------- ticker

#[test]
fn ticker_sleeps_then_updates_under_the_session() {
    assert_eq!(DEFAULT_INTERVAL_MILLIS, 100);
    let mut ticker = Ticker::new(DEFAULT_INTERVAL_MILLIS);
    assert_eq!(ticker.interval(), 100);
    assert_eq!(ticker.phase(), TickerPhase::Sleeping);
    assert_eq!(ticker.pending(), Action::Sleep { millis: 100 });
    assert!(!ticker.holds_session());
    assert_eq!(ticker.step(Outcome::Done, 100), Action::Acquire);
    assert!(!ticker.holds_session());
    assert_eq!(ticker.step(Outcome::Done, 103), Action::Update { now: 103 });
    assert!(ticker.holds_session());
    assert_eq!(ticker.step(Outcome::Done, 104), Action::Release);
    assert!(ticker.holds_session());
    assert_eq!(ticker.step(Outcome::Done, 104), Action::Sleep { millis: 100 });
    assert!(!ticker.holds_session());
}

#[test]
fn ticker_updates_once_per_interval() {
    let mut bench = Bench::new(0);
    let mut ticker = Ticker::new(25);
    for _ in 0..40 {
        let outcome = bench.perform(ticker.pending()).unwrap();
        ticker.step(outcome, bench.slept as u32);
    }
    assert_eq!(bench.slept, 250);
    assert_eq!(bench.engine.updates, vec![25, 50, 75, 100, 125, 150, 175, 200, 225, 250]);
    assert_eq!(bench.engine.calls.len(), 10);
}

#[test]
fn ticker_failure_is_fatal() {
    let operations = [Operation::Sleep, Operation::Acquire, Operation::Update, Operation::Release];
    for (successes, operation) in operations.iter().enumerate() {
        let mut ticker = Ticker::new(100);
        for _ in 0..successes {
            ticker.step(Outcome::Done, 0);
        }
        let fault = ticker_fault(*operation);
        assert_eq!(ticker.step(Outcome::Failed, 1), Action::Halt(fault));
        assert_eq!(ticker.phase(), TickerPhase::Failed(fault));
        assert!(!ticker.holds_session());
        assert_eq!(ticker.step(Outcome::Done, 2), Action::Halt(fault));
    }
    assert_eq!(ticker_fault(Operation::Update).message(), "failed to update kcp instance");
}

// ----------------------------------------------------------------- driver

fn index_of(role: Role) -> usize {
    match role {
        Role::Inbound => 0,
        Role::Outbound => 1,
        Role::Ticker => 2,
    }
}

const ROLES: [Role; 3] = [Role::Inbound, Role::Outbound, Role::Ticker];

/// Three roles around one engine, each with its own staging buffer. An
/// operation is begun in one turn and ended in a later one, so that the roles'
/// operations overlap wherever the driver lets them.
struct Stage {
    bench: Bench,
    staging: Vec<Vec<u8>>,
    begun: [Option<Action>; 3],
    clock: u32,
    seed: u64,
}

impl Stage {
    fn new(capacity: usize, seed: u64) -> Stage {
        Stage {
            bench: Bench::new(capacity),
            staging: vec![vec![0; capacity]; 3],
            begun: [None; 3],
            clock: 0,
            seed,
        }
    }

    fn pick(&mut self) -> Role {
        self.seed = self.seed.wrapping_mul(6364136223846793005).wrapping_add(1442695040888963407);
        ROLES[((self.seed >> 33) % 3) as usize]
    }

    /// Gives `role` one turn: begins its pending operation, or ends the one
    /// that it has begun and reports the outcome.
    fn turn(&mut self, driver: &mut SessionDriver, role: Role) {
        let slot = index_of(role);
        let action = driver.pending(role);
        match self.begun[slot] {
            None => {
                if action.engine_call() {
                    assert_eq!(driver.holder(), Some(role));
                    self.bench.engine.enter();
                }
                self.begun[slot] = Some(action);
            }
            Some(begun) => {
                if matches!(action, Action::Halt(_)) {
                    return;
                }
                assert_eq!(begun, action);
                std::mem::swap(&mut self.bench.staging, &mut self.staging[slot]);
                let outcome = self.bench.perform(begun);
                std::mem::swap(&mut self.bench.staging, &mut self.staging[slot]);
                if begun.engine_call() {
                    self.bench.engine.leave();
                }
                if let Some(outcome) = outcome {
                    self.clock += 1;
                    driver.step(role, outcome, self.clock);
                    self.begun[slot] = None;
                }
            }
        }
    }
}

#[test]
fn driver_starts_with_every_role_waiting_and_nobody_holding() {
    let driver = SessionDriver::new(STAGING_CAPACITY, STAGING_CAPACITY, DEFAULT_INTERVAL_MILLIS);
    assert_eq!(driver.holder(), None);
    assert_eq!(driver.fault(), None);
    assert_eq!(driver.status(), Status::Running);
    assert_eq!(driver.pending(Role::Inbound), Action::Receive);
    assert_eq!(driver.pending(Role::Outbound), Action::Read);
    assert_eq!(driver.pending(Role::Ticker), Action::Sleep { millis: 100 });
}

#[test]
fn driver_makes_a_role_wait_while_another_holds_the_session() {
    let mut driver = SessionDriver::new(64, 64, 100);
    assert_eq!(driver.step(Role::Ticker, Outcome::Done, 1), Action::Acquire);
    assert_eq!(driver.step(Role::Inbound, Outcome::Bytes(4), 1), Action::Acquire);
    assert_eq!(driver.step(Role::Outbound, Outcome::Bytes(6), 1), Action::Acquire);
    assert_eq!(driver.step(Role::Inbound, Outcome::Done, 2), Action::Input { len: 4 });
    assert_eq!(driver.holder(), Some(Role::Inbound));
    // The others are told to keep waiting, as often as they ask.
    for _ in 0..3 {
        assert_eq!(driver.step(Role::Ticker, Outcome::Done, 3), Action::Acquire);
        assert_eq!(driver.step(Role::Outbound, Outcome::Done, 3), Action::Acquire);
        assert_eq!(driver.holder(), Some(Role::Inbound));
    }
    assert_eq!(driver.step(Role::Inbound, Outcome::Done, 4), Action::Update { now: 4 });
    assert_eq!(driver.step(Role::Inbound, Outcome::Done, 5), Action::Flush);
    assert_eq!(driver.step(Role::Inbound, Outcome::Done, 6), Action::Recv);
    assert_eq!(driver.step(Role::Inbound, Outcome::ExpectingFragment, 7), Action::Release);
    assert_eq!(driver.step(Role::Outbound, Outcome::Done, 8), Action::Acquire);
    assert_eq!(driver.step(Role::Inbound, Outcome::Done, 9), Action::Receive);
    assert_eq!(driver.holder(), None);
    assert_eq!(driver.step(Role::Outbound, Outcome::Done, 10), Action::Send { start: 0, end: 6 });
    assert_eq!(driver.holder(), Some(Role::Outbound));
    assert_eq!(driver.step(Role::Ticker, Outcome::Done, 11), Action::Acquire);
}

#[test]
fn driver_never_lets_two_engine_calls_overlap() {
    for seed in 0..40u64 {
        let mut stage = Stage::new(256, seed);
        let mut expected_output = Vec::new();
        let mut expected_sent = Vec::new();
        for i in 0..12usize {
            let message = pattern(40 + 13 * i, i as u8);
            let cut = (7 * i) % message.len();
            stage.bench.network.push_back(fragment(true, &message[..cut]));
            stage.bench.network.push_back(fragment(false, &message[cut..]));
            expected_output.extend_from_slice(&message);
            let chunk = pattern(1 + 21 * i, 100 + i as u8);
            stage.bench.input.push_back(chunk.clone());
            expected_sent.extend_from_slice(&chunk);
        }
        stage.bench.engine.windows.extend((0..200).map(|i| (i * 5) % 17));
        let mut driver = SessionDriver::new(256, 256, 10);
        for _ in 0..40000 {
            let role = stage.pick();
            stage.turn(&mut driver, role);
            let calls = ROLES.iter().filter(|r| driver.pending(**r).engine_call()).count();
            assert!(calls <= 1);
            for role in ROLES {
                if driver.pending(role).engine_call() {
                    assert_eq!(driver.holder(), Some(role));
                }
            }
        }
        assert!(!stage.bench.engine.overlapped);
        assert_eq!(driver.fault(), None);
        assert_eq!(driver.status(), Status::InputEnded);
        assert_eq!(stage.bench.output, expected_output);
        assert_eq!(stage.bench.engine.accepted, expected_sent);
        assert!(!stage.bench.engine.updates.is_empty());
    }
}

#[test]
fn driver_passes_the_clock_on_in_order() {
    let mut stage = Stage::new(128, 99);
    for i in 0..20usize {
        stage.bench.network.push_back(fragment(false, &pattern(10 + i, 3)));
        stage.bench.input.push_back(pattern(5 + i, 4));
    }
    stage.bench.engine.windows.extend((0..100).map(|i| 1 + i % 4));
    let mut driver = SessionDriver::new(128, 128, 10);
    for _ in 0..4000 {
        let role = stage.pick();
        stage.turn(&mut driver, role);
    }
    let updates = &stage.bench.engine.updates;
    assert!(updates.len() > 40);
    assert!(updates.windows(2).all(|w| w[0] <= w[1]));
    assert!(*updates.last().unwrap() <= stage.clock);
}

#[test]
fn driver_stops_every_role_on_the_first_fault() {
    let mut driver = SessionDriver::new(64, 64, 100);
    driver.step(Role::Outbound, Outcome::Bytes(6), 1);
    driver.step(Role::Outbound, Outcome::Done, 2);
    assert_eq!(driver.holder(), Some(Role::Outbound));
    driver.step(Role::Inbound, Outcome::Bytes(9), 3);
    let fault = outbound_fault(Operation::Send);
    assert_eq!(driver.step(Role::Outbound, Outcome::Failed, 4), Action::Halt(fault));
    assert_eq!(driver.fault(), Some(fault));
    assert_eq!(driver.status(), Status::Stopped(fault));
    assert_eq!(driver.holder(), None);
    for role in ROLES {
        assert_eq!(driver.pending(role), Action::Halt(fault));
        assert_eq!(driver.step(role, Outcome::Done, 5), Action::Halt(fault));
        assert_eq!(driver.step(role, Outcome::Failed, 6), Action::Halt(fault));
    }
    assert_eq!(driver.fault(), Some(fault));
    assert_eq!(driver.holder(), None);
}

#[test]
fn driver_tells_a_rejected_datagram_from_a_failed_receive() {
    let mut rejected = SessionDriver::new(64, 64, 100);
    rejected.step(Role::Inbound, Outcome::Bytes(9), 1);
    rejected.step(Role::Inbound, Outcome::Done, 2);
    rejected.step(Role::Inbound, Outcome::Failed, 3);
    let mut unread = SessionDriver::new(64, 64, 100);
    unread.step(Role::Inbound, Outcome::Failed, 1);
    assert_eq!(rejected.status(), Status::Stopped(inbound_fault(Operation::Input)));
    assert_eq!(unread.status(), Status::Stopped(inbound_fault(Operation::Receive)));
    assert_ne!(rejected.status(), unread.status());
}

#[test]
fn driver_goes_on_after_the_local_input_has_ended() {
    let mut driver = SessionDriver::new(64, 64, 100);
    assert_eq!(driver.step(Role::Outbound, Outcome::Bytes(0), 1), Action::Finish);
    assert_eq!(driver.status(), Status::InputEnded);
    assert_eq!(driver.fault(), None);
    assert_eq!(driver.step(Role::Outbound, Outcome::Done, 2), Action::Finish);
    // The other roles are not stopped by it.
    assert_eq!(driver.step(Role::Ticker, Outcome::Done, 3), Action::Acquire);
    assert_eq!(driver.step(Role::Ticker, Outcome::Done, 4), Action::Update { now: 4 });
    assert_eq!(driver.step(Role::Inbound, Outcome::Bytes(3), 5), Action::Acquire);
    assert_eq!(driver.status(), Status::InputEnded);
}

#[test]
fn driver_takes_the_session_back_from_a_role_that_fails() {
    let mut driver = SessionDriver::new(64, 64, 100);
    driver.step(Role::Ticker, Outcome::Done, 1);
    assert_eq!(driver.step(Role::Ticker, Outcome::Done, 2), Action::Update { now: 2 });
    assert_eq!(driver.holder(), Some(Role::Ticker));
    let fault = ticker_fault(Operation::Update);
    assert_eq!(driver.step(Role::Ticker, Outcome::Failed, 3), Action::Halt(fault));
    assert_eq!(driver.holder(), None);
    assert_eq!(driver.status(), Status::Stopped(fault));
}

// ------------------------------------------------- pumps around one guard

#[test]
fn pumps_around_one_guard_never_overlap_their_engine_calls() {
    // Each role runs its own machine, as it does on a thread of its own; the
    // guard alone decides who is granted the session.
    for seed in 0..20u64 {
        let mut engine = FakeEngine::new();
        engine.windows.extend((0..300).map(|i| (i * 3) % 11));
        let mut guard = SessionGuard::new();
        let mut inbound = InboundPump::new(128);
        let mut outbound = OutboundPump::new(128);
        let mut ticker = Ticker::new(10);
        let mut staging = vec![vec![0u8; 128]; 3];
        let mut network: VecDeque<Vec<u8>> =
            (0..15usize).map(|i| fragment(i % 3 != 2, &pattern(20 + i, i as u8))).collect();
        let mut input: VecDeque<Vec<u8>> = (0..15usize).map(|i| pattern(1 + 8 * i, 50)).collect();
        let expected_sent: Vec<u8> = input.iter().flatten().copied().collect();
        let mut output = Vec::new();
        let mut begun: [Option<Action>; 3] = [None; 3];
        let mut state = seed;
        let mut now = 0u32;
        for _ in 0..8000 {
            state = state.wrapping_mul(6364136223846793005).wrapping_add(1442695040888963407);
            let role = ROLES[((state >> 33) % 3) as usize];
            let slot = index_of(role);
            let action = match role {
                Role::Inbound => inbound.pending(),
                Role::Outbound => outbound.pending(),
                Role::Ticker => ticker.pending(),
            };
            let Some(current) = begun[slot] else {
                if action.engine_call() {
                    assert_eq!(guard.holder(), Some(role));
                    engine.enter();
                }
                begun[slot] = Some(action);
                continue;
            };
            let buffer = &mut staging[slot];
            let outcome = match current {
                Action::Receive => match network.pop_front() {
                    Some(datagram) => {
                        buffer[..datagram.len()].copy_from_slice(&datagram);
                        Outcome::Bytes(datagram.len())
                    }
                    None => continue,
                },
                Action::Read => match input.pop_front() {
                    Some(chunk) => {
                        buffer[..chunk.len()].copy_from_slice(&chunk);
                        Outcome::Bytes(chunk.len())
                    }
                    None => Outcome::Bytes(0),
                },
                Action::Sleep { .. } => Outcome::Done,
                Action::Acquire => {
                    if guard.try_acquire(role) {
                        Outcome::Done
                    } else {
                        continue;
                    }
                }
                Action::Release => {
                    assert!(guard.release(role));
                    Outcome::Done
                }
                Action::Input { len } => engine.input(&buffer[..len]),
                Action::Send { start, end } => engine.send(&buffer[start..end]),
                Action::Update { now } => engine.update(now),
                Action::Flush => engine.flush(),
                Action::Recv => engine.recv(buffer),
                Action::Deliver { len } => {
                    output.extend_from_slice(&buffer[..len]);
                    Outcome::Done
                }
                Action::Finish => continue,
                Action::Halt(fault) => panic!("{}", fault.message()),
            };
            if current.engine_call() {
                engine.leave();
            }
            now += 1;
            match role {
                Role::Inbound => inbound.step(outcome, now),
                Role::Outbound => outbound.step(outcome, now),
                Role::Ticker => ticker.step(outcome, now),
            };
            begun[slot] = None;
        }
        assert!(!engine.overlapped);
        assert_eq!(engine.accepted, expected_sent);
        assert_eq!(outbound.phase(), OutboundPhase::Finished);
        assert!(network.is_empty());
        assert!(!output.is_empty());
        assert!(engine.updates.windows(2).all(|w| w[0] <= w[1]));
    }
}
