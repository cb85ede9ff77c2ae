//! Decision logic of a session driver that bridges a local byte stream to a
//! remote peer through a reliable-transport engine running over datagrams.
//!
//! Three roles share one engine: the inbound pump feeds received datagrams to
//! the engine and delivers reassembled messages, the outbound pump offers local
//! input to the engine until all of it is accepted, and the ticker advances the
//! engine's timers. Each role is a state machine: its state names the one
//! operation that the surrounding program has to perform next, and the outcome
//! of that operation moves the machine on. Blocking reads, the engine itself and
//! the lock around it stay with the caller.
//!
//! - [`protocol`]: the operations a role asks for, their outcomes, and faults.
//! - [`clock`]: the monotonic origin and the 32-bit tick that the engine takes.
//! - [`inbound`], [`outbound`], [`ticker`]: the three roles, each with the laws
//!   that hold of it over whole traces of outcomes.
//! - [`guard`]: the record of who holds the session.
//! - [`driver`]: the three roles and the guard together, with the laws that
//!   hold of every interleaving.

pub mod clock;
pub mod driver;
pub mod guard;
pub mod inbound;
pub mod outbound;
pub mod protocol;
pub mod ticker;
