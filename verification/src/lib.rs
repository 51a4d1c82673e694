//! A desktop-pet core: the per-tick sprite state machine (physics, drag,
//! flight and blink animation, speech bubble), the reminder scheduler that
//! produces timed messages on a round-robin cadence, and the pseudo-random
//! generator that drives the randomized behaviour.
//!
//! Everything here is pure state-transition logic over plain values; the
//! windowing, input polling and painting live outside and hand in snapshots.

pub mod pet;
pub mod rng;
pub mod scheduler;

pub use pet::PetState;
pub use rng::SimpleRng;
pub use scheduler::SchedulerState;
