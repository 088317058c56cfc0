//! A cycle-counted model of a 1980s console's processor bus and its audio unit:
//! the status-flag codec, RAM with mirroring, the stack, code fetch, the
//! audio register file with its channel masks and time-to-sample conversion,
//! the pulse and triangle oscillators in exact integer arithmetic, and the
//! first-in first-out queue that hands samples to a real-time consumer.

pub mod status;
pub mod nes;
pub mod apu;
pub mod queue;
pub mod frame_stats;
