//! Core of a streaming Relative Strength Index engine.
//!
//! The engine keeps, for every asset key, a bounded window of the most recent
//! prices and decides, trade by trade, when enough history has been gathered
//! for an indicator value to be computed and published.  The crate is
//! verified, the reading of the clock apart; reading from and writing to the
//! message broker, the wire format and the floating-point arithmetic of the
//! indicator itself are left to the program built around it.

pub mod binary64;
pub mod clock;
pub mod engine;
pub mod event;
pub mod fault;
pub mod gate;
pub mod run;
pub mod store;
pub mod window;
