//! Volume widgets.

pub mod pulse;

pub use self::pulse::Pulse;
