//! Widgets: what a widget is, the cell its watcher and the bar share, and the
//! widgets that come with the library.

pub mod backlight;
pub mod base;
pub mod periodic;
pub mod volume;

pub use self::backlight::Backlight;
pub use self::base::{Refresh, Snapshot, Widget};
pub use self::periodic::Periodic;
pub use self::volume::Pulse;
