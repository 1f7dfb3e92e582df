//! Text-presentation engine of a now-playing widget for a status bar.
//!
//! The crate measures text in display columns, cuts or pads it to an exact
//! width, scrolls text that is too wide as a marquee, keeps track of the
//! media players on the bus, and formats one line of bar markup per tick.

pub mod chars;
pub mod width;
pub mod clamp;
pub mod scroll;
pub mod registry;
pub mod status;
pub mod icon;
pub mod config;
pub mod format;
pub mod line;
pub mod widget;
