//! Driver for the ILI9488 display controller (320x480 panel).
//!
//! The driver turns drawing requests into the controller's command and
//! parameter byte protocol. Every transaction that the driver hands to the
//! bus, the reset line or the delay source is recorded in a ghost log, and
//! the contracts state that log exactly.
pub mod bus;
pub mod codec;
pub mod command;
pub mod device;
pub mod orientation;
pub mod rgb111;
pub mod scroll;

pub use crate::bus::{Bus, Delay, Event, Op, ResetPin};
pub use crate::codec::Rgb666;
pub use crate::command::{AdaptiveBrightness, Command, FrameRate, FrameRateClockDivision, ModeState};
pub use crate::device::{DisplaySize, DisplaySize320x480, Ili9488, Ili9488PixelFormat, Rgb111Mode, Rgb666Mode};
pub use crate::orientation::{Mode, Orientation};
pub use crate::rgb111::Rgb111;
pub use crate::scroll::Scroller;
pub use display_interface::DisplayError;
