//! Logic of a userspace driver for the Microsoft SideWinder Force Feedback
//! Wheel: from raw HID reports to the events of a virtual input device.
//!
//! ```text
//! HID report ── parser ──► WheelState ── forward ──► events ──► uinput
//! ```
//!
//! `driver` ties these together as the state machine of the read loop, and
//! `mirror` states how the virtual device follows the wheel.

pub mod batch;
pub mod cli;
pub mod devices;
pub mod driver;
pub mod forward;
pub mod mirror;
pub mod parser;
pub mod text;
pub mod uinput;
