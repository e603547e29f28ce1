//! Verified application core of a USB HID boot-keyboard firmware.
//!
//! The crate models and proves the behaviour that sits on top of a conforming
//! USB stack and the board's GPIO: how keyboard reports are rebuilt from a
//! scanned key matrix, when a rebuilt report is handed to the transport, how
//! the device-configuration flag reacts to USB lifecycle events, how HID
//! class control requests are answered, and how a rotary-encoder count
//! accumulates. Pin strobing, timed settling, and the USB transfers
//! themselves are the unverified edge around this core: a driver loop samples
//! the pins, feeds the samples in as plain values, and performs the transfers
//! this core decides on.

pub mod report;
pub mod scanner;
pub mod monitor;
pub mod control;
pub mod encoder;
