//! A verified core for a raw-PCM audio capture pipeline.
//!
//! The library covers the decision logic of a capture program: ordering and
//! resolving input devices, negotiating a stream configuration from a device's
//! reported capabilities, converting 32-bit samples to 24-bit little-endian
//! PCM bytes, an append-only sample sink, the capture-session state machine,
//! and the control loop that shuts the session down on a quit signal.
//! Device enumeration, the audio stream itself, file output and the tray icon
//! are operating-system work that a thin front end performs around this core.

pub mod catalog;
pub mod control;
pub mod convert;
pub mod errors;
pub mod naming;
pub mod negotiator;
pub mod session;
pub mod sink;
