//! Connection supervisor and protocol translator for a Launchpad-class
//! grid controller.
//!
//! The library holds the logic of the bridge: decoding raw channel-voice
//! messages into semantic events, encoding semantic commands into raw
//! messages, the tiered port-matching heuristic, and the supervisor state
//! machine that governs reconnection. The platform MIDI I/O around it is
//! not part of the library.

pub mod codec;
pub mod init;
pub mod matcher;
pub mod midi;
pub mod model;
pub mod supervisor;
