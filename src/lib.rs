//! Capture and replay of a two-party serial bus.
//!
//! Byte runs seen on the bus are tagged with the party that sent them,
//! framed as synthetic IPv4/UDP packets for a packet-capture container, and
//! read back later as one ordered byte stream per party.
use vstd::prelude::*;

pub mod bus;
pub mod byte_buf;
pub mod channel;
pub mod display;
pub mod framing;
pub mod mux;
pub mod reader;
pub mod recorder;
pub mod replay;
pub mod record;
pub mod staging;

verus! {

/// An output pin that is not wired to anything, for a display line that the
/// board drives some other way.
pub struct DummyPin;

} // verus!
