//! Outputs for writing packets.
//!
//! The engine hands raw frames to a [`PacketWriter`] and interprets the
//! result: the number of bytes accepted, where zero means the sink
//! deliberately dropped the frame (for example one above the MTU), or an
//! error, which aborts the writer loop. Concrete sinks — a network
//! interface, a null device, a recording buffer in tests — live outside
//! the verified core and implement this trait.

use vstd::prelude::*;

use crate::input::Packet;

verus! {

/// Error reported by a packet sink. Carries the sink's own description of
/// what went wrong.
pub struct WriteError {
    /// The sink's description of the failure.
    pub message: String,
}

/// PacketWriter can be used to write packets or raw packet data.
///
/// No behaviour is promised at the trait: a sink may accept, drop or
/// fail any frame, and the engine's contracts state what holds for every
/// outcome. A concrete sink's implementation may promise more.
pub trait PacketWriter {
    /// Writes raw packet data, returning the number of bytes written;
    /// zero means the frame was deliberately dropped.
    fn write_raw(&mut self, buf: &[u8]) -> Result<usize, WriteError>;

    /// Writes the given packet's frame, returning the number of bytes
    /// written.
    fn write_packet(&mut self, packet: Packet) -> Result<usize, WriteError> {
        self.write_raw(packet.data.as_slice())
    }
}

/// Sink that accepts every frame in full and discards it, counting the
/// bytes. It plays the role the null device plays in a live run, with
/// nothing outside the library: the engine can be driven against it
/// entirely in verified code.
pub struct NullSink {
    /// Bytes accepted so far, saturating.
    pub accepted: u64,
}

impl NullSink {
    /// A fresh discarding sink.
    pub fn new() -> (r: NullSink)
        ensures
            r.accepted == 0,
    {
        NullSink { accepted: 0 }
    }
}

impl PacketWriter for NullSink {
    /// Accepts the whole frame.
    fn write_raw(&mut self, buf: &[u8]) -> (r: Result<usize, WriteError>)
        ensures
            r == Ok::<usize, WriteError>(buf@.len() as usize),
            final(self).accepted == crate::delay::sat64(old(self).accepted + buf@.len()),
    {
        self.accepted = self.accepted.saturating_add(buf.len() as u64);
        Ok(buf.len())
    }
}

} // verus!
