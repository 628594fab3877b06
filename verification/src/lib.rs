//! Packet replay engine core: a bounded packet channel with high/low
//! watermarks, pluggable rate-shaping delayers, running statistics, and the
//! reader/writer pipeline logic that ties them together.
//!
//! Everything here is sequential, verified logic over plain values: clocks
//! are microsecond counts handed in by the caller, and the channel is an
//! explicit state record whose producer and consumer transitions are small
//! step functions. A thin unverified shell supplies threads, packet capture
//! and signal handling around this core.

pub mod channel;
pub mod config;
pub mod delay;
pub mod input;
pub mod output;
pub mod pipe;
pub mod stats;
