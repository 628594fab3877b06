//! Packets and input selection.
//!
//! A packet is a raw link-layer frame together with its capture timestamp.
//! Timestamps are wall-clock microseconds; the engine never interprets the
//! frame bytes.

use vstd::prelude::*;

verus! {

/// Mathematical model of a packet: its frame bytes and capture time in
/// microseconds.
pub struct PacketModel {
    pub data: Seq<u8>,
    pub when: nat,
}

/// Raw packet read from an input: an owned frame plus the time it was
/// captured (microseconds of wall-clock time).
#[derive(Debug)]
pub struct Packet {
    /// Packet data.
    pub data: Vec<u8>,
    /// Timestamp for the packet, in microseconds.
    ///
    /// When reading from an interface this is the time the packet was
    /// received; when reading from a capture file it is the time the packet
    /// was originally captured.
    pub when: u64,
}

impl View for Packet {
    type V = PacketModel;

    open spec fn view(&self) -> PacketModel {
        PacketModel { data: self.data@, when: self.when as nat }
    }
}

impl Packet {
    /// Returns a packet with the same frame bytes and timestamp. Used when a
    /// capture pass is replayed again; inside one pass a packet is moved,
    /// never copied.
    pub fn duplicate(&self) -> (r: Packet)
        ensures
            r@ == self@,
    {
        let mut data: Vec<u8> = Vec::new();
        let mut i: usize = 0;
        while i < self.data.len()
            invariant
                i <= self.data.len(),
                data@ == self.data@.take(i as int),
            decreases self.data.len() - i,
        {
            data.push(self.data[i]);
            i = i + 1;
        }
        proof {
            assert(data@ == self.data@.take(self.data@.len() as int));
            assert(self.data@.take(self.data@.len() as int) =~= self.data@);
        }
        Packet { data, when: self.when }
    }
}

/// Where packets are read from.
pub enum InputMethod {
    /// Read packets from a capture file with the given path.
    File(String),
    /// Read packets live from the interface with the given name.
    Interface(String),
}

impl InputMethod {
    /// True when this input is a live interface rather than a capture file.
    pub open spec fn is_live(&self) -> bool {
        self matches InputMethod::Interface(_)
    }
}

/// Picks the input method from the two mutually exclusive command line
/// options. Returns `None` when neither is given; the file option wins when
/// both are present, mirroring the order the options are examined in.
pub fn select_method(file: Option<String>, interface: Option<String>) -> (r: Option<InputMethod>)
    ensures
        match r {
            Some(InputMethod::File(f)) => (file matches Some(g) && f == g),
            Some(InputMethod::Interface(i)) => file is None && (interface matches Some(j) && i == j),
            None => file is None && interface is None,
        },
{
    if let Some(fname) = file {
        Some(InputMethod::File(fname))
    } else if let Some(ifname) = interface {
        Some(InputMethod::Interface(ifname))
    } else {
        None
    }
}

} // verus!
