//! Channel which can be used to buffer packets.
//!
//! The channel is a single-producer / single-consumer FIFO with high/low
//! watermark back-pressure. Its shared state — the pending packets, the
//! depth counter and the `paused` flag — is an explicit [`ChannelState`]
//! record, and every producer or consumer action is a small step function
//! with an exact contract. An unverified shell can guard the record with a
//! mutex, park the producer while [`SendStatus::Blocked`] is returned, and
//! wake it when a dequeue reports that the pause cleared; a sequential
//! driver can instead interleave the steps directly.

use vstd::prelude::*;

use crate::input::{Packet, PacketModel};

verus! {

/// Error returned by channel operations.
#[derive(Debug)]
pub enum ChannelError {
    /// The consumer half is gone; the packet could not be sent and is
    /// handed back.
    Send(Packet),
}

/// The views of a sequence of packets, oldest first.
pub open spec fn views_of(s: Seq<Packet>) -> Seq<PacketModel> {
    s.map_values(|p: Packet| p@)
}

/// Shared state of a channel: the pending packets together with the
/// watermark bookkeeping, plus the ghost history of everything ever
/// produced, consumed or discarded through it.
pub struct ChannelState {
    /// Packets sent but not yet taken by the consumer; index 0 is oldest.
    pub buf: Vec<Packet>,
    /// Number of packets waiting on the channel. Equals `buf.len()`.
    pub packets: u64,
    /// Whether the producer must pause before enqueueing.
    pub paused: bool,
    /// The producer half has been closed: no further packet will arrive.
    pub sender_closed: bool,
    /// The consumer half has been closed: sends are rejected.
    pub receiver_closed: bool,
    /// History of packets committed by the producer, in order.
    pub produced: Ghost<Seq<PacketModel>>,
    /// History of packets yielded to the consumer, in order.
    pub consumed: Ghost<Seq<PacketModel>>,
    /// Packets dropped unread when the consumer half closed.
    pub discarded: Ghost<Seq<PacketModel>>,
}

impl ChannelState {
    /// Well-formedness: the depth counter matches the queue, the produced
    /// history splits into consumed, pending and discarded parts, and a
    /// closed consumer leaves an empty, unpaused queue.
    pub open spec fn inv(&self) -> bool {
        &&& self.packets as int == self.buf@.len()
        &&& self.produced@ == self.consumed@ + views_of(self.buf@) + self.discarded@
        &&& (self.receiver_closed ==> self.buf@.len() == 0 && !self.paused)
        &&& (!self.receiver_closed ==> self.discarded@.len() == 0)
    }

    /// Current channel depth.
    pub fn depth(&self) -> (r: u64)
        ensures
            r == self.spec_depth(),
    {
        self.packets
    }

    /// Whether the producer is currently paused.
    pub fn is_paused(&self) -> (r: bool)
        ensures
            r == self.spec_paused(),
    {
        self.paused
    }

    /// Spec view of the depth counter.
    pub open spec fn spec_depth(&self) -> u64 {
        self.packets
    }

    /// Spec view of the paused flag.
    pub open spec fn spec_paused(&self) -> bool {
        self.paused
    }

    /// Spec view of the pending queue.
    pub open spec fn pending(&self) -> Seq<PacketModel> {
        views_of(self.buf@)
    }

    /// Spec view of the producer-closed flag.
    pub open spec fn spec_sender_closed(&self) -> bool {
        self.sender_closed
    }

    /// Spec view of the consumer-closed flag.
    pub open spec fn spec_receiver_closed(&self) -> bool {
        self.receiver_closed
    }
}

/// Outcome of one producer step.
pub enum SendStatus {
    /// The packet was committed to the queue.
    Sent,
    /// The channel is at or above its high watermark: the producer must
    /// pause until the pause clears, then try again with the packet, which
    /// is handed back.
    Blocked(Packet),
}

/// Depth invariant: at every observation point the channel depth equals the
/// number of packets produced minus the number consumed.
pub proof fn lemma_depth_invariant(st: &ChannelState)
    requires
        st.inv(),
        !st.spec_receiver_closed(),
    ensures
        st.spec_depth() as int == st.produced@.len() - st.consumed@.len(),
{
}

/// Order invariant: the packets yielded to the consumer are exactly the
/// first packets produced, in the same order.
pub proof fn lemma_order_invariant(st: &ChannelState)
    requires
        st.inv(),
    ensures
        st.consumed@ == st.produced@.take(st.consumed@.len() as int),
{
    assert(st.consumed@ =~= st.produced@.take(st.consumed@.len() as int));
}

/// Sender side of a channel.
pub struct Tx {
    /// When the channel depth reaches this many packets at a send, the
    /// producer is paused.
    pub watermark_hi: u64,
}

impl Tx {
    /// One producer step: writes a packet to the channel.
    ///
    /// If the channel holds `watermark_hi` packets or more — or a pause is
    /// already in force — the packet is handed back as
    /// [`SendStatus::Blocked`] and the pause flag is set: the caller must
    /// wait until the pause clears and then try again. If the consumer half
    /// is gone the send fails with [`ChannelError::Send`].
    pub fn write_packet(&self, st: &mut ChannelState, pkt: Packet) -> (r: Result<
        SendStatus,
        ChannelError,
    >)
        requires
            old(st).inv(),
        ensures
            final(st).inv(),
            final(st).consumed == old(st).consumed,
            final(st).discarded == old(st).discarded,
            final(st).spec_sender_closed() == old(st).spec_sender_closed(),
            final(st).spec_receiver_closed() == old(st).spec_receiver_closed(),
            old(st).spec_receiver_closed() ==> ({
                &&& r == Result::<SendStatus, ChannelError>::Err(ChannelError::Send(pkt))
                &&& *final(st) == *old(st)
            }),
            !old(st).spec_receiver_closed() && (old(st).spec_paused() || old(st).spec_depth()
                >= self.watermark_hi) ==> ({
                &&& r == Result::<SendStatus, ChannelError>::Ok(SendStatus::Blocked(pkt))
                &&& final(st).spec_paused()
                &&& final(st).spec_depth() == old(st).spec_depth()
                &&& final(st).pending() == old(st).pending()
                &&& final(st).produced == old(st).produced
            }),
            !old(st).spec_receiver_closed() && !old(st).spec_paused() && old(st).spec_depth()
                < self.watermark_hi ==> ({
                &&& r == Result::<SendStatus, ChannelError>::Ok(SendStatus::Sent)
                &&& !final(st).spec_paused()
                &&& final(st).spec_depth() == old(st).spec_depth() + 1
                &&& final(st).pending() == old(st).pending().push(pkt@)
                &&& final(st).produced@ == old(st).produced@.push(pkt@)
            }),
            // Watermark invariant, producer half: a pause is only ever
            // entered when the depth has reached the high watermark.
            !old(st).spec_paused() && final(st).spec_paused() ==> old(st).spec_depth()
                >= self.watermark_hi,
    {
        if st.receiver_closed {
            return Err(ChannelError::Send(pkt));
        }
        if st.packets >= self.watermark_hi {
            st.paused = true;
        }
        if st.paused {
            return Ok(SendStatus::Blocked(pkt));
        }
        proof {
            assert(st.buf@.len() < self.watermark_hi as int);
        }
        let ghost model = pkt@;
        st.buf.push(pkt);
        st.packets = st.packets + 1;
        st.produced = Ghost(st.produced@.push(model));
        proof {
            assert(views_of(st.buf@) =~= views_of(old(st).buf@).push(model));
            assert(st.produced@ =~= st.consumed@ + views_of(st.buf@) + st.discarded@);
        }
        Ok(SendStatus::Sent)
    }

    /// Closes the producer half: once the queue drains, the consumer sees
    /// end of stream.
    pub fn close(self, st: &mut ChannelState)
        requires
            old(st).inv(),
        ensures
            final(st).inv(),
            final(st).spec_sender_closed(),
            final(st).spec_receiver_closed() == old(st).spec_receiver_closed(),
            final(st).spec_depth() == old(st).spec_depth(),
            final(st).spec_paused() == old(st).spec_paused(),
            final(st).pending() == old(st).pending(),
            final(st).produced == old(st).produced,
            final(st).consumed == old(st).consumed,
            final(st).discarded == old(st).discarded,
    {
        st.sender_closed = true;
    }
}

/// Outcome of one consumer step.
pub enum RecvStatus {
    /// The stop flag was observed: end of stream, nothing was touched.
    Stopped,
    /// The oldest pending packet, and whether this dequeue cleared the
    /// producer's pause (the caller must then wake the producer).
    Delivered { pkt: Packet, resumed: bool },
    /// The queue is empty but the producer half is still open: the caller
    /// must wait for a send.
    Empty,
    /// The queue is empty and the producer half is closed: end of stream.
    Closed,
}

/// Receiver side of a channel.
pub struct Rx {
    /// A pause in force is cleared when a dequeue brings the channel depth
    /// below this many packets.
    pub watermark_lo: u64,
}

/// Iterator-style consumer for reading packets.
pub struct IntoRxIter {
    /// Receiver half of the channel.
    pub rx: Rx,
}

impl Rx {
    /// Wraps the receiver for iteration.
    pub fn into_iter(self) -> (r: IntoRxIter)
        ensures
            r.rx.watermark_lo == self.watermark_lo,
    {
        IntoRxIter { rx: self }
    }

    /// Closes the consumer half: pending packets are discarded, the depth
    /// counter is zeroed and any pause is cleared, so a paused producer can
    /// resume and observe the closed channel on its next send.
    pub fn close(self, st: &mut ChannelState)
        requires
            old(st).inv(),
        ensures
            final(st).inv(),
            final(st).spec_receiver_closed(),
            final(st).spec_depth() == 0,
            !final(st).spec_paused(),
            final(st).produced == old(st).produced,
            final(st).consumed == old(st).consumed,
            final(st).discarded@ == old(st).discarded@ + old(st).pending(),
    {
        st.packets = 0;
        st.paused = false;
        st.receiver_closed = true;
        let mut drained: Vec<Packet> = Vec::new();
        core::mem::swap(&mut st.buf, &mut drained);
        st.discarded = Ghost(st.discarded@ + views_of(drained@));
        proof {
            assert(views_of(st.buf@) =~= Seq::<PacketModel>::empty());
            assert(st.produced@ =~= st.consumed@ + views_of(st.buf@) + st.discarded@);
        }
    }
}

impl IntoRxIter {
    /// One consumer step. With `stop` set it yields end of stream at once,
    /// without draining the queue. Otherwise it takes the oldest pending
    /// packet, decrements the depth and, when a pause is in force and the
    /// depth has fallen below the low watermark, clears the pause and
    /// reports `resumed` so the caller can wake the producer.
    pub fn next(&self, st: &mut ChannelState, stop: bool) -> (r: RecvStatus)
        requires
            old(st).inv(),
        ensures
            final(st).inv(),
            final(st).produced == old(st).produced,
            final(st).discarded == old(st).discarded,
            final(st).spec_sender_closed() == old(st).spec_sender_closed(),
            final(st).spec_receiver_closed() == old(st).spec_receiver_closed(),
            // Prompt cancellation: a set stop flag ends the stream without
            // touching the queue.
            stop ==> r == RecvStatus::Stopped && *final(st) == *old(st),
            !stop && old(st).pending().len() > 0 ==> ({
                &&& r matches RecvStatus::Delivered { pkt, resumed } && pkt@ == old(st).pending()[0]
                    && resumed == (old(st).spec_paused() && final(st).spec_depth()
                    < self.rx.watermark_lo)
                &&& final(st).pending() == old(st).pending().skip(1)
                &&& final(st).spec_depth() == old(st).spec_depth() - 1
                &&& final(st).consumed@ == old(st).consumed@.push(old(st).pending()[0])
                &&& final(st).spec_paused() == (old(st).spec_paused() && final(st).spec_depth()
                    >= self.rx.watermark_lo)
            }),
            !stop && old(st).pending().len() == 0 ==> *final(st) == *old(st),
            !stop && old(st).pending().len() == 0 && old(st).spec_sender_closed() ==> r
                == RecvStatus::Closed,
            !stop && old(st).pending().len() == 0 && !old(st).spec_sender_closed() ==> r
                == RecvStatus::Empty,
            // Watermark invariant, consumer half: when a dequeue clears the
            // pause, the depth has fallen below the low watermark.
            old(st).spec_paused() && !final(st).spec_paused() ==> final(st).spec_depth()
                < self.rx.watermark_lo,
    {
        if stop {
            return RecvStatus::Stopped;
        }
        if st.buf.len() == 0 {
            if st.sender_closed {
                return RecvStatus::Closed;
            }
            return RecvStatus::Empty;
        }
        let pkt = st.buf.remove(0);
        st.packets = st.packets - 1;
        let mut resumed = false;
        if st.packets < self.rx.watermark_lo && st.paused {
            st.paused = false;
            resumed = true;
        }
        st.consumed = Ghost(st.consumed@.push(pkt@));
        proof {
            assert(views_of(st.buf@) =~= views_of(old(st).buf@).skip(1));
            assert(old(st).pending()[0] == pkt@);
            assert(st.produced@ =~= st.consumed@ + views_of(st.buf@) + st.discarded@);
        }
        RecvStatus::Delivered { pkt, resumed }
    }

    /// Closes the consumer half; see [`Rx::close`].
    pub fn close(self, st: &mut ChannelState)
        requires
            old(st).inv(),
        ensures
            final(st).inv(),
            final(st).spec_receiver_closed(),
            final(st).spec_depth() == 0,
            !final(st).spec_paused(),
            final(st).produced == old(st).produced,
            final(st).consumed == old(st).consumed,
            final(st).discarded@ == old(st).discarded@ + old(st).pending(),
    {
        self.rx.close(st);
    }
}

/// Creates a channel, returning [`Tx`], [`Rx`] and the shared state for a
/// channel that lets `hi` packets queue up. When `hi` packets are queued,
/// [`Tx::write_packet`] reports a pause that lasts until the consumer has
/// drained the queue below `lo` packets.
pub fn create(hi: u64, lo: u64) -> (r: (Tx, Rx, ChannelState))
    requires
        lo < hi,
    ensures
        r.0.watermark_hi == hi,
        r.1.watermark_lo == lo,
        r.2.inv(),
        r.2.spec_depth() == 0,
        !r.2.spec_paused(),
        !r.2.spec_sender_closed(),
        !r.2.spec_receiver_closed(),
        r.2.pending().len() == 0,
        r.2.produced@.len() == 0,
        r.2.consumed@.len() == 0,
        r.2.discarded@.len() == 0,
{
    let st = ChannelState {
        buf: Vec::new(),
        packets: 0,
        paused: false,
        sender_closed: false,
        receiver_closed: false,
        produced: Ghost(Seq::empty()),
        consumed: Ghost(Seq::empty()),
        discarded: Ghost(Seq::empty()),
    };
    proof {
        assert(st.produced@ =~= st.consumed@ + views_of(st.buf@) + st.discarded@);
    }
    (Tx { watermark_hi: hi }, Rx { watermark_lo: lo }, st)
}

} // verus!
