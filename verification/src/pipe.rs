//! The pipeline: reader side, writer side, and a sequential driver.
//!
//! The reader repeatedly takes packets from an input pass and commits them
//! to the channel, honouring a global packet limit and a looping flag. The
//! writer drains the channel, asks the delayer for a pre-write sleep,
//! hands the frame to the sink and updates the statistics. [`replay`] runs
//! both sides in one thread with a virtual clock, interleaving them the
//! way the watermark protocol dictates: the producer runs until it is
//! paused, the consumer until the pause clears. An unverified shell can
//! instead run the two sides on real threads, using these same step
//! functions under a lock.

use vstd::prelude::*;

use crate::channel::{create, views_of, ChannelState, IntoRxIter, RecvStatus, SendStatus, Tx};
use crate::delay::{lemma_run_delay_concat, lemma_run_delay_snoc, run_delay, sat64, wait_len, Delay};
use crate::input::{Packet, PacketModel};
use crate::output::{PacketWriter, WriteError};
use crate::stats::Stats;

verus! {

/// The frame bytes of a sequence of packet models, in order.
pub open spec fn datas(s: Seq<PacketModel>) -> Seq<Seq<u8>> {
    s.map_values(|p: PacketModel| p.data)
}

/// How many write attempts a run has been charged with.
pub open spec fn counts(s: Stats) -> int {
    s.packets + s.invalid
}

/// Reader-side bookkeeping: the looping flag, the global packet limit, and
/// how far the reader has come.
pub struct ReaderProgress {
    /// Re-open and replay the input when a pass ends.
    pub loop_file: bool,
    /// Stop after this many packets over all passes.
    pub limit: Option<usize>,
    /// Packets committed to the channel so far, over all passes.
    pub sent: usize,
    /// Whether the input has been opened successfully at least once while
    /// looping.
    pub opened: bool,
}

impl ReaderProgress {
    /// The count never runs past the limit.
    pub open spec fn wf(&self) -> bool {
        match self.limit {
            Option::Some(l) => self.sent <= l,
            Option::None => true,
        }
    }

    /// Whether the limit has been reached.
    pub open spec fn limit_reached(&self) -> bool {
        match self.limit {
            Option::Some(l) => self.sent >= l,
            Option::None => false,
        }
    }

    /// Fresh bookkeeping for a run.
    pub fn new(loop_file: bool, limit: Option<usize>) -> (r: ReaderProgress)
        ensures
            r.wf(),
            r.loop_file == loop_file,
            r.limit == limit,
            r.sent == 0,
            r.opened == false,
    {
        ReaderProgress { loop_file, limit, sent: 0, opened: false }
    }

    /// Records that the input was opened. Only a looping reader cares: a
    /// later failure to re-open is then a normal end of stream.
    pub fn record_open(&mut self)
        ensures
            final(self).opened == (old(self).loop_file || old(self).opened),
            final(self).loop_file == old(self).loop_file,
            final(self).limit == old(self).limit,
            final(self).sent == old(self).sent,
    {
        if self.loop_file {
            self.opened = true;
        }
    }

    /// Whether a failure to open the input ends the run gracefully: it
    /// does when the reader loops and has already read the input once
    /// (the file was removed mid-run), otherwise the failure is fatal.
    pub fn open_failure_is_graceful(&self) -> (r: bool)
        ensures
            r == (self.loop_file && self.opened),
    {
        self.loop_file && self.opened
    }

    /// How many packets the current pass may still produce: the remainder
    /// of the limit, or none when the reader is unlimited.
    pub fn pass_budget(&self) -> (r: Option<usize>)
        requires
            self.wf(),
        ensures
            match self.limit {
                Option::Some(l) => r == Some((l - self.sent) as usize),
                Option::None => r is None,
            },
    {
        match self.limit {
            Some(l) => Some(l - self.sent),
            None => None,
        }
    }

    /// Counts `k` packets committed during the current pass.
    pub fn record_sent(&mut self, k: usize)
        requires
            old(self).wf(),
            match old(self).limit {
                Option::Some(l) => old(self).sent + k <= l,
                Option::None => old(self).sent + k <= usize::MAX,
            },
        ensures
            final(self).wf(),
            final(self).sent == old(self).sent + k,
            final(self).loop_file == old(self).loop_file,
            final(self).limit == old(self).limit,
            final(self).opened == old(self).opened,
    {
        self.sent = self.sent + k;
    }

    /// Whether another pass should follow the one that just ended: only
    /// when looping, not stopped, and still under the limit.
    pub fn should_continue(&self, stop: bool) -> (r: bool)
        ensures
            r == (self.loop_file && !stop && !self.limit_reached()),
    {
        if !self.loop_file || stop {
            return false;
        }
        match self.limit {
            Some(l) => self.sent < l,
            None => true,
        }
    }
}

/// Progress of one producer burst: how many packets were committed, and
/// the packets that remain because the channel paused first.
pub struct ReadProgress {
    /// Packets committed to the channel by this burst.
    pub sent: usize,
    /// The packets not yet committed, oldest first; empty when the burst
    /// finished its input.
    pub rest: Vec<Packet>,
}

/// Reads packets from the given input and commits them to the channel in
/// order, until the input is exhausted or the channel pauses the
/// producer.
///
/// On a pause the unsent packets are handed back: the caller must wait
/// until the pause clears and call again with the rest. When the consumer
/// half of the channel is gone the burst fails with
/// [`crate::channel::ChannelError::Send`] and the remaining packets are
/// dropped, ending the reader.
#[verifier::loop_isolation(false)]
pub fn read_packets_to(input: Vec<Packet>, tx: &Tx, st: &mut ChannelState) -> (r: Result<
    ReadProgress,
    crate::channel::ChannelError,
>)
    requires
        old(st).inv(),
    ensures
        final(st).inv(),
        final(st).consumed == old(st).consumed,
        final(st).discarded == old(st).discarded,
        final(st).spec_sender_closed() == old(st).spec_sender_closed(),
        final(st).spec_receiver_closed() == old(st).spec_receiver_closed(),
        match r {
            Result::Ok(p) => {
                &&& p.sent <= input@.len()
                &&& views_of(p.rest@) == views_of(input@).skip(p.sent as int)
                &&& final(st).produced@ == old(st).produced@ + views_of(input@).take(p.sent as int)
                &&& final(st).pending() == old(st).pending() + views_of(input@).take(p.sent as int)
                &&& (p.sent < input@.len() ==> final(st).spec_paused())
                &&& (!final(st).spec_paused() ==> p.sent == input@.len())
                &&& (!old(st).spec_paused() && p.sent < input@.len() ==> old(st).spec_depth()
                    + p.sent >= tx.watermark_hi)
            },
            Result::Err(_) => old(st).spec_receiver_closed() && *final(st) == *old(st),
        },
{
    let mut rest = input;
    let ghost orig = rest@;
    let total = rest.len();
    proof {
        assert(orig.len() == total as int);
    }
    let mut sent: usize = 0;
    loop
        invariant
            st.inv(),
            orig.len() <= usize::MAX,
            sent + rest@.len() == orig.len(),
            views_of(rest@) == views_of(orig).skip(sent as int),
            st.produced@ == old(st).produced@ + views_of(orig).take(sent as int),
            st.pending() == old(st).pending() + views_of(orig).take(sent as int),
            st.consumed == old(st).consumed,
            st.discarded == old(st).discarded,
            st.spec_sender_closed() == old(st).spec_sender_closed(),
            st.spec_receiver_closed() == old(st).spec_receiver_closed(),
            st.spec_receiver_closed() ==> sent == 0 && *st == *old(st),
            !old(st).spec_paused() ==> !st.spec_paused(),
            !old(st).spec_paused() ==> st.spec_depth() == old(st).spec_depth() + sent,
        decreases rest@.len(),
    {
        if rest.len() == 0 {
            return Ok(ReadProgress { sent, rest });
        }
        let ghost prev = rest@;
        let pkt = rest.remove(0);
        proof {
            assert(views_of(prev)[0] == pkt@);
            assert(pkt@ == views_of(orig)[sent as int]);
        }
        match tx.write_packet(st, pkt) {
            Ok(SendStatus::Sent) => {
                sent = sent + 1;
                proof {
                    assert forall|i: int| 0 <= i < rest@.len() implies views_of(rest@)[i]
                        == views_of(orig).skip(sent as int)[i] by {
                        assert(rest@[i] == prev[i + 1]);
                        assert(views_of(prev)[i + 1] == prev[i + 1]@);
                        assert(views_of(prev)[i + 1] == views_of(orig).skip(sent as int - 1)[i
                            + 1]);
                    }
                    assert(views_of(rest@) =~= views_of(orig).skip(sent as int));
                    assert(views_of(orig).take(sent as int) =~= views_of(orig).take(
                        sent as int - 1,
                    ).push(views_of(orig)[sent as int - 1]));
                    assert(st.produced@ =~= old(st).produced@ + views_of(orig).take(sent as int));
                    assert(st.pending() =~= old(st).pending() + views_of(orig).take(sent as int));
                }
            },
            Ok(SendStatus::Blocked(p)) => {
                rest.insert(0, p);
                proof {
                    assert(rest@ =~= prev);
                    assert(views_of(rest@) =~= views_of(prev));
                }
                return Ok(ReadProgress { sent, rest });
            },
            Err(e) => {
                proof {
                    assert(sent == 0);
                    assert(views_of(orig).take(0) =~= Seq::<PacketModel>::empty());
                    assert(st.produced@ =~= old(st).produced@);
                    assert(st.pending() =~= old(st).pending());
                }
                return Err(e);
            },
        }
    }
}

/// Outcome of one consumer step of the sequential driver.
pub enum StepOutcome {
    /// One packet was taken from the channel and handed to the sink.
    Consumed,
    /// The stop flag ended the stream.
    Stopped,
    /// The queue is empty but the producer half is still open.
    Empty,
    /// The queue is empty and the producer half is closed.
    Closed,
}

/// Whether the simulated stop flag has turned true: it does once the
/// number of write attempts reaches `stop_at`.
pub open spec fn spec_stopped(stop_at: Option<usize>, wrote: usize) -> bool {
    match stop_at {
        Option::Some(s) => wrote >= s,
        Option::None => false,
    }
}

/// Evaluates the simulated stop flag.
pub fn is_stopped(stop_at: Option<usize>, wrote: usize) -> (r: bool)
    ensures
        r == spec_stopped(stop_at, wrote),
{
    match stop_at {
        Some(s) => wrote >= s,
        None => false,
    }
}

/// One writer step: takes the oldest packet from the channel, sleeps the
/// delayer's wait on the virtual clock, hands the frame to the sink and
/// updates the statistics. A sink error is stored in `werr` and charged to
/// no counter; any other outcome is counted, and a periodic summary that
/// falls due is appended to `reports`.
fn consume_one<W: PacketWriter>(
    iter: &IntoRxIter,
    st: &mut ChannelState,
    stop: bool,
    delay: &mut Delay,
    stats: &mut Stats,
    output: &mut W,
    now: &mut u64,
    wrote: &mut usize,
    werr: &mut Option<WriteError>,
    reports: &mut Vec<String>,
) -> (r: StepOutcome)
    requires
        old(st).inv(),
        old(delay).wf(),
        *old(werr) is None,
        counts(*old(stats)) == *old(wrote) as int,
        *old(wrote) < usize::MAX,
    ensures
        final(st).inv(),
        final(delay).wf(),
        final(st).produced == old(st).produced,
        final(st).discarded == old(st).discarded,
        final(st).spec_sender_closed() == old(st).spec_sender_closed(),
        final(st).spec_receiver_closed() == old(st).spec_receiver_closed(),
        *final(now) >= *old(now),
        counts(*final(stats)) == *final(wrote) as int,
        final(stats).start == old(stats).start,
        final(stats).interval == old(stats).interval,
        *final(wrote) <= *old(wrote) + 1,
        stop ==> ({
            &&& r == StepOutcome::Stopped
            &&& *final(st) == *old(st)
            &&& *final(stats) == *old(stats)
            &&& *final(wrote) == *old(wrote)
            &&& *final(werr) is None
            &&& *final(delay) == *old(delay)
            &&& *final(now) == *old(now)
        }),
        !stop && old(st).pending().len() == 0 ==> ({
            &&& *final(st) == *old(st)
            &&& *final(stats) == *old(stats)
            &&& *final(wrote) == *old(wrote)
            &&& *final(werr) is None
            &&& *final(delay) == *old(delay)
            &&& *final(now) == *old(now)
            &&& r == (if old(st).spec_sender_closed() {
                StepOutcome::Closed
            } else {
                StepOutcome::Empty
            })
        }),
        !stop && old(st).pending().len() > 0 ==> ({
            &&& r == StepOutcome::Consumed
            &&& final(st).consumed@ == old(st).consumed@.push(old(st).pending()[0])
            &&& *final(delay) == Delay::stepped(*old(delay), *old(now), old(st).pending()[0])
            &&& *final(now) == sat64(*old(now) + wait_len(
                Delay::spec_wait(*old(delay), *old(now), old(st).pending()[0]),
            ))
            &&& final(st).pending() == old(st).pending().skip(1)
            &&& final(st).spec_depth() == old(st).spec_depth() - 1
            &&& final(st).spec_paused() == (old(st).spec_paused() && final(st).spec_depth()
                >= iter.rx.watermark_lo)
            &&& (*final(werr) is None ==> *final(wrote) == *old(wrote) + 1)
            &&& (*final(werr) is Some ==> *final(wrote) == *old(wrote) && *final(stats) == *old(stats))
        }),
        old(st).spec_paused() && !final(st).spec_paused() ==> final(st).spec_depth()
            < iter.rx.watermark_lo,
{
    match iter.next(st, stop) {
        RecvStatus::Stopped => StepOutcome::Stopped,
        RecvStatus::Empty => StepOutcome::Empty,
        RecvStatus::Closed => StepOutcome::Closed,
        RecvStatus::Delivered { pkt, resumed: _ } => {
            let wait = delay.wait_time_for(*now, &pkt);
            if let Some(d) = wait {
                *now = now.saturating_add(d);
            }
            match output.write_raw(pkt.data.as_slice()) {
                Ok(n) => {
                    *wrote = *wrote + 1;
                    proof {
                        assert(usize::MAX as int <= u64::MAX as int);
                    }
                    let report = stats.update(n as u64, *now);
                    if let Some(line) = report {
                        reports.push(line);
                    }
                },
                Err(e) => {
                    *werr = Some(e);
                },
            }
            StepOutcome::Consumed
        },
    }
}

/// Outcome of draining the channel.
pub enum DrainOutcome {
    /// The producer half is closed and every pending packet was written:
    /// normal end of stream.
    Finished,
    /// The stop flag ended the drain; pending packets were not drained.
    Stopped,
    /// The sink reported an error, which aborted the writer loop.
    Failed,
    /// The queue is empty but the producer half is still open.
    WouldBlock,
}

/// Writes packets from the channel to the sink until the stream ends,
/// using the delayer to pace the writes on the virtual clock `now` and
/// recording every attempt in the statistics.
///
/// The drain ends at end of stream ([`DrainOutcome::Finished`]), when the
/// stop flag turns true ([`DrainOutcome::Stopped`]), on a sink error,
/// stored in `werr` ([`DrainOutcome::Failed`]), or when the queue runs
/// empty while the producer is still at work
/// ([`DrainOutcome::WouldBlock`]).
#[verifier::loop_isolation(false)]
pub fn write_packets<W: PacketWriter>(
    iter: &IntoRxIter,
    st: &mut ChannelState,
    output: &mut W,
    delay: &mut Delay,
    stats: &mut Stats,
    now: &mut u64,
    wrote: &mut usize,
    werr: &mut Option<WriteError>,
    reports: &mut Vec<String>,
    stop_at: Option<usize>,
) -> (r: DrainOutcome)
    requires
        old(st).inv(),
        old(delay).wf(),
        *old(werr) is None,
        counts(*old(stats)) == *old(wrote) as int,
        *old(wrote) + old(st).pending().len() < usize::MAX,
    ensures
        final(st).inv(),
        final(delay).wf(),
        final(st).produced == old(st).produced,
        final(st).discarded == old(st).discarded,
        final(st).spec_sender_closed() == old(st).spec_sender_closed(),
        final(st).spec_receiver_closed() == old(st).spec_receiver_closed(),
        *final(now) >= *old(now),
        counts(*final(stats)) == *final(wrote) as int,
        final(stats).start == old(stats).start,
        final(stats).interval == old(stats).interval,
        ({
            let k = final(st).consumed@.len() - old(st).consumed@.len();
            &&& 0 <= k <= old(st).pending().len()
            &&& final(st).consumed@ == old(st).consumed@ + old(st).pending().take(k)
            &&& final(st).pending() == old(st).pending().skip(k)
            &&& (*final(delay), *final(now)) == run_delay(
                *old(delay),
                *old(now),
                old(st).pending().take(k),
            )
            &&& *final(wrote) as int + (if *final(werr) is Some {
                1int
            } else {
                0int
            }) == *old(wrote) as int + k
        }),
        *old(wrote) <= *final(wrote),
        r == DrainOutcome::Failed <==> *final(werr) is Some,
        r == DrainOutcome::Finished ==> final(st).pending().len() == 0 && final(st).spec_sender_closed(),
        r == DrainOutcome::WouldBlock ==> final(st).pending().len() == 0 && !final(st).spec_sender_closed(),
        r == DrainOutcome::Stopped ==> spec_stopped(stop_at, *final(wrote)),
        old(st).spec_paused() && !final(st).spec_paused() ==> final(st).spec_depth()
            < iter.rx.watermark_lo,
{
    let ghost base_pending = old(st).pending();
    let ghost mut k: int = 0;
    proof {
        assert(base_pending.take(0) =~= Seq::<PacketModel>::empty());
    }
    loop
        invariant
            st.inv(),
            delay.wf(),
            *werr is None,
            counts(*stats) == *wrote as int,
            stats.start == old(stats).start,
            stats.interval == old(stats).interval,
            st.produced == old(st).produced,
            st.discarded == old(st).discarded,
            st.spec_sender_closed() == old(st).spec_sender_closed(),
            st.spec_receiver_closed() == old(st).spec_receiver_closed(),
            *now >= *old(now),
            0 <= k <= base_pending.len(),
            st.consumed@ == old(st).consumed@ + base_pending.take(k),
            st.pending() == base_pending.skip(k),
            *wrote == *old(wrote) + k,
            (*delay, *now) == run_delay(*old(delay), *old(now), base_pending.take(k)),
            old(st).spec_paused() && !st.spec_paused() ==> st.spec_depth() < iter.rx.watermark_lo,
            st.spec_paused() ==> old(st).spec_paused(),
        decreases st.pending().len(),
    {
        if is_stopped(stop_at, *wrote) {
            return DrainOutcome::Stopped;
        }
        let ghost pre = *st;
        match consume_one(iter, st, false, delay, stats, output, now, wrote, werr, reports) {
            StepOutcome::Consumed => {
                proof {
                    k = k + 1;
                    assert(pre.pending()[0] == base_pending[k - 1]);
                    assert(st.consumed@ =~= old(st).consumed@ + base_pending.take(k));
                    assert(st.pending() =~= base_pending.skip(k));
                    assert(base_pending.take(k) =~= base_pending.take(k - 1).push(
                        base_pending[k - 1],
                    ));
                    lemma_run_delay_snoc(
                        *old(delay),
                        *old(now),
                        base_pending.take(k - 1),
                        base_pending[k - 1],
                    );
                }
                if werr.is_some() {
                    return DrainOutcome::Failed;
                }
            },
            StepOutcome::Empty => {
                return DrainOutcome::WouldBlock;
            },
            StepOutcome::Closed => {
                return DrainOutcome::Finished;
            },
            StepOutcome::Stopped => {
                proof {
                    assert(false);
                }
            },
        }
    }
}

/// The first `n` packets of an input pass replayed cyclically: packet `i`
/// is the pass's packet `i` modulo the pass length.
pub open spec fn cyclic_take(s: Seq<PacketModel>, n: int) -> Seq<PacketModel>
    recommends
        n == 0 || s.len() > 0,
{
    Seq::new(n as nat, |i: int| s[i % (s.len() as int)])
}

/// How many packets a run is due to produce: the limit when looping, the
/// shorter of pass and limit otherwise, the whole pass when unlimited.
pub open spec fn planned_count(pass_len: int, loop_file: bool, limit: Option<usize>) -> int {
    match limit {
        Option::Some(l) => if loop_file {
            l as int
        } else if pass_len < l {
            pass_len
        } else {
            l as int
        },
        Option::None => pass_len,
    }
}

/// Stepping a cyclic index: adding one and wrapping at the pass length
/// matches the remainder of the count.
proof fn lemma_mod_step(a: int, n: int)
    requires
        n > 0,
        a >= 0,
    ensures
        (a + 1) % n == if a % n + 1 == n {
            0int
        } else {
            a % n + 1
        },
{
    vstd::arithmetic::div_mod::lemma_fundamental_div_mod(a, n);
    vstd::arithmetic::div_mod::lemma_mod_bound(a, n);
    if a % n + 1 == n {
        assert(a + 1 == (a / n + 1) * n + 0) by (nonlinear_arith)
            requires
                a == n * (a / n) + a % n,
                a % n + 1 == n,
        ;
        vstd::arithmetic::div_mod::lemma_fundamental_div_mod_converse(a + 1, n, a / n + 1, 0);
    } else {
        assert(a + 1 == (a / n) * n + (a % n + 1)) by (nonlinear_arith)
            requires
                a == n * (a / n) + a % n,
        ;
        vstd::arithmetic::div_mod::lemma_fundamental_div_mod_converse(a + 1, n, a / n, a % n + 1);
    }
}

/// What one run of the engine did.
pub struct PipeRun {
    /// The final statistics; their clock started at the run's start.
    pub stats: Stats,
    /// Write attempts the sink accepted (with any byte count).
    pub wrote: usize,
    /// How many times the producer entered a pause.
    pub pauses: usize,
    /// The highest channel depth the run reached.
    pub max_depth: u64,
    /// The stop flag ended the run before the input was done.
    pub stopped: bool,
    /// The sink error that aborted the writer loop, if one did.
    pub write_error: Option<WriteError>,
    /// Periodic summaries that fell due during the run, in order.
    pub reports: Vec<String>,
    /// Virtual microseconds from the start of the run to its end.
    pub elapsed: u64,
    /// The frames taken from the channel and handed to the sink, in
    /// order.
    pub attempted: Ghost<Seq<Seq<u8>>>,
}

impl PipeRun {
    /// A run completed when neither the stop flag nor a sink error ended
    /// it early.
    pub open spec fn spec_completed(&self) -> bool {
        !self.stopped && self.write_error is None
    }

    /// Whether the run completed; see [`PipeRun::spec_completed`].
    pub fn completed(&self) -> (r: bool)
        ensures
            r == self.spec_completed(),
    {
        !self.stopped && self.write_error.is_none()
    }
}

/// Replays an input pass through a watermark channel to the sink, in one
/// thread with a virtual clock, and reports what happened.
///
/// The producer commits packets until the channel pauses it; the consumer
/// then drains packets — sleeping each delayer wait on the virtual clock
/// and recording each attempt — until the pause clears, exactly as the
/// watermark protocol prescribes. With `loop_file` the pass is replayed
/// again each time it ends, and `limit` bounds the total number of
/// packets over all passes. Once `stop_at` write attempts have been
/// accepted the stop flag turns true: the reader stops producing and the
/// consumer ends without draining what is still queued, as on a signal.
///
/// The low watermark must be at least one: a pause only clears when the
/// depth falls below `lo`, and a depth cannot fall below zero, so with a
/// zero low watermark a paused producer would never resume.
#[verifier::loop_isolation(false)]
#[verifier::rlimit(100)]
pub fn replay<W: PacketWriter>(
    pass: Vec<Packet>,
    loop_file: bool,
    limit: Option<usize>,
    hi: u64,
    lo: u64,
    delay: Delay,
    stats: Stats,
    output: &mut W,
    stop_at: Option<usize>,
    t0: u64,
) -> (r: PipeRun)
    requires
        1 <= lo < hi,
        delay.wf(),
        loop_file ==> limit is Some,
        loop_file && (limit matches Some(l) && l > 0) ==> pass@.len() > 0,
        pass@.len() < usize::MAX,
        (limit matches Some(l) ==> l < usize::MAX),
    ensures
        ({
            let planned = planned_count(pass@.len() as int, loop_file, limit);
            let pviews = views_of(pass@);
            &&& r.attempted@.len() <= planned
            &&& r.attempted@ == datas(cyclic_take(pviews, r.attempted@.len() as int))
            &&& (r.spec_completed() ==> r.attempted@.len() == planned)
            &&& counts(r.stats) == r.wrote as int
            &&& r.wrote as int + (if r.write_error is Some {
                1int
            } else {
                0int
            }) == r.attempted@.len()
            &&& r.stats.start == t0
            &&& r.max_depth <= hi
            &&& (planned > hi && stop_at != Some(0usize) ==> r.pauses >= 1)
            &&& (r.pauses >= 1 ==> planned > hi)
            &&& (r.stopped ==> spec_stopped(stop_at, r.wrote))
            // The run paces exactly as the strategy dictates: its elapsed
            // virtual time is the pacing trajectory over the frames it
            // wrote, so the proved schedule laws apply to it.
            &&& r.elapsed as int == run_delay(
                Delay::spec_init(delay, t0),
                t0,
                cyclic_take(pviews, r.attempted@.len() as int),
            ).1 - t0
        }),
{
    let ghost pviews = views_of(pass@);
    let pass_len = pass.len();
    let planned: usize = match limit {
        Some(l) => if loop_file {
            l
        } else if pass_len < l {
            pass_len
        } else {
            l
        },
        None => pass_len,
    };
    proof {
        assert(planned as int == planned_count(pass@.len() as int, loop_file, limit));
        assert(usize::MAX as int <= u64::MAX as int);
    }
    let mut stats = stats;
    let mut delay = delay;
    let ghost d0 = Delay::spec_init(delay, t0);
    stats.reset(t0);
    let mut now: u64 = t0;
    delay.init(now);
    let (tx, rx, mut st) = create(hi, lo);
    let iter = rx.into_iter();
    let mut produced: usize = 0;
    let mut idx: usize = 0;
    let mut wrote: usize = 0;
    let mut pauses: usize = 0;
    let mut max_depth: u64 = 0;
    let mut stopped = false;
    let mut werr: Option<WriteError> = None;
    let mut reports: Vec<String> = Vec::new();
    proof {
        assert(st.produced@ =~= cyclic_take(pviews, 0));
        assert(run_delay(d0, t0, st.consumed@) == (d0, t0));
    }
    while produced < planned && !stopped && werr.is_none()
        invariant
            st.inv(),
            delay.wf(),
            !st.spec_receiver_closed(),
            !st.spec_sender_closed(),
            st.discarded@.len() == 0,
            st.produced@ == cyclic_take(pviews, produced as int),
            produced <= planned,
            produced == 0 || pviews.len() > 0,
            loop_file && pviews.len() > 0 ==> idx as int == produced as int % (
            pviews.len() as int),
            !loop_file ==> idx == produced,
            counts(stats) == wrote as int,
            wrote as int + (if werr is Some {
                1int
            } else {
                0int
            }) == st.consumed@.len(),
            st.spec_depth() <= hi,
            max_depth <= hi,
            st.spec_paused() ==> st.spec_depth() >= lo,
            pauses == 0 ==> st.spec_depth() as int == produced as int && wrote == 0 && werr
                is None && !st.spec_paused(),
            pauses >= 1 ==> planned > hi,
            (delay, now) == run_delay(d0, t0, st.consumed@),
            now >= t0,
            stats.start == t0,
            stopped ==> spec_stopped(stop_at, wrote),
        decreases
                (planned - produced) as int,
                (if st.spec_paused() {
                    0int
                } else {
                    1int
                }),
    {
        if st.is_paused() {
            while st.is_paused() && !stopped && werr.is_none()
                invariant
                    st.inv(),
                    delay.wf(),
                    !st.spec_receiver_closed(),
                    !st.spec_sender_closed(),
                    st.discarded@.len() == 0,
                    st.produced@ == cyclic_take(pviews, produced as int),
                    counts(stats) == wrote as int,
                    wrote as int + (if werr is Some {
                        1int
                    } else {
                        0int
                    }) == st.consumed@.len(),
                    st.spec_depth() <= hi,
                    st.spec_paused() ==> st.spec_depth() >= lo,
                    !st.spec_paused() ==> st.spec_depth() < lo,
                    pauses >= 1,
                    planned > hi,
                    (delay, now) == run_delay(d0, t0, st.consumed@),
                    now >= t0,
                    stats.start == t0,
                    stopped ==> spec_stopped(stop_at, wrote),
                decreases
                        st.spec_depth(),
                        (if stopped {
                            0int
                        } else {
                            1int
                        }),
            {
                if is_stopped(stop_at, wrote) {
                    stopped = true;
                } else {
                    proof {
                        assert(st.consumed@.len() <= st.produced@.len());
                        assert(wrote < usize::MAX);
                    }
                    let ghost pre = st;
                    match consume_one(
                        &iter,
                        &mut st,
                        false,
                        &mut delay,
                        &mut stats,
                        output,
                        &mut now,
                        &mut wrote,
                        &mut werr,
                        &mut reports,
                    ) {
                        StepOutcome::Consumed => {
                            proof {
                                lemma_run_delay_snoc(d0, t0, pre.consumed@, pre.pending()[0]);
                            }
                        },
                        StepOutcome::Stopped => {
                            proof {
                                assert(false);
                            }
                        },
                        StepOutcome::Empty => {
                            proof {
                                assert(false);
                            }
                        },
                        StepOutcome::Closed => {
                            proof {
                                assert(false);
                            }
                        },
                    }
                }
            }
        }
        if stopped || werr.is_some() {
            break;
        }
        if is_stopped(stop_at, wrote) {
            stopped = true;
            break;
        }
        let pkt = pass[idx].duplicate();
        proof {
            if loop_file {
                assert(pkt@ == pviews[produced as int % (pviews.len() as int)]);
            } else {
                vstd::arithmetic::div_mod::lemma_small_mod(produced as nat, pviews.len() as nat);
                assert(pkt@ == pviews[produced as int % (pviews.len() as int)]);
            }
        }
        match tx.write_packet(&mut st, pkt) {
            Ok(SendStatus::Sent) => {
                proof {
                    assert(st.produced@ =~= cyclic_take(pviews, produced as int + 1));
                    if loop_file && pviews.len() > 0 {
                        lemma_mod_step(produced as int, pviews.len() as int);
                    }
                }
                produced = produced + 1;
                idx = idx + 1;
                if loop_file && idx == pass_len {
                    idx = 0;
                }
                let d = st.depth();
                if d > max_depth {
                    max_depth = d;
                }
            },
            Ok(SendStatus::Blocked(_back)) => {
                pauses = pauses.saturating_add(1);
            },
            Err(_e) => {
                proof {
                    assert(false);
                }
            },
        }
    }
    tx.close(&mut st);
    if !stopped && werr.is_none() {
        proof {
            assert(st.consumed@.len() <= st.produced@.len());
        }
        let ghost pre = st;
        match write_packets(
            &iter,
            &mut st,
            output,
            &mut delay,
            &mut stats,
            &mut now,
            &mut wrote,
            &mut werr,
            &mut reports,
            stop_at,
        ) {
            DrainOutcome::Finished => {
            },
            DrainOutcome::Stopped => {
                stopped = true;
            },
            DrainOutcome::Failed => {
            },
            DrainOutcome::WouldBlock => {
                proof {
                    assert(false);
                }
            },
        }
        proof {
            lemma_run_delay_concat(d0, t0, pre.consumed@, pre.pending().take(
                st.consumed@.len() - pre.consumed@.len(),
            ));
        }
    }
    let ghost attempted = datas(st.consumed@);
    proof {
        let k = st.consumed@.len() as int;
        assert(st.consumed@ =~= cyclic_take(pviews, produced as int).take(k));
        assert(st.consumed@ =~= cyclic_take(pviews, k));
    }
    iter.close(&mut st);
    let elapsed = now - t0;
    PipeRun {
        stats,
        wrote,
        pauses,
        max_depth,
        stopped,
        write_error: werr,
        reports,
        elapsed,
        attempted: Ghost(attempted),
    }
}

} // verus!
