//! Rate-shaping strategies.
//!
//! A delayer is asked, once per packet and before the packet is written,
//! how long the writer should sleep first. All times are microseconds:
//! `now` is a monotonic clock reading supplied by the caller, a returned
//! wait is a duration. Four strategies exist: no delay, original capture
//! timing, constant packets per second, and constant bits per second.

use vstd::prelude::*;

use crate::config::Rate;
use crate::input::{Packet, PacketModel};

verus! {

/// Saturates a nonnegative mathematical value into a `u64`.
pub open spec fn sat64(v: int) -> u64
    recommends
        v >= 0,
{
    if v > u64::MAX {
        u64::MAX
    } else {
        (if v < 0 {
            0
        } else {
            v
        }) as u64
    }
}

/// Microseconds elapsed from `start` to `now`, zero when the clock reads
/// earlier than `start`.
pub open spec fn elapsed_since(start: u64, now: u64) -> int {
    if now >= start {
        now - start
    } else {
        0
    }
}

/// Delayer which sends every packet immediately.
pub struct NoDelay {}

impl NoDelay {
    /// Returns a full-speed delayer.
    pub fn new() -> (r: NoDelay) {
        NoDelay {  }
    }

    /// Initializes this delayer; nothing to record.
    pub fn init(&mut self) {
    }

    /// Never asks for a wait.
    pub fn wait_time_for(&mut self) -> (r: Option<u64>)
        ensures
            r is None,
    {
        None
    }
}

/// The wait the original-timing strategy computes: the gap between the
/// packet's capture time and its predecessor's, none for the first packet
/// or when the capture clock jumped backwards.
pub open spec fn rate_wait(last: Option<u64>, when: u64) -> Option<u64> {
    match last {
        Option::None => Option::None,
        Option::Some(t) => if when >= t {
            Option::Some((when - t) as u64)
        } else {
            Option::None
        },
    }
}

/// Delayer which replays packets with their original inter-arrival timing,
/// taken from the capture timestamps.
pub struct PacketRateDelay {
    /// Capture timestamp of the packet most recently asked about.
    pub last_packet: Option<u64>,
}

impl PacketRateDelay {
    /// Returns a new original-timing delayer.
    pub fn new() -> (r: PacketRateDelay)
        ensures
            r.last_packet is None,
    {
        PacketRateDelay { last_packet: None }
    }

    /// Initializes this delayer; nothing to record.
    pub fn init(&mut self)
        ensures
            *final(self) == *old(self),
    {
    }

    /// First packet of a run never waits; a later packet waits for the gap
    /// between its capture time and its predecessor's, and a backward jump
    /// of the capture clock yields no wait. Packets with equal timestamps
    /// get a zero wait.
    pub fn wait_time_for(&mut self, pkt: &Packet) -> (r: Option<u64>)
        ensures
            r == rate_wait(old(self).last_packet, pkt.when),
            final(self).last_packet == Some(pkt.when),
    {
        let ret = match self.last_packet {
            None => None,
            Some(t) => if pkt.when >= t {
                Some(pkt.when - t)
            } else {
                None
            },
        };
        self.last_packet = Some(pkt.when);
        ret
    }
}

/// The wait the constant-packet-rate strategy computes before packet
/// number `k` (counting from zero): nothing for the first packet, and for
/// the rest the remainder of the schedule `start + k * 1_000_000 / pps`
/// over what has already elapsed.
pub open spec fn pps_wait(k: u64, pps: u64, start: u64, now: u64) -> Option<u64>
    recommends
        pps >= 1,
{
    if k == 0 {
        Option::None
    } else {
        let est = k * 1_000_000 / pps as int;
        let elapsed = elapsed_since(start, now);
        if est > elapsed {
            Option::Some(sat64(est - elapsed))
        } else {
            Option::None
        }
    }
}

/// Delayer which writes packets at a constant rate of packets per second.
pub struct PpsDelay {
    /// Clock reading when the run started.
    pub start: u64,
    /// How many packets have been asked about so far.
    pub packets: u64,
    /// Target rate, packets per second; at least 1.
    pub pps: u64,
}

impl PpsDelay {
    /// The target rate is meaningful.
    pub open spec fn wf(&self) -> bool {
        self.pps >= 1
    }

    /// Returns a new constant-packet-rate delayer with the given target
    /// rate. The start instant is recorded by [`PpsDelay::init`].
    pub fn new(pps: u32) -> (r: PpsDelay)
        requires
            pps >= 1,
        ensures
            r.wf(),
            r.start == 0,
            r.packets == 0,
            r.pps == pps as u64,
    {
        PpsDelay { start: 0, packets: 0, pps: pps as u64 }
    }

    /// Records the start of the run.
    pub fn init(&mut self, now: u64)
        ensures
            final(self).start == now,
            final(self).packets == old(self).packets,
            final(self).pps == old(self).pps,
    {
        self.start = now;
    }

    /// Returns how long to wait before writing the next packet, and counts
    /// it. The packet counter saturates rather than wrap.
    pub fn wait_time_for(&mut self, now: u64) -> (r: Option<u64>)
        requires
            old(self).wf(),
        ensures
            final(self).wf(),
            final(self).start == old(self).start,
            final(self).pps == old(self).pps,
            final(self).packets == sat64(old(self).packets + 1),
            r == pps_wait(old(self).packets, old(self).pps, old(self).start, now),
    {
        if self.packets == 0 {
            self.packets = 1;
            return None;
        }
        let elapsed: u64 = if now >= self.start {
            now - self.start
        } else {
            0
        };
        let est: u128 = (self.packets as u128) * 1_000_000 / (self.pps as u128);
        self.packets = self.packets.saturating_add(1);
        if est > elapsed as u128 {
            let d: u128 = est - elapsed as u128;
            Some(
                if d > u64::MAX as u128 {
                    u64::MAX
                } else {
                    d as u64
                },
            )
        } else {
            None
        }
    }
}

/// The wait the constant-bit-rate strategy computes: how far the time the
/// bits sent so far should have taken, `bits * 1_000_000 / bps`, runs ahead
/// of what has elapsed. The accounting point is before the current packet,
/// so the first packet never waits.
pub open spec fn bps_wait(bits_sent: u64, bps: u64, start: u64, now: u64) -> Option<u64>
    recommends
        bps >= 1,
{
    let est = bits_sent * 1_000_000 / bps as int;
    let elapsed = elapsed_since(start, now);
    if est > elapsed {
        Option::Some(sat64(est - elapsed))
    } else {
        Option::None
    }
}

/// Delayer which writes packets at a constant rate of bits per second.
pub struct BpsDelay {
    /// Clock reading when the run started.
    pub start: u64,
    /// Bits accounted for so far, 8 per payload byte.
    pub bits_sent: u64,
    /// Target rate, bits per second; at least 1.
    pub bps: u64,
}

impl BpsDelay {
    /// The target rate is meaningful.
    pub open spec fn wf(&self) -> bool {
        self.bps >= 1
    }

    /// Returns a new constant-bit-rate delayer with the given target rate.
    /// The start instant is recorded by [`BpsDelay::init`].
    pub fn new(bps: u64) -> (r: BpsDelay)
        requires
            bps >= 1,
        ensures
            r.wf(),
            r.start == 0,
            r.bits_sent == 0,
            r.bps == bps,
    {
        BpsDelay { start: 0, bits_sent: 0, bps }
    }

    /// Records the start of the run.
    pub fn init(&mut self, now: u64)
        ensures
            final(self).start == now,
            final(self).bits_sent == old(self).bits_sent,
            final(self).bps == old(self).bps,
    {
        self.start = now;
    }

    /// Returns how long to wait before writing the given packet, and adds
    /// the packet's bits to the account. The bit counter saturates rather
    /// than wrap.
    pub fn wait_time_for(&mut self, now: u64, pkt: &Packet) -> (r: Option<u64>)
        requires
            old(self).wf(),
        ensures
            final(self).wf(),
            final(self).start == old(self).start,
            final(self).bps == old(self).bps,
            final(self).bits_sent == sat64(old(self).bits_sent + pkt.data@.len() * 8),
            r == bps_wait(old(self).bits_sent, old(self).bps, old(self).start, now),
    {
        let elapsed: u64 = if now >= self.start {
            now - self.start
        } else {
            0
        };
        let est: u128 = (self.bits_sent as u128) * 1_000_000 / (self.bps as u128);
        let grown: u128 = self.bits_sent as u128 + (pkt.data.len() as u128) * 8;
        self.bits_sent = if grown > u64::MAX as u128 {
            u64::MAX
        } else {
            grown as u64
        };
        if est > elapsed as u128 {
            let d: u128 = est - elapsed as u128;
            Some(
                if d > u64::MAX as u128 {
                    u64::MAX
                } else {
                    d as u64
                },
            )
        } else {
            None
        }
    }
}

/// The rate-shaping strategy of one pipeline, picked at construction.
pub enum Delay {
    /// Full speed: no inter-packet delay.
    Full(NoDelay),
    /// Original capture timing.
    Delayed(PacketRateDelay),
    /// Constant packets per second.
    Pps(PpsDelay),
    /// Constant bits per second.
    Bps(BpsDelay),
}

impl Delay {
    /// The chosen strategy's own well-formedness.
    pub open spec fn wf(&self) -> bool {
        match self {
            Delay::Full(_) => true,
            Delay::Delayed(_) => true,
            Delay::Pps(d) => d.wf(),
            Delay::Bps(d) => d.wf(),
        }
    }

    /// The wait one query answers for the given packet at clock reading
    /// `now`, by the chosen strategy's own formula.
    pub open spec fn spec_wait(pre: Delay, now: u64, pkt: PacketModel) -> Option<u64> {
        match pre {
            Delay::Full(_) => Option::None,
            Delay::Delayed(d) => rate_wait(d.last_packet, pkt.when as u64),
            Delay::Pps(d) => pps_wait(d.packets, d.pps, d.start, now),
            Delay::Bps(d) => bps_wait(d.bits_sent, d.bps, d.start, now),
        }
    }

    /// The strategy state after one query about the given packet.
    pub open spec fn stepped(pre: Delay, now: u64, pkt: PacketModel) -> Delay {
        match pre {
            Delay::Full(d) => Delay::Full(d),
            Delay::Delayed(_) => Delay::Delayed(
                PacketRateDelay { last_packet: Some(pkt.when as u64) },
            ),
            Delay::Pps(d) => Delay::Pps(PpsDelay { packets: sat64(d.packets + 1), ..d }),
            Delay::Bps(d) => Delay::Bps(
                BpsDelay { bits_sent: sat64(d.bits_sent + pkt.data.len() * 8), ..d },
            ),
        }
    }

    /// What one query answers and how it changes the strategy state, as a
    /// relation from the state before to the state after and the wait.
    pub open spec fn step(pre: Delay, now: u64, pkt: PacketModel, post: Delay, r: Option<
        u64,
    >) -> bool {
        post == Delay::stepped(pre, now, pkt) && r == Delay::spec_wait(pre, now, pkt)
    }

    /// The strategy state after [`Delay::init`] at clock reading `now`.
    pub open spec fn spec_init(pre: Delay, now: u64) -> Delay {
        match pre {
            Delay::Full(d) => Delay::Full(d),
            Delay::Delayed(d) => Delay::Delayed(d),
            Delay::Pps(d) => Delay::Pps(PpsDelay { start: now, ..d }),
            Delay::Bps(d) => Delay::Bps(BpsDelay { start: now, ..d }),
        }
    }

    /// Picks the delayer for a configured rate.
    pub fn for_rate(rate: &Rate) -> (r: Delay)
        requires
            rate.wf(),
        ensures
            r.wf(),
            match rate {
                Rate::Full => r == Delay::Full(NoDelay {  }),
                Rate::Delayed => r == Delay::Delayed(PacketRateDelay { last_packet: None::<u64> }),
                Rate::Pps(p) => r == Delay::Pps(PpsDelay { start: 0, packets: 0, pps: *p as u64 }),
                Rate::Mbps(b) => r == Delay::Bps(BpsDelay { start: 0, bits_sent: 0, bps: *b }),
            },
    {
        match rate {
            Rate::Full => Delay::Full(NoDelay::new()),
            Rate::Delayed => Delay::Delayed(PacketRateDelay::new()),
            Rate::Pps(p) => Delay::Pps(PpsDelay::new(*p)),
            Rate::Mbps(b) => Delay::Bps(BpsDelay::new(*b)),
        }
    }

    /// Initializes the strategy at the start of a run: records the start
    /// instant where the strategy keeps one.
    pub fn init(&mut self, now: u64)
        requires
            old(self).wf(),
        ensures
            final(self).wf(),
            *final(self) == Delay::spec_init(*old(self), now),
    {
        match self {
            Delay::Full(d) => d.init(),
            Delay::Delayed(d) => d.init(),
            Delay::Pps(d) => d.init(now),
            Delay::Bps(d) => d.init(now),
        }
    }

    /// Returns how long the writer should sleep before writing `pkt`,
    /// given the clock reading `now`, and accounts for the packet.
    pub fn wait_time_for(&mut self, now: u64, pkt: &Packet) -> (r: Option<u64>)
        requires
            old(self).wf(),
        ensures
            final(self).wf(),
            Delay::step(*old(self), now, pkt@, *final(self), r),
    {
        match self {
            Delay::Full(d) => d.wait_time_for(),
            Delay::Delayed(d) => d.wait_time_for(pkt),
            Delay::Pps(d) => d.wait_time_for(now),
            Delay::Bps(d) => d.wait_time_for(now, pkt),
        }
    }
}

/// The microseconds a wait asks for; no wait is zero.
pub open spec fn wait_len(w: Option<u64>) -> int {
    match w {
        Option::Some(d) => d as int,
        Option::None => 0,
    }
}

/// The strategy state and virtual clock after querying and sleeping the
/// wait for each packet of `pkts` in turn, starting from `pre` at clock
/// reading `now`: the writer's whole pacing trajectory, folded left to
/// right.
pub open spec fn run_delay(pre: Delay, now: u64, pkts: Seq<PacketModel>) -> (Delay, u64)
    decreases pkts.len(),
{
    if pkts.len() == 0 {
        (pre, now)
    } else {
        let w = Delay::spec_wait(pre, now, pkts[0]);
        run_delay(Delay::stepped(pre, now, pkts[0]), sat64(now + wait_len(w)), pkts.skip(1))
    }
}

/// Extending a pacing trajectory by one packet steps its end state once.
pub proof fn lemma_run_delay_snoc(pre: Delay, now: u64, pkts: Seq<PacketModel>, p: PacketModel)
    ensures
        run_delay(pre, now, pkts.push(p)) == ({
            let end = run_delay(pre, now, pkts);
            let w = Delay::spec_wait(end.0, end.1, p);
            (Delay::stepped(end.0, end.1, p), sat64(end.1 + wait_len(w)))
        }),
    decreases pkts.len(),
{
    let q = pkts.push(p);
    if pkts.len() == 0 {
        assert(q[0] == p);
        assert(q.skip(1) =~= Seq::<PacketModel>::empty());
        let w = Delay::spec_wait(pre, now, p);
        let d1 = Delay::stepped(pre, now, p);
        let n1 = sat64(now + wait_len(w));
        assert(run_delay(pre, now, q) == run_delay(d1, n1, q.skip(1)));
        assert(run_delay(d1, n1, q.skip(1)) == (d1, n1));
    } else {
        assert(q[0] == pkts[0]);
        assert(q.skip(1) =~= pkts.skip(1).push(p));
        let w0 = Delay::spec_wait(pre, now, pkts[0]);
        let d1 = Delay::stepped(pre, now, pkts[0]);
        let n1 = sat64(now + wait_len(w0));
        lemma_run_delay_snoc(d1, n1, pkts.skip(1), p);
        assert(run_delay(pre, now, q) == run_delay(d1, n1, q.skip(1)));
        assert(run_delay(pre, now, pkts) == run_delay(d1, n1, pkts.skip(1)));
    }
}

/// A pacing trajectory splits at any point: running over `a + b` is
/// running over `a` and then over `b` from where `a` ended.
pub proof fn lemma_run_delay_concat(pre: Delay, now: u64, a: Seq<PacketModel>, b: Seq<
    PacketModel,
>)
    ensures
        run_delay(pre, now, a + b) == ({
            let mid = run_delay(pre, now, a);
            run_delay(mid.0, mid.1, b)
        }),
    decreases a.len(),
{
    if a.len() == 0 {
        assert(a + b =~= b);
    } else {
        assert((a + b)[0] == a[0]);
        assert((a + b).skip(1) =~= a.skip(1) + b);
        let w0 = Delay::spec_wait(pre, now, a[0]);
        let d1 = Delay::stepped(pre, now, a[0]);
        let n1 = sat64(now + wait_len(w0));
        lemma_run_delay_concat(d1, n1, a.skip(1), b);
        assert(run_delay(pre, now, a + b) == run_delay(d1, n1, (a + b).skip(1)));
        assert(run_delay(pre, now, a) == run_delay(d1, n1, a.skip(1)));
    }
}

/// One step of the constant-packet-rate schedule: when packet `k` is
/// asked about at the moment packet `k - 1` was written, sleeping the
/// returned wait puts it exactly at `start + k * 1_000_000 / pps` on the
/// clock.
pub proof fn lemma_pps_step(pps: u64, start: u64, k: u64, now: u64)
    requires
        pps >= 1,
        k >= 1,
        now as int == start + (k - 1) * 1_000_000 / (pps as int),
    ensures
        now + wait_len(pps_wait(k, pps, start, now)) == start + k * 1_000_000 / (pps as int),
{
    let p = pps as int;
    let a = (k - 1) * 1_000_000;
    let b = k * 1_000_000;
    let ea = a / p;
    let eb = b / p;
    vstd::arithmetic::div_mod::lemma_div_is_ordered(a, b, p);
    vstd::arithmetic::div_mod::lemma_div_pos_is_pos(a, p);
    vstd::arithmetic::div_mod::lemma_fundamental_div_mod(a, p);
    vstd::arithmetic::div_mod::lemma_fundamental_div_mod(b, p);
    vstd::arithmetic::div_mod::lemma_mod_bound(a, p);
    vstd::arithmetic::div_mod::lemma_mod_bound(b, p);
    assert(eb - ea <= 1_000_000) by (nonlinear_arith)
        requires
            p >= 1,
            a == p * ea + a % p,
            b == p * eb + b % p,
            0 <= a % p < p,
            0 <= b % p < p,
            b == a + 1_000_000,
            ea <= eb,
    ;
    assert(now >= start);
    assert(elapsed_since(start, now) == ea);
}

/// One step of the constant-bit-rate schedule for packets of `size`
/// bytes: before packet `k` the strategy has accounted `k * 8 * size`
/// bits, and when it is asked at the moment packet `k - 1` was written,
/// sleeping the returned wait puts packet `k` exactly at
/// `start + k * (8 * size) * 1_000_000 / bps` on the clock.
pub proof fn lemma_bps_step(bps: u64, start: u64, size: u64, k: u64, now: u64)
    requires
        bps >= 1,
        k >= 1,
        k * 8 * size <= u64::MAX,
        8 * size * 1_000_000 <= u64::MAX,
        now as int == start + (k - 1) * (8 * size) * 1_000_000 / (bps as int),
    ensures
        now + wait_len(bps_wait((k * 8 * size) as u64, bps, start, now)) == start + k * (8 * size)
            * 1_000_000 / (bps as int),
{
    let p = bps as int;
    let a = (k - 1) * (8 * size) * 1_000_000;
    let b = k * (8 * size) * 1_000_000;
    let ea = a / p;
    let eb = b / p;
    assert(a >= 0 && b == a + 8 * size * 1_000_000 && (k * 8 * size) as int * 1_000_000 == b)
        by (nonlinear_arith)
        requires
            k >= 1,
            a == (k - 1) * (8 * size) * 1_000_000,
            b == k * (8 * size) * 1_000_000,
    ;
    vstd::arithmetic::div_mod::lemma_div_is_ordered(a, b, p);
    vstd::arithmetic::div_mod::lemma_div_pos_is_pos(a, p);
    vstd::arithmetic::div_mod::lemma_fundamental_div_mod(a, p);
    vstd::arithmetic::div_mod::lemma_fundamental_div_mod(b, p);
    vstd::arithmetic::div_mod::lemma_mod_bound(a, p);
    vstd::arithmetic::div_mod::lemma_mod_bound(b, p);
    assert(eb - ea <= 8 * size * 1_000_000) by (nonlinear_arith)
        requires
            p >= 1,
            a == p * ea + a % p,
            b == p * eb + b % p,
            0 <= a % p < p,
            0 <= b % p < p,
            b == a + 8 * size * 1_000_000,
            ea <= eb,
    ;
    assert(now >= start);
    assert(elapsed_since(start, now) == ea);
}

/// The emission clock of a constant-packet-rate run with an instant
/// source and sink: packet number `k` is asked about at the moment
/// packet `k - 1` was written, and the writer sleeps exactly the
/// returned wait. Packet 0 goes out at `start` without waiting.
pub open spec fn pps_run(pps: u64, start: u64, k: int) -> int
    recommends
        pps >= 1,
    decreases k,
{
    if k <= 0 {
        start as int
    } else {
        let prev = pps_run(pps, start, k - 1);
        prev + wait_len(pps_wait(k as u64, pps, start, prev as u64))
    }
}

/// Pps law: in a constant-packet-rate run with an instant source and
/// sink, packet `k` goes out exactly at `start + k * 1_000_000 / pps`,
/// so a run of `N` packets spans `(N - 1) * 1_000_000 / pps`
/// microseconds from first write to last.
pub proof fn lemma_pps_law(pps: u64, start: u64, k: int)
    requires
        pps >= 1,
        0 <= k <= u64::MAX,
        start + k * 1_000_000 / (pps as int) <= u64::MAX,
    ensures
        pps_run(pps, start, k) == start + k * 1_000_000 / (pps as int),
    decreases k,
{
    let p = pps as int;
    if k == 0 {
        assert(0int * 1_000_000 == 0);
        assert(0int / p == 0) by (nonlinear_arith)
            requires
                p >= 1,
        ;
    } else {
        vstd::arithmetic::div_mod::lemma_div_is_ordered((k - 1) * 1_000_000, k * 1_000_000, p);
        vstd::arithmetic::div_mod::lemma_div_pos_is_pos((k - 1) * 1_000_000, p);
        lemma_pps_law(pps, start, k - 1);
        lemma_pps_step(pps, start, k as u64, pps_run(pps, start, k - 1) as u64);
    }
}

/// The pacing trajectory of a constant-packet-rate delayer follows the
/// schedule: starting with counter `k0` at the moment packet `k0 - 1`
/// was written, consuming the packets leaves the clock at the emission
/// time of the last one, `pps_run(pps, start, k0 + pkts.len() - 1)`.
#[verifier::rlimit(100)]
pub proof fn lemma_pps_trajectory(pps: u64, start: u64, k0: u64, now: u64, pkts: Seq<PacketModel>)
    requires
        pps >= 1,
        k0 + pkts.len() <= u64::MAX,
        now as int == pps_run(pps, start, k0 as int - 1),
        start + (k0 + pkts.len() as int) * 1_000_000 / (pps as int) <= u64::MAX,
    ensures
        run_delay(Delay::Pps(PpsDelay { start, packets: k0, pps }), now, pkts).1 as int
            == pps_run(pps, start, k0 + pkts.len() as int - 1),
    decreases pkts.len(),
{
    let p = pps as int;
    let kk: int = if k0 == 0 {
        0
    } else {
        k0 as int - 1
    };
    vstd::arithmetic::div_mod::lemma_div_is_ordered(
        kk * 1_000_000,
        (k0 + pkts.len() as int) * 1_000_000,
        p,
    );
    vstd::arithmetic::div_mod::lemma_div_pos_is_pos(kk * 1_000_000, p);
    lemma_pps_law(pps, start, kk);
    if pkts.len() == 0 {
    } else {
        let d = PpsDelay { start, packets: k0, pps };
        let w = Delay::spec_wait(Delay::Pps(d), now, pkts[0]);
        let next = Delay::stepped(Delay::Pps(d), now, pkts[0]);
        let now2 = sat64(now + wait_len(w));
        if k0 == 0 {
            // The first packet never waits: the clock stays at `start`.
            assert(w is None);
            assert(now2 == now);
            assert(pps_run(pps, start, 0) == start as int);
            assert(next == Delay::Pps(PpsDelay { start, packets: 1, pps }));
            lemma_pps_trajectory(pps, start, 1, now2, pkts.skip(1));
        } else {
            vstd::arithmetic::div_mod::lemma_div_is_ordered(
                k0 * 1_000_000,
                (k0 + pkts.len() as int) * 1_000_000,
                p,
            );
            vstd::arithmetic::div_mod::lemma_div_pos_is_pos(k0 * 1_000_000, p);
            lemma_pps_step(pps, start, k0, now);
            lemma_pps_law(pps, start, k0 as int);
            assert(now + wait_len(w) == start + k0 * 1_000_000 / p);
            assert(now2 as int == start + k0 * 1_000_000 / p);
            assert(now2 as int == pps_run(pps, start, k0 as int));
            assert(next == Delay::Pps(PpsDelay { start, packets: sat64(k0 + 1), pps }));
            assert(sat64(k0 + 1) == k0 + 1);
            lemma_pps_trajectory(pps, start, (k0 + 1) as u64, now2, pkts.skip(1));
        }
    }
}

/// Pps law at the engine: a run whose delayer is the constant-packet-rate
/// strategy, initialized at its own start as the run driver does, leaves
/// the virtual clock exactly `(N - 1) * 1_000_000 / pps` microseconds
/// past the start after writing `N` packets.
pub proof fn lemma_pps_elapsed(pps: u64, t0: u64, pkts: Seq<PacketModel>)
    requires
        pps >= 1,
        1 <= pkts.len() <= u64::MAX,
        t0 + pkts.len() as int * 1_000_000 / (pps as int) <= u64::MAX,
    ensures
        ({
            let d0 = Delay::spec_init(Delay::Pps(PpsDelay { start: 0, packets: 0, pps }), t0);
            run_delay(d0, t0, pkts).1 - t0 == (pkts.len() - 1) * 1_000_000 / (pps as int)
        }),
{
    lemma_pps_trajectory(pps, t0, 0, t0, pkts);
    vstd::arithmetic::div_mod::lemma_div_is_ordered(
        (pkts.len() as int - 1) * 1_000_000,
        pkts.len() as int * 1_000_000,
        pps as int,
    );
    vstd::arithmetic::div_mod::lemma_div_pos_is_pos((pkts.len() as int - 1) * 1_000_000, pps as int);
    lemma_pps_law(pps, t0, pkts.len() as int - 1);
}

/// The emission clock of a constant-bit-rate run over packets of
/// identical `size` bytes, with an instant source and sink: before
/// packet `k` the strategy has accounted `k * 8 * size` bits, each query
/// happens at the previous packet's write time, and the writer sleeps
/// exactly the returned wait. Packet 0 goes out at `start`.
pub open spec fn bps_run(bps: u64, start: u64, size: u64, k: int) -> int
    recommends
        bps >= 1,
    decreases k,
{
    if k <= 0 {
        start as int
    } else {
        let prev = bps_run(bps, start, size, k - 1);
        prev + wait_len(bps_wait((k * 8 * size) as u64, bps, start, prev as u64))
    }
}

/// Bps law: in a constant-bit-rate run over packets of identical `size`
/// bytes with an instant source and sink, packet `k` goes out exactly at
/// `start + k * (8 * size) * 1_000_000 / bps`, so a run of `N` packets
/// spans `(N - 1) * 8 * size * 1_000_000 / bps` microseconds from first
/// write to last.
pub proof fn lemma_bps_law(bps: u64, start: u64, size: u64, k: int)
    requires
        bps >= 1,
        0 <= k <= u64::MAX,
        k * 8 * size <= u64::MAX,
        8 * size * 1_000_000 <= u64::MAX,
        start + k * (8 * size) * 1_000_000 / (bps as int) <= u64::MAX,
    ensures
        bps_run(bps, start, size, k) == start + k * (8 * size) * 1_000_000 / (bps as int),
    decreases k,
{
    let p = bps as int;
    if k == 0 {
        assert(0int * (8 * size) * 1_000_000 == 0) by (nonlinear_arith);
        assert(0int / p == 0) by (nonlinear_arith)
            requires
                p >= 1,
        ;
    } else {
        assert((k - 1) * (8 * size) * 1_000_000 <= k * (8 * size) * 1_000_000 && 0 <= (k - 1) * (8
            * size) * 1_000_000 && (k - 1) * 8 * size <= k * 8 * size) by (nonlinear_arith)
            requires
                k >= 1,
                size >= 0,
        ;
        vstd::arithmetic::div_mod::lemma_div_is_ordered(
            (k - 1) * (8 * size) * 1_000_000,
            k * (8 * size) * 1_000_000,
            p,
        );
        vstd::arithmetic::div_mod::lemma_div_pos_is_pos((k - 1) * (8 * size) * 1_000_000, p);
        lemma_bps_law(bps, start, size, k - 1);
        lemma_bps_step(bps, start, size, k as u64, bps_run(bps, start, size, k - 1) as u64);
        assert((k as u64) * 8 * size == (k * 8 * size as int) as u64);
    }
}

/// The pacing trajectory of a constant-bit-rate delayer over packets of
/// identical `size` bytes follows the schedule: starting with `k0`
/// packets' bits on the account at the moment packet `k0 - 1` was
/// written, consuming the packets leaves the clock at the emission time
/// of the last one, `bps_run(bps, start, size, k0 + pkts.len() - 1)`.
#[verifier::rlimit(100)]
pub proof fn lemma_bps_trajectory(
    bps: u64,
    start: u64,
    size: u64,
    k0: u64,
    now: u64,
    pkts: Seq<PacketModel>,
)
    requires
        bps >= 1,
        k0 + pkts.len() <= u64::MAX,
        (k0 + pkts.len()) * 8 * size <= u64::MAX,
        8 * size * 1_000_000 <= u64::MAX,
        forall|i: int| 0 <= i < pkts.len() ==> (#[trigger] pkts[i].data).len() == size,
        now as int == bps_run(bps, start, size, k0 as int - 1),
        start + (k0 + pkts.len() as int) * (8 * size) * 1_000_000 / (bps as int) <= u64::MAX,
    ensures
        run_delay(
            Delay::Bps(BpsDelay { start, bits_sent: (k0 * 8 * size) as u64, bps }),
            now,
            pkts,
        ).1 as int == bps_run(bps, start, size, k0 + pkts.len() as int - 1),
    decreases pkts.len(),
{
    let p = bps as int;
    let n = pkts.len() as int;
    let kk: int = if k0 == 0 {
        0
    } else {
        k0 as int - 1
    };
    assert(0 <= kk * (8 * size) * 1_000_000 <= (k0 + n) * (8 * size) * 1_000_000 && kk * 8 * size
        <= (k0 + n) * 8 * size && (k0 + n) * (8 * size) * 1_000_000 == ((k0 + n) * 8 * size)
        * 1_000_000) by (nonlinear_arith)
        requires
            0 <= kk <= k0 as int,
            0 <= n,
            size >= 0,
    ;
    vstd::arithmetic::div_mod::lemma_div_is_ordered(
        kk * (8 * size) * 1_000_000,
        (k0 + n) * (8 * size) * 1_000_000,
        p,
    );
    vstd::arithmetic::div_mod::lemma_div_pos_is_pos(kk * (8 * size) * 1_000_000, p);
    lemma_bps_law(bps, start, size, kk);
    if pkts.len() == 0 {
    } else {
        assert(k0 * 8 * size <= (k0 + n) * 8 * size && (k0 as int + 1) * 8 * size <= (k0 + n) * 8
            * size && k0 * 8 * size + size * 8 == (k0 as int + 1) * 8 * size) by (nonlinear_arith)
            requires
                0 <= k0 as int,
                1 <= n,
                size >= 0,
        ;
        let bits = (k0 * 8 * size) as u64;
        let d = BpsDelay { start, bits_sent: bits, bps };
        let w = Delay::spec_wait(Delay::Bps(d), now, pkts[0]);
        let next = Delay::stepped(Delay::Bps(d), now, pkts[0]);
        let now2 = sat64(now + wait_len(w));
        assert((k0 + 1) * 8 * size == k0 * 8 * size + 8 * size && k0 * 8 * size + pkts[0].data.len()
            * 8 == (k0 + 1) * 8 * size) by (nonlinear_arith)
        requires
                pkts[0].data.len() == size,
        ;
        assert(next == Delay::Bps(
            BpsDelay { start, bits_sent: ((k0 + 1) * 8 * size) as u64, bps },
        ));
        if k0 == 0 {
            // No bits are on the account yet: the first packet never
            // waits and the clock stays at `start`.
            assert(bits == 0) by (nonlinear_arith)
                requires
                    bits == k0 * 8 * size,
                    k0 == 0,
            ;
            assert(0int * 1_000_000 == 0);
            assert(w is None);
            assert(now2 == now);
            assert(bps_run(bps, start, size, 0) == start as int);
            lemma_bps_trajectory(bps, start, size, 1, now2, pkts.skip(1));
        } else {
            assert(k0 * (8 * size) * 1_000_000 <= (k0 + n) * (8 * size) * 1_000_000 && 0 <= k0
                * (8 * size) * 1_000_000 && k0 * 8 * size <= u64::MAX && (k0 as int) * 8 * size
                == k0 * 8 * size) by (nonlinear_arith)
                requires
                    1 <= k0 as int,
                    1 <= n,
                    size >= 0,
                    (k0 + pkts.len()) * 8 * size <= u64::MAX,
            ;
            vstd::arithmetic::div_mod::lemma_div_is_ordered(
                k0 * (8 * size) * 1_000_000,
                (k0 + n) * (8 * size) * 1_000_000,
                p,
            );
            vstd::arithmetic::div_mod::lemma_div_pos_is_pos(k0 * (8 * size) * 1_000_000, p);
            lemma_bps_step(bps, start, size, k0, now);
            lemma_bps_law(bps, start, size, k0 as int);
            assert(now2 as int == bps_run(bps, start, size, k0 as int));
            lemma_bps_trajectory(bps, start, size, (k0 + 1) as u64, now2, pkts.skip(1));
        }
    }
}

/// Bps law at the engine: a run whose delayer is the constant-bit-rate
/// strategy, initialized at its own start as the run driver does, leaves
/// the virtual clock exactly `(N - 1) * 8 * size * 1_000_000 / bps`
/// microseconds past the start after writing `N` packets of identical
/// `size` bytes.
pub proof fn lemma_bps_elapsed(bps: u64, t0: u64, size: u64, pkts: Seq<PacketModel>)
    requires
        bps >= 1,
        1 <= pkts.len() <= u64::MAX,
        pkts.len() * 8 * size <= u64::MAX,
        8 * size * 1_000_000 <= u64::MAX,
        forall|i: int| 0 <= i < pkts.len() ==> (#[trigger] pkts[i].data).len() == size,
        t0 + pkts.len() as int * (8 * size) * 1_000_000 / (bps as int) <= u64::MAX,
    ensures
        ({
            let d0 = Delay::spec_init(Delay::Bps(BpsDelay { start: 0, bits_sent: 0, bps }), t0);
            run_delay(d0, t0, pkts).1 - t0 == (pkts.len() - 1) * (8 * size) * 1_000_000 / (
            bps as int)
        }),
{
    let n = pkts.len() as int;
    assert(0u64 * 8 * size == 0) by (nonlinear_arith);
    lemma_bps_trajectory(bps, t0, size, 0, t0, pkts);
    assert((n - 1) * (8 * size) * 1_000_000 <= n * (8 * size) * 1_000_000 && 0 <= (n - 1) * (8
        * size) * 1_000_000 && (n - 1) * 8 * size <= n * 8 * size) by (nonlinear_arith)
        requires
            n >= 1,
            size >= 0,
    ;
    vstd::arithmetic::div_mod::lemma_div_is_ordered(
        (n - 1) * (8 * size) * 1_000_000,
        n * (8 * size) * 1_000_000,
        bps as int,
    );
    vstd::arithmetic::div_mod::lemma_div_pos_is_pos((n - 1) * (8 * size) * 1_000_000, bps as int);
    lemma_bps_law(bps, t0, size, n - 1);
}

/// The pacing trajectory of the capture-timing delayer, once a reference
/// timestamp `t` is recorded: over packets with nondecreasing capture
/// times at or after `t`, the clock advances by exactly the gap from `t`
/// to the last capture time.
pub proof fn lemma_delayed_trajectory(t: u64, now: u64, pkts: Seq<PacketModel>)
    requires
        forall|i: int| 0 <= i < pkts.len() ==> #[trigger] pkts[i].when <= u64::MAX,
        forall|i: int, j: int|
            #![trigger pkts[i].when, pkts[j].when]
            0 <= i <= j < pkts.len() ==> pkts[i].when <= pkts[j].when,
        pkts.len() > 0 ==> t <= pkts[0].when,
        now + (if pkts.len() == 0 {
            0int
        } else {
            pkts.last().when - t
        }) <= u64::MAX,
    ensures
        run_delay(Delay::Delayed(PacketRateDelay { last_packet: Some(t) }), now, pkts).1 as int
            == now + (if pkts.len() == 0 {
            0int
        } else {
            pkts.last().when - t
        }),
    decreases pkts.len(),
{
    if pkts.len() > 0 {
        let w0 = pkts[0].when;
        let d = Delay::Delayed(PacketRateDelay { last_packet: Some(t) });
        assert(Delay::spec_wait(d, now, pkts[0]) == Some(((w0 - t) as u64)));
        assert(pkts[0].when <= pkts.last().when);
        let now2 = sat64(now + (w0 - t));
        assert(now2 as int == now + (w0 - t));
        assert(Delay::stepped(d, now, pkts[0]) == Delay::Delayed(
            PacketRateDelay { last_packet: Some(w0 as u64) },
        ));
        if pkts.len() == 1 {
            lemma_delayed_trajectory(w0 as u64, now2, pkts.skip(1));
        } else {
            assert(pkts.skip(1).last() == pkts.last());
            assert(forall|i: int, j: int|
                #![trigger pkts.skip(1)[i].when, pkts.skip(1)[j].when]
                0 <= i <= j < pkts.skip(1).len() ==> pkts.skip(1)[i].when <= pkts.skip(
                    1,
                )[j].when);
            lemma_delayed_trajectory(w0 as u64, now2, pkts.skip(1));
        }
    }
}

/// Capture-timing law at the engine: a run whose delayer replays the
/// original capture timing, over packets with nondecreasing capture
/// times, leaves the virtual clock exactly the span of the capture
/// timestamps — `when` of the last packet minus `when` of the first —
/// past the start: the first packet never waits, and every later one
/// waits out its capture gap.
pub proof fn lemma_delayed_elapsed(t0: u64, pkts: Seq<PacketModel>)
    requires
        1 <= pkts.len(),
        forall|i: int| 0 <= i < pkts.len() ==> #[trigger] pkts[i].when <= u64::MAX,
        forall|i: int, j: int|
            #![trigger pkts[i].when, pkts[j].when]
            0 <= i <= j < pkts.len() ==> pkts[i].when <= pkts[j].when,
        t0 + pkts.last().when - pkts[0].when <= u64::MAX,
    ensures
        ({
            let d0 = Delay::spec_init(
                Delay::Delayed(PacketRateDelay { last_packet: None }),
                t0,
            );
            run_delay(d0, t0, pkts).1 - t0 == pkts.last().when - pkts[0].when
        }),
{
    let d0 = Delay::spec_init(Delay::Delayed(PacketRateDelay { last_packet: None }), t0);
    let w0 = pkts[0].when;
    assert(Delay::spec_wait(d0, t0, pkts[0]) is None);
    assert(Delay::stepped(d0, t0, pkts[0]) == Delay::Delayed(
        PacketRateDelay { last_packet: Some(w0 as u64) },
    ));
    assert(run_delay(d0, t0, pkts) == run_delay(
        Delay::Delayed(PacketRateDelay { last_packet: Some(w0 as u64) }),
        sat64(t0 + 0),
        pkts.skip(1),
    ));
    assert(sat64(t0 + 0) == t0);
    if pkts.len() == 1 {
        lemma_delayed_trajectory(w0 as u64, t0, pkts.skip(1));
    } else {
        assert(pkts.skip(1).last() == pkts.last());
        assert(forall|i: int, j: int|
            #![trigger pkts.skip(1)[i].when, pkts.skip(1)[j].when]
            0 <= i <= j < pkts.skip(1).len() ==> pkts.skip(1)[i].when <= pkts.skip(1)[j].when);
        lemma_delayed_trajectory(w0 as u64, t0, pkts.skip(1));
    }
}

/// Delayed-rate monotonicity: over packets whose capture timestamps never
/// decrease, a writer that sleeps at least the capture-timing wait before
/// each packet takes at least `when[N-1] - when[0]` microseconds from the
/// first write to the last, whatever else slows it down.
pub proof fn lemma_delayed_monotonic(whens: Seq<u64>, emits: Seq<int>)
    requires
        whens.len() >= 1,
        emits.len() == whens.len(),
        forall|i: int| 1 <= i < whens.len() ==> whens[i - 1] <= #[trigger] whens[i],
        forall|i: int|
            1 <= i < whens.len() ==> #[trigger] emits[i] >= emits[i - 1] + wait_len(
                rate_wait(Some(whens[i - 1]), whens[i]),
            ),
    ensures
        emits.last() - emits[0] >= whens.last() - whens[0],
    decreases whens.len(),
{
    let n = whens.len() as int;
    if n > 1 {
        lemma_delayed_monotonic(whens.drop_last(), emits.drop_last());
    }
}

} // verus!
