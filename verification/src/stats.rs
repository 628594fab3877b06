//! Statistics about processed packets.
//!
//! The writer task records every completed write attempt here: a write of
//! zero bytes counts as an invalid packet, anything else as a sent one.
//! The summary line is specified character for character; rates appear in
//! fixed-point with three decimals, computed in integer arithmetic (a run
//! of zero elapsed time shows zero rates). When a reporting interval is
//! set, an update that falls due returns the summary line for the caller
//! to forward to its report stream.

use vstd::prelude::*;

use crate::delay::{elapsed_since, sat64};

verus! {

/// The character for one decimal digit.
pub open spec fn dec_digit(d: int) -> char
    recommends
        0 <= d < 10,
{
    if d == 0 {
        '0'
    } else if d == 1 {
        '1'
    } else if d == 2 {
        '2'
    } else if d == 3 {
        '3'
    } else if d == 4 {
        '4'
    } else if d == 5 {
        '5'
    } else if d == 6 {
        '6'
    } else if d == 7 {
        '7'
    } else if d == 8 {
        '8'
    } else {
        '9'
    }
}

/// Decimal representation of a nonnegative value, most significant digit
/// first, without leading zeros (zero itself is "0").
pub open spec fn dec_seq(v: int) -> Seq<char>
    recommends
        v >= 0,
    decreases v,
{
    if v < 10 {
        seq![dec_digit(v)]
    } else {
        dec_seq(v / 10).push(dec_digit(v % 10))
    }
}

/// A fraction of a thousand, padded to exactly three digits.
pub open spec fn pad3_seq(f: int) -> Seq<char>
    recommends
        0 <= f < 1000,
{
    if f < 10 {
        seq!['0', '0'] + dec_seq(f)
    } else if f < 100 {
        seq!['0'] + dec_seq(f)
    } else {
        dec_seq(f)
    }
}

/// A value scaled by 1000, rendered with three decimals: whole part, a
/// point, then the padded fraction.
pub open spec fn milli_seq(m: int) -> Seq<char>
    recommends
        m >= 0,
{
    dec_seq(m / 1000) + seq!['.'] + pad3_seq(m % 1000)
}

/// A per-second rate scaled by 1000: `count` events over `elapsed_us`
/// microseconds, zero when no time has elapsed.
pub open spec fn rate_milli(count: int, elapsed_us: int) -> int {
    if elapsed_us == 0 {
        0
    } else {
        count * 1_000_000_000 / elapsed_us
    }
}

/// The megabytes-per-second rate scaled by 1000, with a megabyte of
/// 1048576 bytes.
pub open spec fn mbps_milli(bytes: int, elapsed_us: int) -> int {
    if elapsed_us == 0 {
        0
    } else {
        bytes * 1_000_000_000 / (1_048_576 * elapsed_us)
    }
}

/// The summary line for the given counters after `elapsed_us`
/// microseconds, character for character.
pub open spec fn summary_seq(packets: u64, invalid: u64, bytes: u64, elapsed_us: int) -> Seq<
    char,
> {
    let phrase = if invalid == 0 {
        dec_seq(packets as int) + " packets"@
    } else {
        dec_seq(packets as int) + " packets ("@ + dec_seq(invalid as int) + " not sent)"@
    };
    phrase + ", "@ + dec_seq(bytes as int) + " bytes in "@ + dec_seq(elapsed_us / 1000) + "ms / "@
        + milli_seq(rate_milli(packets as int, elapsed_us)) + "pps, "@ + milli_seq(
        rate_milli(bytes as int * 8, elapsed_us),
    ) + "bps ("@ + milli_seq(mbps_milli(bytes as int, elapsed_us)) + " MBps)"@
}

/// One decimal digit as a string slice.
fn digit_str(d: u64) -> (s: &'static str)
    requires
        d < 10,
    ensures
        s@ == seq![dec_digit(d as int)],
{
    let s: &'static str = if d == 0 {
        "0"
    } else if d == 1 {
        "1"
    } else if d == 2 {
        "2"
    } else if d == 3 {
        "3"
    } else if d == 4 {
        "4"
    } else if d == 5 {
        "5"
    } else if d == 6 {
        "6"
    } else if d == 7 {
        "7"
    } else if d == 8 {
        "8"
    } else {
        "9"
    };
    proof {
        reveal_strlit("0");
        reveal_strlit("1");
        reveal_strlit("2");
        reveal_strlit("3");
        reveal_strlit("4");
        reveal_strlit("5");
        reveal_strlit("6");
        reveal_strlit("7");
        reveal_strlit("8");
        reveal_strlit("9");
        assert(s@ =~= seq![dec_digit(d as int)]);
    }
    s
}

/// Renders a value in decimal.
pub fn u128_to_string(v: u128) -> (s: String)
    ensures
        s@ == dec_seq(v as int),
    decreases v,
{
    if v < 10 {
        String::from_str(digit_str(v as u64))
    } else {
        let mut s = u128_to_string(v / 10);
        s.append(digit_str((v % 10) as u64));
        proof {
            assert(s@ =~= dec_seq(v as int));
        }
        s
    }
}

/// Renders a value in decimal.
pub fn u64_to_string(v: u64) -> (s: String)
    ensures
        s@ == dec_seq(v as int),
{
    u128_to_string(v as u128)
}

/// Renders a milli-scaled value with three decimals.
pub fn milli_string(m: u128) -> (s: String)
    ensures
        s@ == milli_seq(m as int),
{
    let mut s = u128_to_string(m / 1000);
    s.append(".");
    let frac = m % 1000;
    if frac < 10 {
        s.append("00");
    } else if frac < 100 {
        s.append("0");
    }
    s.append(u128_to_string(frac).as_str());
    proof {
        reveal_strlit(".");
        reveal_strlit("00");
        reveal_strlit("0");
        assert(s@ =~= milli_seq(m as int));
    }
    s
}

/// Whether a periodic report falls due at clock reading `now`.
pub open spec fn report_due(interval: Option<u64>, last_stat: u64, now: u64) -> bool {
    match interval {
        Option::Some(iv) => elapsed_since(last_stat, now) >= iv,
        Option::None => false,
    }
}

/// Statistics about processed packets. All clock readings are
/// microseconds on the caller's monotonic clock; counters saturate rather
/// than wrap.
pub struct Stats {
    /// Number of packets written since start or last reset.
    pub packets: u64,
    /// Number of bytes written since start or last reset.
    pub bytes: u64,
    /// Number of packets which could not be sent.
    pub invalid: u64,
    /// Clock reading when packet processing started.
    pub start: u64,
    /// Interval between periodic summaries, when reporting is on.
    pub interval: Option<u64>,
    /// Clock reading when a summary was last produced.
    pub last_stat: u64,
}

impl Default for Stats {
    /// Statistics with zeroed counters and no periodic reporting.
    fn default() -> (r: Stats)
        ensures
            r.packets == 0,
            r.bytes == 0,
            r.invalid == 0,
            r.start == 0,
            r.interval is None,
            r.last_stat == 0,
    {
        Stats { packets: 0, bytes: 0, invalid: 0, start: 0, interval: None, last_stat: 0 }
    }
}

impl Stats {
    /// Statistics which produce a summary once every `period`
    /// microseconds; each update that falls due hands the summary line
    /// back for the caller to forward.
    pub fn periodic(period: u64) -> (r: Stats)
        ensures
            r.packets == 0,
            r.bytes == 0,
            r.invalid == 0,
            r.start == 0,
            r.interval == Some(period),
            r.last_stat == 0,
    {
        Stats {
            packets: 0,
            bytes: 0,
            invalid: 0,
            start: 0,
            interval: Some(period),
            last_stat: 0,
        }
    }

    /// Records one completed write attempt of `bytes` bytes at clock
    /// reading `now`. Zero bytes means the packet was not sent and counts
    /// as invalid; anything else counts as a written packet. When a
    /// reporting interval is set and at least that much time has passed
    /// since the last report, the summary line is returned and the report
    /// clock advances.
    pub fn update(&mut self, bytes: u64, now: u64) -> (report: Option<String>)
        ensures
            final(self).packets == if bytes != 0 {
                sat64(old(self).packets + 1)
            } else {
                old(self).packets
            },
            final(self).invalid == if bytes == 0 {
                sat64(old(self).invalid + 1)
            } else {
                old(self).invalid
            },
            final(self).bytes == sat64(old(self).bytes + bytes),
            final(self).start == old(self).start,
            final(self).interval == old(self).interval,
            report_due(old(self).interval, old(self).last_stat, now) ==> ({
                &&& final(self).last_stat == now
                &&& report matches Some(line) && line@ == summary_seq(
                    final(self).packets,
                    final(self).invalid,
                    final(self).bytes,
                    elapsed_since(final(self).start, now),
                )
            }),
            !report_due(old(self).interval, old(self).last_stat, now) ==> ({
                &&& final(self).last_stat == old(self).last_stat
                &&& report is None
            }),
    {
        if bytes == 0 {
            self.invalid = self.invalid.saturating_add(1);
        } else {
            self.packets = self.packets.saturating_add(1);
        }
        self.bytes = self.bytes.saturating_add(bytes);
        let due = match self.interval {
            Some(iv) => {
                let since_last: u64 = if now >= self.last_stat {
                    now - self.last_stat
                } else {
                    0
                };
                since_last >= iv
            },
            None => false,
        };
        if due {
            self.last_stat = now;
            Some(self.summary(now))
        } else {
            None
        }
    }

    /// Returns the summary of these statistics at clock reading `now`.
    pub fn summary(&self, now: u64) -> (s: String)
        ensures
            s@ == summary_seq(self.packets, self.invalid, self.bytes, elapsed_since(self.start, now)),
    {
        let elapsed: u64 = if now >= self.start {
            now - self.start
        } else {
            0
        };
        let mut s = u64_to_string(self.packets);
        if self.invalid == 0 {
            s.append(" packets");
        } else {
            s.append(" packets (");
            s.append(u64_to_string(self.invalid).as_str());
            s.append(" not sent)");
        }
        s.append(", ");
        s.append(u64_to_string(self.bytes).as_str());
        s.append(" bytes in ");
        s.append(u64_to_string(elapsed / 1000).as_str());
        s.append("ms / ");
        let pps_m: u128 = if elapsed == 0 {
            0
        } else {
            self.packets as u128 * 1_000_000_000 / (elapsed as u128)
        };
        let bps_m: u128 = if elapsed == 0 {
            0
        } else {
            self.bytes as u128 * 8_000_000_000 / (elapsed as u128)
        };
        let mb_m: u128 = if elapsed == 0 {
            0
        } else {
            self.bytes as u128 * 1_000_000_000 / (1_048_576 * elapsed as u128)
        };
        s.append(milli_string(pps_m).as_str());
        s.append("pps, ");
        s.append(milli_string(bps_m).as_str());
        s.append("bps (");
        s.append(milli_string(mb_m).as_str());
        s.append(" MBps)");
        proof {
            assert(pps_m as int == rate_milli(self.packets as int, elapsed as int));
            assert(bps_m as int == rate_milli(self.bytes as int * 8, elapsed as int));
            assert(mb_m as int == mbps_milli(self.bytes as int, elapsed as int));
            assert(s@ =~= summary_seq(
                self.packets,
                self.invalid,
                self.bytes,
                elapsed_since(self.start, now),
            ));
        }
        s
    }

    /// Resets the counters and restarts the clock at reading `now`.
    pub fn reset(&mut self, now: u64)
        ensures
            final(self).packets == 0,
            final(self).bytes == 0,
            final(self).invalid == 0,
            final(self).start == now,
            final(self).interval == old(self).interval,
            final(self).last_stat == old(self).last_stat,
    {
        self.bytes = 0;
        self.packets = 0;
        self.invalid = 0;
        self.start = now;
    }
}

} // verus!
