//! Turning command line options into a pipeline configuration.
//!
//! The unverified shell parses flags into plain optional values and hands
//! them here; these functions make every decision: which rate strategy
//! runs, what the channel watermarks are, and when a combination is
//! rejected.

use vstd::prelude::*;

verus! {

/// Packet rate for writing packets.
pub enum Rate {
    /// Write as fast as possible.
    Full,
    /// Write with the given number of packets per second.
    Pps(u32),
    /// Write with the given number of bits per second (the flag is given
    /// in megabits per second and scaled before it reaches the core).
    Mbps(u64),
    /// Write packets with the delay implied by their capture timestamps.
    Delayed,
}

impl Rate {
    /// A configured target rate is at least one packet or bit per second.
    pub open spec fn wf(&self) -> bool {
        match self {
            Rate::Pps(p) => p >= 1,
            Rate::Mbps(b) => b >= 1,
            _ => true,
        }
    }
}

/// Rejected configuration.
#[derive(Debug)]
pub enum ConfigError {
    /// The low watermark does not lie below the high watermark.
    WatermarkOrder,
    /// A configured rate of zero packets or bits per second.
    ZeroRate,
}

/// Default high watermark when no flag is given.
pub const DEFAULT_HI: u64 = 100;

/// Resolves the channel watermarks from the two optional flags: the high
/// watermark defaults to 100, the low watermark to half the high one, and
/// the low watermark must lie strictly below the high.
pub fn watermarks(high: Option<u64>, low: Option<u64>) -> (r: Result<(u64, u64), ConfigError>)
    ensures
        ({
            let hi = match high {
                Option::Some(h) => h,
                Option::None => DEFAULT_HI,
            };
            let lo = match low {
                Option::Some(l) => l,
                Option::None => (hi / 2) as u64,
            };
            if lo < hi {
                r == Result::<(u64, u64), ConfigError>::Ok((hi, lo))
            } else {
                r == Result::<(u64, u64), ConfigError>::Err(ConfigError::WatermarkOrder)
            }
        }),
{
    let hi = match high {
        Some(h) => h,
        None => DEFAULT_HI,
    };
    let lo = match low {
        Some(l) => l,
        None => hi / 2,
    };
    if lo >= hi {
        Err(ConfigError::WatermarkOrder)
    } else {
        Ok((hi, lo))
    }
}

/// Picks the rate strategy from the mutually exclusive rate flags, in the
/// order packets per second, bits per second, full speed; with no rate
/// flag the packets' own capture timing is used. A target of zero is
/// rejected.
pub fn select_rate(pps: Option<u32>, bps: Option<u64>, fullspeed: bool) -> (r: Result<
    Rate,
    ConfigError,
>)
    ensures
        match r {
            Result::Ok(rate) => rate.wf() && rate == spec_selected_rate(pps, bps, fullspeed),
            Result::Err(e) => e == ConfigError::ZeroRate && (pps == Some(0u32) || (pps is None
                && bps == Some(0u64))),
        },
{
    if let Some(p) = pps {
        if p == 0 {
            Err(ConfigError::ZeroRate)
        } else {
            Ok(Rate::Pps(p))
        }
    } else if let Some(b) = bps {
        if b == 0 {
            Err(ConfigError::ZeroRate)
        } else {
            Ok(Rate::Mbps(b))
        }
    } else if fullspeed {
        Ok(Rate::Full)
    } else {
        Ok(Rate::Delayed)
    }
}

/// Which rate the flags ask for, before the zero check.
pub open spec fn spec_selected_rate(pps: Option<u32>, bps: Option<u64>, fullspeed: bool) -> Rate {
    match pps {
        Option::Some(p) => Rate::Pps(p),
        Option::None => match bps {
            Option::Some(b) => Rate::Mbps(b),
            Option::None => if fullspeed {
                Rate::Full
            } else {
                Rate::Delayed
            },
        },
    }
}

/// Replaying live traffic with its own capture delays is never wanted:
/// when the input is a live interface and no explicit rate was picked, the
/// capture-timing strategy is upgraded to full speed.
pub fn effective_rate(rate: Rate, live_input: bool) -> (r: Rate)
    requires
        rate.wf(),
    ensures
        r.wf(),
        live_input && rate is Delayed ==> r is Full,
        !(live_input && rate is Delayed) ==> r == rate,
{
    if live_input {
        if let Rate::Delayed = rate {
            return Rate::Full;
        }
    }
    rate
}

} // verus!
