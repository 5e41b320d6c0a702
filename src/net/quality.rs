//! Round-trip measurement.
use vstd::prelude::*;
use crate::config::SocketConfig;
use crate::sequence_buffer::CongestionData;

verus! {

/// The quality of a connection.
#[derive(Clone, Copy, Debug, PartialEq, Eq, Structural)]
pub enum NetworkQuality {
    /// Little packet loss or latency.
    Good,
    /// Loss or latency that harms the game.
    Bad,
}

/// The smoothed deviation of a round-trip sample above the allowed maximum,
/// in hundredths of a millisecond: `(rtt - rtt_max) * factor_percent`.
pub open spec fn smoothed(rtt: int, rtt_max: int, factor_percent: int) -> int {
    (rtt - rtt_max) * factor_percent
}

/// Turns acknowledgement times into a smoothed round-trip estimate.
#[derive(Clone, Copy, Debug, PartialEq, Eq, Structural)]
pub struct RttMeasurer {
    /// The round-trip time above which a sample counts, in milliseconds.
    pub rtt_max_value: u16,
    /// The weight of each sample, in percent.
    pub rtt_smoothing_factor: u8,
}

impl RttMeasurer {
    /// The measurer `new` makes from `config`.
    pub open spec fn new_spec(config: &SocketConfig) -> RttMeasurer {
        RttMeasurer {
            rtt_max_value: config.rtt_max_value,
            rtt_smoothing_factor: config.rtt_smoothing_factor,
        }
    }

    /// The estimate `get_rtt` gives for a sample acknowledged at `now`.
    pub open spec fn spec_rtt(&self, congestion_data: Option<CongestionData>, now: u64) -> int {
        match congestion_data {
            Some(d) => smoothed(
                if now >= d.sending_time {
                    now - d.sending_time
                } else {
                    0
                },
                self.rtt_max_value as int,
                self.rtt_smoothing_factor as int,
            ),
            None => 0,
        }
    }

    /// A measurer with the limits of `config`.
    pub fn new(config: &SocketConfig) -> (r: RttMeasurer)
        ensures
            r == Self::new_spec(config),
    {
        RttMeasurer {
            rtt_max_value: config.rtt_max_value(),
            rtt_smoothing_factor: config.rtt_smoothing_factor(),
        }
    }

    /// The estimate from the sample `congestion_data`, acknowledged at `now`
    /// (milliseconds), in hundredths of a millisecond; zero without a sample.
    pub fn get_rtt(&self, congestion_data: Option<CongestionData>, now: u64) -> (r: i128)
        ensures
            r == self.spec_rtt(congestion_data, now),
    {
        match congestion_data {
            Some(d) => {
                let elapsed = now.saturating_sub(d.sending_time);
                self.smooth_out_rtt(elapsed)
            },
            None => 0,
        }
    }

    /// A duration of `secs` seconds and `subsec_nanos` nanoseconds, in whole milliseconds.
    pub fn as_milliseconds(&self, secs: u64, subsec_nanos: u32) -> (r: u64)
        requires
            secs <= 18_446_744_073_709_550,
            subsec_nanos < 1_000_000_000,
        ensures
            r == secs * 1000 + subsec_nanos / 1_000_000,
    {
        secs * 1000 + (subsec_nanos / 1_000_000) as u64
    }

    /// The deviation of `rtt` above the maximum, weighted by the smoothing factor,
    /// in hundredths of a millisecond.
    pub fn smooth_out_rtt(&self, rtt: u64) -> (r: i128)
        ensures
            r == smoothed(rtt as int, self.rtt_max_value as int, self.rtt_smoothing_factor as int),
    {
        let exceeded: i128 = rtt as i128 - self.rtt_max_value as i128;
        assert(exceeded * self.rtt_smoothing_factor as int <= 0x1_0000_0000_0000_0000 * 256) by (nonlinear_arith)
            requires
                exceeded <= 0xffff_ffff_ffff_ffff,
                self.rtt_smoothing_factor <= 255,
        ;
        assert(exceeded * self.rtt_smoothing_factor as int >= -0x10000 * 256) by (nonlinear_arith)
            requires
                exceeded >= -0xffff,
                self.rtt_smoothing_factor <= 255,
                self.rtt_smoothing_factor >= 0,
        ;
        exceeded * self.rtt_smoothing_factor as i128
    }
}

} // verus!
