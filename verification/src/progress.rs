//! Download progress tracking over whole percentages.
//!
//! With a known content length, progress is the rounded whole
//! percentage of bytes received, clamped to 0..=100; a value is
//! emitted only when that percentage changes, so emitted values are
//! strictly increasing and end at exactly 100.  With an unknown
//! length, a coarse byte count is emitted at fixed 1 MiB intervals
//! instead.

use vstd::prelude::*;
use vstd::arithmetic::div_mod::{
    lemma_div_is_ordered,
    lemma_fundamental_div_mod_converse,
};

verus! {

/// The byte interval of coarse messages when the length is unknown.
pub const COARSE_INTERVAL: u64 = 1048576;

/// The rounded whole percentage of `d` out of `t` (round half up),
/// for `t > 0`.
pub open spec fn spec_percent(d: int, t: int) -> int {
    (200 * d + t) / (2 * t)
}

/// Rounding facts for the percentage: it sits in 0..=100, grows with
/// the byte count, and is 100 exactly at the full count.
pub proof fn lemma_percent_bounds(d: int, t: int)
    requires
        0 < t,
        0 <= d <= t,
    ensures
        0 <= spec_percent(d, t) <= 100,
        d == t ==> spec_percent(d, t) == 100,
        d == 0 ==> spec_percent(d, t) == 0,
{
    lemma_fundamental_div_mod_converse(t, 2 * t, 0, t);
    lemma_fundamental_div_mod_converse(201 * t, 2 * t, 100, t);
    lemma_div_is_ordered(t, 200 * d + t, 2 * t);
    lemma_div_is_ordered(200 * d + t, 201 * t, 2 * t);
}

/// The percentage never decreases as bytes accumulate.
pub proof fn lemma_percent_monotone(d1: int, d2: int, t: int)
    requires
        0 < t,
        d1 <= d2,
    ensures
        spec_percent(d1, t) <= spec_percent(d2, t),
{
    lemma_div_is_ordered(200 * d1 + t, 200 * d2 + t, 2 * t);
}

/// What one recorded chunk asks the shell to emit.
#[derive(Clone, Copy, Debug, PartialEq, Eq, Structural)]
pub enum ProgressSignal {
    /// Nothing changed enough to be worth a message.
    Quiet,
    /// The rounded percentage, newly changed.
    Percent(u8),
    /// The byte count so far, for downloads of unknown length.
    Bytes(u64),
}

/// Progress state of one download.
pub struct ProgressTracker {
    /// Declared content length; 0 when the length is unknown.
    pub total: u64,
    /// Bytes received so far, clamped to `total` when it is known.
    pub downloaded: u64,
    /// The last emitted percentage, once any was emitted.
    pub last_percent: Option<u8>,
    /// Whether any coarse byte message was emitted.
    pub emitted_bytes: bool,
}

impl ProgressTracker {
    /// The tracker's invariant: the byte count respects the clamp,
    /// and the recorded emission mirrors the current percentage.
    pub open spec fn wf(&self) -> bool {
        self.total > 0 ==> {
            &&& self.downloaded <= self.total
            &&& match self.last_percent {
                None => self.downloaded == 0,
                Some(lp) => lp as int == spec_percent(
                    self.downloaded as int,
                    self.total as int,
                ),
            }
        }
    }

    /// Whether a known-length download has received every byte.
    pub open spec fn spec_complete(&self) -> bool {
        self.total > 0 && self.downloaded == self.total
    }

    /// A fresh tracker for a download with the given declared
    /// content length (`None` or zero: unknown).
    pub fn new(content_length: Option<u64>) -> (t: ProgressTracker)
        ensures
            t.wf(),
            t.downloaded == 0,
            t.last_percent is None,
            !t.emitted_bytes,
            t.total == match content_length {
                Some(n) => n,
                None => 0,
            },
    {
        let total = match content_length {
            Some(n) => n,
            None => 0,
        };
        ProgressTracker { total, downloaded: 0, last_percent: None, emitted_bytes: false }
    }

    /// What recording `n` more bytes does, as a pure function of the
    /// tracker: the new tracker and the signal to emit.
    pub open spec fn spec_record(self, n: u64) -> (ProgressTracker, ProgressSignal) {
        if self.total > 0 {
            let d = vstd::math::min(self.downloaded + n, self.total as int) as u64;
            let p = spec_percent(d as int, self.total as int) as u8;
            let changed = match self.last_percent {
                None => true,
                Some(lp) => p > lp,
            };
            if changed {
                (
                    ProgressTracker { downloaded: d, last_percent: Some(p), ..self },
                    ProgressSignal::Percent(p),
                )
            } else {
                (ProgressTracker { downloaded: d, ..self }, ProgressSignal::Quiet)
            }
        } else {
            let d = vstd::math::min(self.downloaded + n, u64::MAX as int) as u64;
            if d % COARSE_INTERVAL == 0 || !self.emitted_bytes {
                (
                    ProgressTracker { downloaded: d, emitted_bytes: true, ..self },
                    ProgressSignal::Bytes(d),
                )
            } else {
                (ProgressTracker { downloaded: d, ..self }, ProgressSignal::Quiet)
            }
        }
    }

    /// Record `n` more received bytes and say what to emit.
    ///
    /// With a known length, the new rounded percentage is returned
    /// exactly when it differs from the last emitted one, and emitted
    /// percentages strictly increase, ending at 100 when the count
    /// completes.  With an unknown length, the byte count is returned
    /// on the first chunk and whenever it lands on the coarse
    /// interval.
    pub fn record_chunk(&mut self, n: u64) -> (signal: ProgressSignal)
        requires
            old(self).wf(),
        ensures
            final(self).wf(),
            (*final(self), signal) == old(self).spec_record(n),
            final(self).total == old(self).total,
            final(self).emitted_bytes == (old(self).emitted_bytes || signal is Bytes),
            old(self).total > 0 ==> {
                &&& final(self).downloaded as int == vstd::math::min(
                    old(self).downloaded + n,
                    old(self).total as int,
                )
                &&& match signal {
                    ProgressSignal::Percent(p) => {
                        &&& p as int == spec_percent(
                            final(self).downloaded as int,
                            final(self).total as int,
                        )
                        &&& final(self).last_percent == Some(p)
                        &&& match old(self).last_percent {
                            None => true,
                            Some(lp) => p > lp,
                        }
                    },
                    ProgressSignal::Quiet => final(self).last_percent == old(self).last_percent,
                    ProgressSignal::Bytes(_) => false,
                }
                &&& final(self).spec_complete() ==> final(self).last_percent == Some(100u8)
            },
            old(self).total == 0 ==> {
                &&& final(self).downloaded as int == vstd::math::min(
                    old(self).downloaded + n,
                    u64::MAX as int,
                )
                &&& final(self).last_percent == old(self).last_percent
                &&& signal == if final(self).downloaded % COARSE_INTERVAL == 0 || !old(
                    self,
                ).emitted_bytes {
                    ProgressSignal::Bytes(final(self).downloaded)
                } else {
                    ProgressSignal::Quiet
                }
            },
    {
        if self.total > 0 {
            let t = self.total;
            let sum = if n > u64::MAX - self.downloaded {
                u64::MAX
            } else {
                self.downloaded + n
            };
            let d = if sum > t {
                t
            } else {
                sum
            };
            self.downloaded = d;
            proof {
                lemma_percent_bounds(d as int, t as int);
            }
            let num: u128 = 200u128 * (d as u128) + (t as u128);
            let den: u128 = 2u128 * (t as u128);
            let p = (num / den) as u8;
            proof {
                assert(num as int == 200 * (d as int) + (t as int));
                assert(den as int == 2 * (t as int));
                assert((num / den) as int == spec_percent(d as int, t as int));
            }
            let changed = match self.last_percent {
                None => true,
                Some(lp) => p > lp,
            };
            proof {
                match old(self).last_percent {
                    Some(lp) => {
                        lemma_percent_monotone(old(self).downloaded as int, d as int, t as int);
                        assert(p >= lp);
                    },
                    None => {},
                }
                if d == t {
                    lemma_percent_bounds(d as int, t as int);
                }
            }
            if changed {
                self.last_percent = Some(p);
                ProgressSignal::Percent(p)
            } else {
                ProgressSignal::Quiet
            }
        } else {
            let sum = if n > u64::MAX - self.downloaded {
                u64::MAX
            } else {
                self.downloaded + n
            };
            self.downloaded = sum;
            if sum % COARSE_INTERVAL == 0 || !self.emitted_bytes {
                self.emitted_bytes = true;
                ProgressSignal::Bytes(sum)
            } else {
                ProgressSignal::Quiet
            }
        }
    }

    /// Whether a known-length download has received every byte.
    pub fn is_complete(&self) -> (r: bool)
        ensures
            r == self.spec_complete(),
    {
        self.total > 0 && self.downloaded == self.total
    }
}

} // verus!
