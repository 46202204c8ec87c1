//! Latency of the audio callback: samples go into a histogram, which is
//! reported every so often.

use vstd::multiset::Multiset;
use vstd::prelude::*;
use crate::metrics::Metrics;

verus! {

/// Room for samples between the callback and the reporter.
pub const RING_CAPACITY: usize = 4096;

/// How often the panel's numbers are refreshed, and how often they are logged.
pub const METRICS_REFRESH_INTERVAL_NS: u64 = 2_000_000_000;

pub const LOG_INTERVAL_NS: u64 = 10_000_000_000;

/// The range that the histogram tracks, in microseconds, and its precision in
/// digits.
pub const HIST_MIN_US: u64 = 1;

pub const HIST_MAX_US: u64 = 60_000_000;

pub const HIST_PRECISION: u8 = 3;

/// A histogram of the `hdrhistogram` crate that counts in 64 bits.
#[verifier::external_body]
pub struct LatencyHistogram {
    inner: hdrhistogram::Histogram<u64>,
}

/// The values that a histogram took in.
pub uninterp spec fn hist_samples(h: LatencyHistogram) -> Multiset<u64>;

/// What a histogram was made with: the range it tracks and its precision.
pub uninterp spec fn hist_bounds(h: LatencyHistogram) -> (u64, u64, u8);

/// The value that a share of some samples, written as a decimal fraction, does
/// not exceed, as a histogram of those bounds tells it.
pub uninterp spec fn quantile_of(
    samples: Multiset<u64>,
    bounds: (u64, u64, u8),
    share: Seq<char>,
) -> u64;

/// A count of samples, as far as it can be counted.
pub open spec fn counted(n: nat) -> u64 {
    if n <= u64::MAX {
        n as u64
    } else {
        u64::MAX
    }
}

/// `hdrhistogram::Histogram::new_with_bounds`. Claims that a histogram from 1
/// up to at least 2, with at most five digits, can be made, that it is empty,
/// and that it keeps its bounds.
#[verifier::external_body]
fn new_with_bounds(low: u64, high: u64, digits: u8) -> (r: Option<LatencyHistogram>)
    ensures
        low == 1 && high >= 2 && digits <= 5 ==> r is Some,
        r is Some ==> hist_samples(r->0) == Multiset::<u64>::empty(),
        r is Some ==> hist_bounds(r->0) == (low, high, digits),
{
    hdrhistogram::Histogram::new_with_bounds(low, high, digits).ok().map(
        |inner| LatencyHistogram { inner },
    )
}

/// `hdrhistogram::Histogram::record` on a histogram that does not grow. Claims
/// that a value within the tracked range is taken in, and that one that is not
/// taken in changes nothing.
#[verifier::external_body]
fn record(h: &mut LatencyHistogram, value: u64) -> (ok: bool)
    ensures
        value <= hist_bounds(*old(h)).1 ==> ok,
        hist_bounds(*final(h)) == hist_bounds(*old(h)),
        hist_samples(*final(h)) == (if ok {
            hist_samples(*old(h)).insert(value)
        } else {
            hist_samples(*old(h))
        }),
{
    h.inner.record(value).is_ok()
}

/// `hdrhistogram::Histogram::len`: the number of samples, which stops at the
/// largest that fits.
#[verifier::external_body]
fn sample_count(h: &LatencyHistogram) -> (r: u64)
    ensures
        r == counted(hist_samples(*h).len()),
{
    h.inner.len()
}

/// `hdrhistogram::Histogram::value_at_quantile` for the share that a decimal
/// fraction stands for. Claims that the value depends on the samples, the
/// bounds and the share alone. It adds the counts up, so they must not have run
/// full.
#[verifier::external_body]
fn value_at_quantile(h: &LatencyHistogram, share: &str) -> (r: u64)
    requires
        hist_samples(*h).len() < u64::MAX,
    ensures
        r == quantile_of(hist_samples(*h), hist_bounds(*h), share@),
{
    h.inner.value_at_quantile(share.parse().unwrap_or_default())
}

/// A sample within the tracked range.
pub open spec fn clamped(us: u64) -> u64 {
    if us < HIST_MIN_US {
        HIST_MIN_US
    } else if us > HIST_MAX_US {
        HIST_MAX_US
    } else {
        us
    }
}

pub fn clamp_us(us: u64) -> (r: u64)
    ensures
        r == clamped(us),
{
    if us < HIST_MIN_US {
        HIST_MIN_US
    } else if us > HIST_MAX_US {
        HIST_MAX_US
    } else {
        us
    }
}

/// Samples within the tracked range, each in its place.
pub open spec fn all_clamped(samples: Seq<u64>) -> Seq<u64> {
    samples.map_values(|us: u64| clamped(us))
}

/// The latency that a share of the samples does not exceed.
pub open spec fn share_of(samples: Multiset<u64>, share: Seq<char>) -> u64 {
    quantile_of(samples, (HIST_MIN_US, HIST_MAX_US, HIST_PRECISION), share)
}

/// What a round of the reporter does.
#[derive(Clone, Copy, Debug, PartialEq, Eq, Structural)]
pub struct Report {
    /// Refresh the panel's numbers.
    pub publish: bool,
    /// Log them too.
    pub log: bool,
}

/// The clock of the reporter.
#[derive(Clone, Copy, Debug, PartialEq, Eq, Structural)]
pub struct ReportClock {
    pub last_refresh_ns: u64,
    pub last_log_ns: u64,
}

/// What is due at `now_ns`. A log is only written along with a refresh.
pub open spec fn due(clock: ReportClock, now_ns: u64) -> Report {
    let publish = now_ns - clock.last_refresh_ns >= METRICS_REFRESH_INTERVAL_NS;
    Report { publish, log: publish && now_ns - clock.last_log_ns >= LOG_INTERVAL_NS }
}

/// The clock after a round.
pub open spec fn ticked(clock: ReportClock, now_ns: u64) -> ReportClock {
    let r = due(clock, now_ns);
    ReportClock {
        last_refresh_ns: if r.publish {
            now_ns
        } else {
            clock.last_refresh_ns
        },
        last_log_ns: if r.log {
            now_ns
        } else {
            clock.last_log_ns
        },
    }
}

/// Collects samples and says when to report them.
pub struct LatencyReporter {
    hist: LatencyHistogram,
    clock: ReportClock,
}

impl LatencyReporter {
    /// The samples that were collected.
    pub closed spec fn collected(self) -> Multiset<u64> {
        hist_samples(self.hist)
    }

    pub closed spec fn clock(self) -> ReportClock {
        self.clock
    }

    /// The histogram tracks every clamped sample.
    pub closed spec fn wf(self) -> bool {
        hist_bounds(self.hist) == (HIST_MIN_US, HIST_MAX_US, HIST_PRECISION)
    }

    /// A reporter that starts at `now_ns`.
    pub fn new(now_ns: u64) -> (r: Self)
        ensures
            r.wf(),
            r.collected() == Multiset::<u64>::empty(),
            r.clock() == (ReportClock { last_refresh_ns: now_ns, last_log_ns: now_ns }),
    {
        let hist = new_with_bounds(HIST_MIN_US, HIST_MAX_US, HIST_PRECISION).unwrap();
        LatencyReporter {
            hist,
            clock: ReportClock { last_refresh_ns: now_ns, last_log_ns: now_ns },
        }
    }

    /// Takes in samples, each clamped to the tracked range, so that none is
    /// lost.
    pub fn collect(&mut self, samples: &[u64])
        requires
            old(self).wf(),
        ensures
            final(self).wf(),
            final(self).clock() == old(self).clock(),
            final(self).collected() == old(self).collected().add(
                all_clamped(samples@).to_multiset(),
            ),
    {
        let ghost all = all_clamped(samples@);
        let mut k: usize = 0;
        proof {
            all.take(0).to_multiset_ensures();
            assert(self.collected().add(all.take(0).to_multiset()) =~= self.collected());
        }
        while k < samples.len()
            invariant
                k <= samples@.len(),
                self.wf(),
                self.clock() == old(self).clock(),
                all == all_clamped(samples@),
                self.collected() == old(self).collected().add(all.take(k as int).to_multiset()),
            decreases samples@.len() - k,
        {
            let ghost before = self.collected();
            let ghost sample = all[k as int];
            let _ = record(&mut self.hist, clamp_us(samples[k]));
            proof {
                let so_far = all.take(k as int);
                so_far.to_multiset_ensures();
                assert(all.take(k + 1) =~= so_far.push(sample));
                assert(before.insert(sample) =~= old(self).collected().add(
                    so_far.to_multiset().insert(sample),
                ));
            }
            k += 1;
        }
        assert(all.take(k as int) =~= all);
    }

    /// What is due at `now_ns`.
    pub fn tick(&mut self, now_ns: u64) -> (r: Report)
        requires
            old(self).wf(),
        ensures
            final(self).wf(),
            final(self).collected() == old(self).collected(),
            r == due(old(self).clock(), now_ns),
            final(self).clock() == ticked(old(self).clock(), now_ns),
    {
        let publish = now_ns.saturating_sub(self.clock.last_refresh_ns)
            >= METRICS_REFRESH_INTERVAL_NS;
        let log = publish && now_ns.saturating_sub(self.clock.last_log_ns) >= LOG_INTERVAL_NS;
        if publish {
            self.clock.last_refresh_ns = now_ns;
        }
        if log {
            self.clock.last_log_ns = now_ns;
        }
        Report { publish, log }
    }

    /// How many samples were collected, as far as they can be counted.
    pub fn collected_count(&self) -> (r: u64)
        ensures
            r == counted(self.collected().len()),
    {
        sample_count(&self.hist)
    }

    /// Hands the numbers of a report to the panel. Gives whether there were
    /// any: with no samples, or more than can be counted, nothing is reported.
    pub fn publish(&self, metrics: &mut Metrics) -> (r: bool)
        requires
            self.wf(),
        ensures
            r == (0 < self.collected().len() < u64::MAX),
            *final(metrics) == (if r {
                Metrics {
                    callback_samples: self.collected().len() as u64,
                    callback_p50_us: share_of(self.collected(), "0.50"@),
                    callback_p95_us: share_of(self.collected(), "0.95"@),
                    callback_p99_us: share_of(self.collected(), "0.99"@),
                    callback_p999_us: share_of(self.collected(), "0.999"@),
                    ..*old(metrics)
                }
            } else {
                *old(metrics)
            }),
    {
        let count: u64 = sample_count(&self.hist);
        if count == 0 || count == u64::MAX {
            return false;
        }
        metrics.callback_samples = count;
        metrics.callback_p50_us = value_at_quantile(&self.hist, "0.50");
        metrics.callback_p95_us = value_at_quantile(&self.hist, "0.95");
        metrics.callback_p99_us = value_at_quantile(&self.hist, "0.99");
        metrics.callback_p999_us = value_at_quantile(&self.hist, "0.999");
        true
    }
}

/// The log is not flooded: two logs are at least ten seconds apart, whatever
/// the rounds in between.
pub proof fn logs_are_spaced(clock: ReportClock, now_ns: u64)
    requires
        due(clock, now_ns).log,
    ensures
        now_ns - clock.last_log_ns >= LOG_INTERVAL_NS,
        ticked(clock, now_ns).last_log_ns == now_ns,
        ticked(clock, now_ns).last_refresh_ns == now_ns,
{
}

/// The panel is refreshed every two seconds and the log written every ten, and
/// a round in which nothing is due changes nothing.
pub proof fn reports_come_on_time(clock: ReportClock, now_ns: u64)
    ensures
        due(clock, now_ns).publish <==> now_ns >= clock.last_refresh_ns + 2_000_000_000,
        due(clock, now_ns).log <==> now_ns >= clock.last_refresh_ns + 2_000_000_000 && now_ns
            >= clock.last_log_ns + 10_000_000_000,
        !due(clock, now_ns).publish ==> ticked(clock, now_ns) == clock,
        due(clock, now_ns).publish ==> ticked(clock, now_ns).last_refresh_ns == now_ns,
        !due(clock, now_ns).log ==> ticked(clock, now_ns).last_log_ns == clock.last_log_ns,
{
}

/// Every sample counts: one within a microsecond and a minute as it is, one
/// outside as the nearer of the two.
pub proof fn every_sample_counts(samples: Seq<u64>, i: int)
    requires
        0 <= i < samples.len(),
    ensures
        all_clamped(samples).len() == samples.len(),
        1 <= samples[i] <= 60_000_000 ==> all_clamped(samples)[i] == samples[i],
        samples[i] == 0 ==> all_clamped(samples)[i] == 1,
        samples[i] > 60_000_000 ==> all_clamped(samples)[i] == 60_000_000,
{
}

} // verus!
