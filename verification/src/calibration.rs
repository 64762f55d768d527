//! The multi-round calibration engine: it routes the two sample streams to
//! their buffers, tracks readiness, computes the per-round statistics and
//! zero-point estimates, and aggregates the final zero point with the
//! mode-or-median rule.
//!
//! The engine is a state machine: the unverified edge owns the channel and
//! the clock, feeds arriving samples to `handle_sample`, asks
//! `should_finalize` when the round's minimum duration has elapsed, hands
//! the two window magnitudes (the only floating-point quantity of the
//! pipeline, derived outside) to `complete_round`, and finally reads the
//! aggregate out of `summary`.

use vstd::prelude::*;

use crate::auxiliary::{mode_or_median, mode_or_median_spec, round_div, round_div_spec};
use crate::buffer::{
    lemma_median_in_range, possibly_enqueue_rel, SamplesBuffer, WindowStats, TS_BOUND_MILLIS,
    WINDOW_BOUND,
};
use crate::discovery::Info;
use crate::payload::{Payload, FREQ_BOUND_MILLIHZ};
use crate::Timestamp;

verus! {

/// Largest zero point accepted from discovery or configuration, in
/// centi-units.
pub const ZP_CENTI_BOUND: i64 = 1_000_000;

/// Largest magnitude accepted from the unverified conversion, in
/// milli-magnitudes.
pub const MAG_BOUND_MILLI: i64 = 10_000_000_000;

/// Bound on every accumulated per-round value, comfortably inside the
/// range the aggregation arithmetic tolerates.
pub const ROUND_VALUE_BOUND: i64 = 0x800_0000_0000_0000;

/// The calibration parameters read from the configuration store.
#[derive(Debug)]
pub struct CalibrationInfo {
    /// Who runs the session.
    pub author: String,
    /// How many rounds to run.
    pub rounds: usize,
    /// Bias added to the aggregated zero point, in centi-units.
    pub offset: i64,
    /// Fictitious zero point used to derive magnitudes, in centi-units.
    pub zp_fict: i64,
}

impl CalibrationInfo {
    /// Parameters with everything empty or zero.
    pub fn new() -> (r: Self)
        ensures
            r.author@ == ""@,
            r.rounds == 0,
            r.offset == 0,
            r.zp_fict == 0,
    {
        CalibrationInfo { author: String::from_str(""), rounds: 0, offset: 0, zp_fict: 0 }
    }
}

impl Default for CalibrationInfo {
    /// Same as `new`: everything empty or zero.
    fn default() -> (r: Self)
        ensures
            r.author@ == ""@,
            r.rounds == 0,
            r.offset == 0,
            r.zp_fict == 0,
    {
        CalibrationInfo::new()
    }
}

/// The per-stream vectors that grow by one entry for every completed
/// round.
pub struct RoundAccumulator {
    /// Median frequency of each round's window, in milli-hertz.
    pub freqs: Vec<i64>,
    /// Standard deviation of each round's window, in milli-hertz.
    pub stdevs: Vec<i64>,
    /// Magnitude of each round's window, in milli-magnitudes.
    pub mags: Vec<i64>,
    /// Time window of each round.
    pub tstamps: Vec<(Timestamp, Timestamp)>,
    /// Duration of each round's window, in whole seconds.
    pub durs: Vec<i64>,
}

impl RoundAccumulator {
    /// All five vectors run in lockstep, and the accumulated values stay
    /// inside the aggregation bounds.
    pub open spec fn wf(&self) -> bool {
        &&& self.stdevs@.len() == self.freqs@.len()
        &&& self.mags@.len() == self.freqs@.len()
        &&& self.tstamps@.len() == self.freqs@.len()
        &&& self.durs@.len() == self.freqs@.len()
        &&& forall|i: int| 0 <= i < self.freqs@.len() ==> 0 <= #[trigger] self.freqs@[i]
            <= FREQ_BOUND_MILLIHZ
    }

    /// How many rounds have been accumulated.
    pub open spec fn rounds(&self) -> int {
        self.freqs@.len() as int
    }

    fn new() -> (r: Self)
        ensures
            r.wf(),
            r.rounds() == 0,
    {
        RoundAccumulator {
            freqs: Vec::new(),
            stdevs: Vec::new(),
            mags: Vec::new(),
            tstamps: Vec::new(),
            durs: Vec::new(),
        }
    }

    /// Appends one round's statistics and magnitude.
    fn accumulate(&mut self, stats: &WindowStats, mag: i64)
        requires
            old(self).wf(),
            0 <= stats.freq_millihz <= FREQ_BOUND_MILLIHZ,
            old(self).rounds() < usize::MAX,
        ensures
            final(self).wf(),
            final(self).rounds() == old(self).rounds() + 1,
            final(self).freqs@ == old(self).freqs@.push(stats.freq_millihz),
            final(self).stdevs@ == old(self).stdevs@.push(stats.stdev_millihz),
            final(self).mags@ == old(self).mags@.push(mag),
            final(self).tstamps@ == old(self).tstamps@.push((stats.t0, stats.t1)),
            final(self).durs@ == old(self).durs@.push(stats.duration_secs),
    {
        self.freqs.push(stats.freq_millihz);
        self.stdevs.push(stats.stdev_millihz);
        self.mags.push(mag);
        self.tstamps.push((stats.t0, stats.t1));
        self.durs.push(stats.duration_secs);
    }
}

/// The aggregate of a finished session.
pub struct SessionSummary {
    /// The zero point to install: the aggregated estimate plus the
    /// configured bias, in centi-units.
    pub final_zp: i64,
    /// The aggregated zero-point estimate, in centi-units.
    pub best_zp: i64,
    /// The aggregated reference frequency, in milli-hertz.
    pub best_ref_freq: i64,
    /// The aggregated test frequency, in milli-hertz.
    pub best_test_freq: i64,
}

/// The calibration engine's state across rounds.
pub struct Calibration {
    session: Timestamp,
    refe: SamplesBuffer,
    test: SamplesBuffer,
    ready: bool,
    round: usize,
    millis: u64,
    nrounds: usize,
    offset: i64,
    refe_acc: RoundAccumulator,
    test_acc: RoundAccumulator,
    zps: Vec<i64>,
}

impl Calibration {
    /// The reference-stream buffer.
    pub closed spec fn spec_refe(&self) -> SamplesBuffer {
        self.refe
    }

    /// The test-stream buffer.
    pub closed spec fn spec_test(&self) -> SamplesBuffer {
        self.test
    }

    /// The engine's readiness flag.
    pub closed spec fn spec_ready(&self) -> bool {
        self.ready
    }

    /// The session timestamp the engine was created with.
    pub closed spec fn spec_session(&self) -> Timestamp {
        self.session
    }

    /// The per-round zero-point estimates so far, in centi-units.
    pub closed spec fn spec_zps(&self) -> Seq<i64> {
        self.zps@
    }

    /// The reference-stream accumulators.
    pub closed spec fn spec_refe_acc(&self) -> &RoundAccumulator {
        &self.refe_acc
    }

    /// The test-stream accumulators.
    pub closed spec fn spec_test_acc(&self) -> &RoundAccumulator {
        &self.test_acc
    }

    /// The configured number of rounds.
    pub closed spec fn spec_nrounds(&self) -> int {
        self.nrounds as int
    }

    /// The configured minimum round duration, in milliseconds.
    pub closed spec fn spec_millis(&self) -> u64 {
        self.millis
    }

    /// The configured zero-point bias, in centi-units.
    pub closed spec fn spec_offset(&self) -> i64 {
        self.offset
    }

    /// How many rounds have completed.
    pub closed spec fn completed(&self) -> int {
        self.zps@.len() as int
    }

    /// The engine invariant: both buffers are well formed and share the
    /// window length, the engine's readiness flag is the conjunction of
    /// the buffers' flags, all accumulators march in lockstep with the
    /// zero-point vector, and every accumulated value is bounded.
    pub closed spec fn wf(&self) -> bool {
        &&& self.refe.wf()
        &&& self.test.wf()
        &&& self.refe.spec_window() == self.test.spec_window()
        &&& (self.ready <==> self.refe.spec_ready() && self.test.spec_ready())
        &&& self.refe_acc.wf()
        &&& self.test_acc.wf()
        &&& self.refe_acc.rounds() == self.zps@.len()
        &&& self.test_acc.rounds() == self.zps@.len()
        &&& forall|i: int| 0 <= i < self.zps@.len() ==> -ROUND_VALUE_BOUND
            <= #[trigger] self.zps@[i] <= ROUND_VALUE_BOUND
        &&& -ZP_CENTI_BOUND <= self.refe.spec_info().zp <= ZP_CENTI_BOUND
        &&& -ZP_CENTI_BOUND <= self.offset <= ZP_CENTI_BOUND
        &&& self.round == self.zps@.len() + 1
        &&& self.zps@.len() < usize::MAX
    }

    /// A new engine over two freshly created buffers.
    pub fn new(
        window: usize,
        session: Timestamp,
        nrounds: usize,
        millis: u64,
        ref_info: Info,
        test_info: Info,
        zp_fict: i64,
        offset: i64,
    ) -> (r: Self)
        requires
            1 <= window <= WINDOW_BOUND,
            -ZP_CENTI_BOUND <= ref_info.zp <= ZP_CENTI_BOUND,
            -ZP_CENTI_BOUND <= offset <= ZP_CENTI_BOUND,
        ensures
            r.wf(),
            r.completed() == 0,
            !r.spec_ready(),
            r.spec_refe().payloads().len() == 0,
            r.spec_test().payloads().len() == 0,
            r.spec_refe().times().len() == 0,
            r.spec_test().times().len() == 0,
            r.spec_refe().spec_window() == window,
            r.spec_test().spec_window() == window,
            r.spec_refe().spec_info() == &ref_info,
            r.spec_test().spec_info() == &test_info,
            r.spec_nrounds() == nrounds,
            r.spec_millis() == millis,
            r.spec_offset() == offset,
    {
        Calibration {
            session,
            refe: SamplesBuffer::new(window, ref_info, String::from_str("REF."), zp_fict),
            test: SamplesBuffer::new(window, test_info, String::from_str("TEST"), zp_fict),
            ready: false,
            round: 1,
            millis,
            nrounds,
            offset,
            refe_acc: RoundAccumulator::new(),
            test_acc: RoundAccumulator::new(),
            zps: Vec::new(),
        }
    }

    /// The session timestamp.
    pub fn session(&self) -> (r: Timestamp)
        ensures
            r == self.spec_session(),
    {
        self.session
    }

    /// Whether both windows are full.
    pub fn is_ready(&self) -> (r: bool)
        ensures
            r == self.spec_ready(),
    {
        self.ready
    }

    /// How many rounds have completed.
    pub fn completed_rounds(&self) -> (r: usize)
        requires
            self.wf(),
        ensures
            r == self.completed(),
    {
        self.zps.len()
    }

    /// The configured number of rounds.
    pub fn nrounds(&self) -> (r: usize)
        ensures
            r == self.spec_nrounds(),
    {
        self.nrounds
    }

    /// The reference stream's per-round accumulators.
    pub fn refe_accumulator(&self) -> (r: &RoundAccumulator)
        ensures
            r == self.spec_refe_acc(),
    {
        &self.refe_acc
    }

    /// The test stream's per-round accumulators.
    pub fn test_accumulator(&self) -> (r: &RoundAccumulator)
        ensures
            r == self.spec_test_acc(),
    {
        &self.test_acc
    }

    /// The per-round zero-point estimates so far, in centi-units.
    pub fn zps(&self) -> (r: &Vec<i64>)
        ensures
            r@ == self.spec_zps(),
    {
        &self.zps
    }

    /// Routes one sample to its stream's buffer — structured readings to
    /// the test buffer, bracketed readings to the reference buffer — in
    /// ring mode while the engine is filling and in capture mode once both
    /// windows are full, then recomputes readiness.
    pub fn handle_sample(&mut self, tstamp: Timestamp, payload: Payload)
        requires
            old(self).wf(),
            payload.wf(),
            -TS_BOUND_MILLIS <= tstamp <= TS_BOUND_MILLIS,
            payload is Json && old(self).spec_test().times().len() > 0
                ==> tstamp >= old(self).spec_test().times().last(),
            payload is Cristogg && old(self).spec_refe().times().len() > 0
                ==> tstamp >= old(self).spec_refe().times().last(),
        ensures
            final(self).wf(),
            final(self).completed() == old(self).completed(),
            final(self).spec_zps() == old(self).spec_zps(),
            final(self).spec_offset() == old(self).spec_offset(),
            final(self).spec_nrounds() == old(self).spec_nrounds(),
            final(self).spec_millis() == old(self).spec_millis(),
            payload is Json ==> final(self).spec_refe() == old(self).spec_refe()
                && possibly_enqueue_rel(
                old(self).spec_test(),
                final(self).spec_test(),
                tstamp,
                payload,
                old(self).spec_ready(),
            ),
            payload is Cristogg ==> final(self).spec_test() == old(self).spec_test()
                && possibly_enqueue_rel(
                old(self).spec_refe(),
                final(self).spec_refe(),
                tstamp,
                payload,
                old(self).spec_ready(),
            ),
            final(self).spec_ready() <==> final(self).spec_refe().spec_ready()
                && final(self).spec_test().spec_ready(),
    {
        let accumulate = self.ready;
        match payload {
            Payload::Json(p) => {
                self.test.possibly_enqueue(tstamp, Payload::Json(p), accumulate);
            },
            Payload::Cristogg(p) => {
                self.refe.possibly_enqueue(tstamp, Payload::Cristogg(p), accumulate);
            },
        }
        self.ready = self.refe.is_ready() && self.test.is_ready();
    }

    /// Whether the running round may finalise: the minimum duration has
    /// strictly elapsed and both windows are full.
    pub fn should_finalize(&self, elapsed_millis: u64) -> (r: bool)
        ensures
            r == (elapsed_millis > self.spec_millis() && self.spec_ready()),
    {
        elapsed_millis > self.millis && self.ready
    }

    /// The statistics of the most recent window of both streams, reference
    /// first. The caller derives the two magnitudes from these and hands
    /// them back to `complete_round`.
    pub fn round_stats(&self) -> (r: (WindowStats, WindowStats))
        requires
            self.wf(),
            self.spec_ready(),
        ensures
            r.0.freq_millihz == crate::auxiliary::median_spec(self.spec_refe().window_freqs()),
            r.1.freq_millihz == crate::auxiliary::median_spec(self.spec_test().window_freqs()),
            0 <= r.0.freq_millihz <= FREQ_BOUND_MILLIHZ,
            0 <= r.1.freq_millihz <= FREQ_BOUND_MILLIHZ,
            Self::window_stats_ok(&r.0, &self.spec_refe()),
            Self::window_stats_ok(&r.1, &self.spec_test()),
    {
        proof {
            crate::buffer::lemma_buffer_invariant(&self.refe);
            crate::buffer::lemma_buffer_invariant(&self.test);
        }
        (self.refe.median(), self.test.median())
    }

    /// What the window statistics of a buffer must say: the median
    /// frequency of the window, the window's time bounds and span, and a
    /// standard deviation that brackets the variance around the median.
    pub open spec fn window_stats_ok(r: &WindowStats, b: &SamplesBuffer) -> bool {
        &&& r.freq_millihz == crate::auxiliary::median_spec(b.window_freqs())
        &&& r.t0 == b.times()[b.times().len() - b.spec_window()]
        &&& r.t1 == b.times().last()
        &&& r.duration_secs == (r.t1 - r.t0) / 1000
        &&& r.stdev_millihz >= 0
        &&& (r.stdev_millihz * r.stdev_millihz) as int <= crate::buffer::variance_of(
            b.window_freqs(),
            r.freq_millihz as int,
        ) < ((r.stdev_millihz + 1) * (r.stdev_millihz + 1)) as int
    }

    /// The per-round zero point: the reference device's installed zero
    /// point plus the magnitude difference of the two streams, rounded
    /// from milli- to centi-units half away from zero.
    pub open spec fn round_zp_spec(ref_zp_centi: i64, ref_mag: i64, test_mag: i64) -> int {
        round_div_spec(ref_zp_centi * 10 + ref_mag - test_mag, 10)
    }

    /// Finalises the running round: recomputes both window statistics,
    /// derives the round's zero point from the magnitudes the caller
    /// computed for exactly these windows, appends one entry to every
    /// accumulator, and steps the round counter. Every accumulator vector
    /// and the zero-point vector grow by exactly one entry.
    pub fn complete_round(&mut self, ref_mag_milli: i64, test_mag_milli: i64)
        requires
            old(self).wf(),
            old(self).spec_ready(),
            -MAG_BOUND_MILLI <= ref_mag_milli <= MAG_BOUND_MILLI,
            -MAG_BOUND_MILLI <= test_mag_milli <= MAG_BOUND_MILLI,
            old(self).completed() + 1 < usize::MAX,
        ensures
            final(self).wf(),
            final(self).completed() == old(self).completed() + 1,
            final(self).spec_zps() == old(self).spec_zps().push(
                Self::round_zp_spec(
                    old(self).spec_refe().spec_info().zp,
                    ref_mag_milli,
                    test_mag_milli,
                ) as i64,
            ),
            final(self).spec_refe_acc().rounds() == old(self).spec_refe_acc().rounds() + 1,
            final(self).spec_test_acc().rounds() == old(self).spec_test_acc().rounds() + 1,
            final(self).spec_refe_acc().freqs@ == old(self).spec_refe_acc().freqs@.push(
                crate::auxiliary::median_spec(old(self).spec_refe().window_freqs()) as i64,
            ),
            final(self).spec_test_acc().freqs@ == old(self).spec_test_acc().freqs@.push(
                crate::auxiliary::median_spec(old(self).spec_test().window_freqs()) as i64,
            ),
            final(self).spec_refe_acc().mags@ == old(self).spec_refe_acc().mags@.push(
                ref_mag_milli,
            ),
            final(self).spec_test_acc().mags@ == old(self).spec_test_acc().mags@.push(
                test_mag_milli,
            ),
            final(self).spec_refe() == old(self).spec_refe(),
            final(self).spec_test() == old(self).spec_test(),
            final(self).spec_offset() == old(self).spec_offset(),
            final(self).spec_nrounds() == old(self).spec_nrounds(),
            ({
                let b = old(self).spec_refe();
                let t0 = b.times()[b.times().len() - b.spec_window()];
                let t1 = b.times().last();
                &&& final(self).spec_refe_acc().tstamps@ == old(self).spec_refe_acc().tstamps@.push(
                    (t0, t1),
                )
                &&& final(self).spec_refe_acc().durs@ == old(self).spec_refe_acc().durs@.push(
                    (((t1 - t0) / 1000) as i64),
                )
            }),
            ({
                let b = old(self).spec_test();
                let t0 = b.times()[b.times().len() - b.spec_window()];
                let t1 = b.times().last();
                &&& final(self).spec_test_acc().tstamps@ == old(self).spec_test_acc().tstamps@.push(
                    (t0, t1),
                )
                &&& final(self).spec_test_acc().durs@ == old(self).spec_test_acc().durs@.push(
                    (((t1 - t0) / 1000) as i64),
                )
            }),
            ({
                let s = final(self).spec_refe_acc().stdevs@.last();
                let v = crate::buffer::variance_of(
                    old(self).spec_refe().window_freqs(),
                    crate::auxiliary::median_spec(old(self).spec_refe().window_freqs()),
                );
                &&& final(self).spec_refe_acc().stdevs@.drop_last() == old(
                    self,
                ).spec_refe_acc().stdevs@
                &&& s >= 0
                &&& (s * s) as int <= v < ((s + 1) * (s + 1)) as int
            }),
            ({
                let s = final(self).spec_test_acc().stdevs@.last();
                let v = crate::buffer::variance_of(
                    old(self).spec_test().window_freqs(),
                    crate::auxiliary::median_spec(old(self).spec_test().window_freqs()),
                );
                &&& final(self).spec_test_acc().stdevs@.drop_last() == old(
                    self,
                ).spec_test_acc().stdevs@
                &&& s >= 0
                &&& (s * s) as int <= v < ((s + 1) * (s + 1)) as int
            }),
    {
        proof {
            crate::buffer::lemma_buffer_invariant(&self.refe);
            crate::buffer::lemma_buffer_invariant(&self.test);
        }
        let r_stats = self.refe.median();
        let t_stats = self.test.median();
        let zp = round_div(self.refe.info().zp * 10 + ref_mag_milli - test_mag_milli, 10);
        self.refe_acc.accumulate(&r_stats, ref_mag_milli);
        self.test_acc.accumulate(&t_stats, test_mag_milli);
        self.zps.push(zp);
        self.round = self.round + 1;
    }

    /// Aggregates the finished session: the best zero point is the
    /// mode-or-median of the per-round estimates, the final zero point adds
    /// the configured bias, and the best frequency of each stream is the
    /// mode-or-median of its per-round medians.
    pub fn summary(&self) -> (r: SessionSummary)
        requires
            self.wf(),
            self.completed() >= 1,
        ensures
            r.best_zp == mode_or_median_spec(self.spec_zps()),
            r.final_zp == mode_or_median_spec(self.spec_zps()) + self.spec_offset(),
            r.best_ref_freq == mode_or_median_spec(self.spec_refe_acc().freqs@),
            r.best_test_freq == mode_or_median_spec(self.spec_test_acc().freqs@),
    {
        proof {
            lemma_mode_or_median_in_range(self.zps@, -ROUND_VALUE_BOUND as int, ROUND_VALUE_BOUND as int);
            lemma_mode_or_median_in_range(self.refe_acc.freqs@, 0, FREQ_BOUND_MILLIHZ as int);
            lemma_mode_or_median_in_range(self.test_acc.freqs@, 0, FREQ_BOUND_MILLIHZ as int);
        }
        let best_zp = mode_or_median(&self.zps);
        let final_zp = best_zp + self.offset;
        let best_ref_freq = mode_or_median(&self.refe_acc.freqs);
        let best_test_freq = mode_or_median(&self.test_acc.freqs);
        SessionSummary { final_zp, best_zp, best_ref_freq, best_test_freq }
    }
}

/// The mode-or-median of a sequence lies within any bounds that hold for
/// all its elements.
pub proof fn lemma_mode_or_median_in_range(v: Seq<i64>, lo: int, hi: int)
    requires
        v.len() > 0,
        lo <= hi,
        forall|i: int| 0 <= i < v.len() ==> lo <= #[trigger] v[i] <= hi,
    ensures
        lo <= mode_or_median_spec(v) <= hi,
{
    if exists|m: i64| crate::auxiliary::is_unique_mode(v, m) {
        let m = choose|m: i64| crate::auxiliary::is_unique_mode(v, m);
        let i = choose|i: int| 0 <= i < v.len() && v[i] == m;
        assert(lo <= v[i] <= hi);
    } else {
        lemma_median_in_range(v, lo, hi);
    }
}

} // verus!
