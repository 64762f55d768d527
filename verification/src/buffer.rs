//! The per-stream sample buffer: two parallel queues of payloads and
//! timestamps that act as a bounded sliding window while a round is
//! filling, may grow without bound while it is capturing, and yield the
//! robust statistics of the most recent window.

use std::collections::VecDeque;

use vstd::prelude::*;

use crate::auxiliary::{median, median_spec, round_div_spec};
use crate::discovery::Info;
use crate::payload::{Payload, FREQ_BOUND_MILLIHZ};
use crate::Timestamp;

verus! {

/// Largest accepted timestamp distance from the epoch, in milliseconds.
pub const TS_BOUND_MILLIS: i64 = 0x2000_0000_0000;

/// Largest window length a buffer accepts; keeps the deviation sums inside
/// an `i128`.
pub const WINDOW_BOUND: usize = 0x10_0000;

/// Sum of squared deviations of `v` from `m`.
pub open spec fn sum_sq_dev(v: Seq<i64>, m: int) -> int
    decreases v.len(),
{
    if v.len() == 0 {
        0
    } else {
        sum_sq_dev(v.drop_last(), m) + (v.last() - m) * (v.last() - m)
    }
}

/// Sample variance of `v` around the provided centre `m` (zero when fewer
/// than two samples).
pub open spec fn variance_of(v: Seq<i64>, m: int) -> int {
    if v.len() >= 2 {
        sum_sq_dev(v, m) / (v.len() - 1)
    } else {
        0
    }
}

/// The statistics of one full window of samples.
pub struct WindowStats {
    /// Median frequency, in milli-hertz.
    pub freq_millihz: i64,
    /// Sample standard deviation of the frequencies around the median,
    /// in milli-hertz, rounded down.
    pub stdev_millihz: i64,
    /// Timestamp of the oldest sample of the window.
    pub t0: Timestamp,
    /// Timestamp of the newest sample of the window.
    pub t1: Timestamp,
    /// Window span in whole seconds.
    pub duration_secs: i64,
}

/// A bounded sliding window of `(timestamp, payload)` pairs for one stream,
/// with a readiness flag that says the window is full.
pub struct SamplesBuffer {
    label: String,
    window: usize,
    read_q: VecDeque<Payload>,
    time_q: VecDeque<Timestamp>,
    ready: bool,
    info: Info,
    zp_fict: i64,
}

impl SamplesBuffer {
    /// The payload queue, oldest first.
    pub closed spec fn payloads(&self) -> Seq<Payload> {
        self.read_q@
    }

    /// The timestamp queue, oldest first.
    pub closed spec fn times(&self) -> Seq<Timestamp> {
        self.time_q@
    }

    /// The readiness flag.
    pub closed spec fn spec_ready(&self) -> bool {
        self.ready
    }

    /// The configured window length.
    pub closed spec fn spec_window(&self) -> int {
        self.window as int
    }

    /// The device descriptor the buffer was created with.
    pub closed spec fn spec_info(&self) -> &Info {
        &self.info
    }

    /// The fictitious zero point used when the caller derives magnitudes.
    pub closed spec fn spec_zp_fict(&self) -> i64 {
        self.zp_fict
    }

    /// The display label the buffer was created with.
    pub closed spec fn spec_label(&self) -> &String {
        &self.label
    }

    /// The buffer's invariant: the two queues run in lockstep, timestamps
    /// are nondecreasing and bounded, every payload is well formed, and
    /// the readiness flag never claims a window that is not there.
    pub closed spec fn wf(&self) -> bool {
        &&& self.read_q@.len() == self.time_q@.len()
        &&& 1 <= self.window <= WINDOW_BOUND
        &&& forall|i: int, j: int|
            0 <= i < j < self.time_q@.len() ==> self.time_q@[i] <= self.time_q@[j]
        &&& forall|i: int| 0 <= i < self.read_q@.len() ==> (#[trigger] self.read_q@[i]).wf()
        &&& forall|i: int|
            0 <= i < self.time_q@.len() ==> -TS_BOUND_MILLIS <= #[trigger] self.time_q@[i]
                <= TS_BOUND_MILLIS
        &&& (self.ready ==> self.read_q@.len() >= self.window)
    }

    /// A new, empty, not yet ready buffer.
    pub fn new(window: usize, info: Info, label: String, zp_fict: i64) -> (r: Self)
        requires
            1 <= window <= WINDOW_BOUND,
        ensures
            r.wf(),
            r.payloads().len() == 0,
            r.times().len() == 0,
            !r.spec_ready(),
            r.spec_window() == window,
            r.spec_info() == &info,
            r.spec_zp_fict() == zp_fict,
    {
        SamplesBuffer {
            label,
            window,
            read_q: VecDeque::new(),
            time_q: VecDeque::new(),
            ready: false,
            info,
            zp_fict,
        }
    }

    /// How many samples the buffer holds.
    pub fn len(&self) -> (r: usize)
        requires
            self.wf(),
        ensures
            r == self.payloads().len(),
    {
        self.read_q.len()
    }

    /// Whether the window is full.
    pub fn is_ready(&self) -> (r: bool)
        ensures
            r == self.spec_ready(),
    {
        self.ready
    }

    /// The configured window length.
    pub fn window(&self) -> (r: usize)
        ensures
            r == self.spec_window(),
    {
        self.window
    }

    /// The device descriptor.
    pub fn info(&self) -> (r: &Info)
        ensures
            r == self.spec_info(),
    {
        &self.info
    }

    /// The fictitious zero point handed in at creation.
    pub fn zp_fict(&self) -> (r: i64)
        ensures
            r == self.spec_zp_fict(),
    {
        self.zp_fict
    }

    /// The display label.
    pub fn label(&self) -> (r: &String)
        ensures
            r == self.spec_label(),
    {
        &self.label
    }

    /// The timestamp of the oldest sample.
    pub fn first_time(&self) -> (r: Timestamp)
        requires
            self.wf(),
            self.times().len() > 0,
        ensures
            r == self.times()[0],
    {
        *(&self.time_q[0])
    }

    /// The timestamp of the newest sample.
    pub fn last_time(&self) -> (r: Timestamp)
        requires
            self.wf(),
            self.times().len() > 0,
        ensures
            r == self.times().last(),
    {
        *(&self.time_q[self.time_q.len() - 1])
    }

    /// Ring-mode enqueue: grows the queues until the window is full, then
    /// drops the oldest pair for each new one; the readiness flag becomes
    /// exactly "a full window is present". While the queue length stays
    /// within the window, it never exceeds it.
    pub fn enqueue(&mut self, tstamp: Timestamp, payload: Payload)
        requires
            old(self).wf(),
            payload.wf(),
            -TS_BOUND_MILLIS <= tstamp <= TS_BOUND_MILLIS,
            old(self).times().len() > 0 ==> tstamp >= old(self).times().last(),
        ensures
            final(self).wf(),
            final(self).spec_window() == old(self).spec_window(),
            final(self).spec_info() == old(self).spec_info(),
            final(self).spec_zp_fict() == old(self).spec_zp_fict(),
            old(self).payloads().len() < old(self).spec_window() ==> {
                &&& final(self).payloads() == old(self).payloads().push(payload)
                &&& final(self).times() == old(self).times().push(tstamp)
            },
            old(self).payloads().len() >= old(self).spec_window() ==> {
                &&& final(self).payloads() == old(self).payloads().drop_first().push(payload)
                &&& final(self).times() == old(self).times().drop_first().push(tstamp)
            },
            final(self).payloads().len() == if old(self).payloads().len()
                < old(self).spec_window() {
                old(self).payloads().len() + 1
            } else {
                old(self).payloads().len()
            },
            final(self).spec_ready() <==> final(self).payloads().len()
                >= final(self).spec_window(),
            old(self).payloads().len() <= old(self).spec_window() ==> final(self).payloads().len()
                <= final(self).spec_window(),
    {
        let length = self.read_q.len();
        if length < self.window {
            self.read_q.push_back(payload);
            self.time_q.push_back(tstamp);
            self.ready = self.read_q.len() == self.window;
        } else {
            self.read_q.pop_front();
            self.time_q.pop_front();
            self.read_q.push_back(payload);
            self.time_q.push_back(tstamp);
            self.ready = true;
            proof {
                assert(final(self).payloads() =~= old(self).payloads().drop_first().push(payload));
                assert(final(self).times() =~= old(self).times().drop_first().push(tstamp));
            }
        }
    }

    /// Capture-mode enqueue: with `accumulate` set the pair is appended
    /// unconditionally and the readiness flag is left alone; otherwise this
    /// is the ring-mode enqueue.
    pub fn possibly_enqueue(&mut self, tstamp: Timestamp, payload: Payload, accumulate: bool)
        requires
            old(self).wf(),
            payload.wf(),
            -TS_BOUND_MILLIS <= tstamp <= TS_BOUND_MILLIS,
            old(self).times().len() > 0 ==> tstamp >= old(self).times().last(),
        ensures
            final(self).wf(),
            final(self).spec_window() == old(self).spec_window(),
            final(self).spec_info() == old(self).spec_info(),
            final(self).spec_zp_fict() == old(self).spec_zp_fict(),
            accumulate ==> {
                &&& final(self).payloads() == old(self).payloads().push(payload)
                &&& final(self).times() == old(self).times().push(tstamp)
                &&& final(self).spec_ready() == old(self).spec_ready()
            },
            !accumulate ==> {
                &&& old(self).payloads().len() < old(self).spec_window()
                    ==> final(self).payloads() == old(self).payloads().push(payload)
                &&& old(self).payloads().len() >= old(self).spec_window()
                    ==> final(self).payloads() == old(self).payloads().drop_first().push(payload)
                &&& (final(self).spec_ready() <==> final(self).payloads().len()
                    >= final(self).spec_window())
            },
            final(self).payloads().len() >= old(self).payloads().len(),
            final(self).payloads().len() <= old(self).payloads().len() + 1,
            possibly_enqueue_rel(*old(self), *final(self), tstamp, payload, accumulate),
    {
        if accumulate {
            self.read_q.push_back(payload);
            self.time_q.push_back(tstamp);
            return ;
        }
        self.enqueue(tstamp, payload);
    }

    /// The frequencies of the most recent full window, oldest first.
    pub closed spec fn window_freqs(&self) -> Seq<i64> {
        self.read_q@.subrange(
            self.read_q@.len() - self.window,
            self.read_q@.len() as int,
        ).map_values(|p: Payload| p.spec_freq())
    }

    /// The statistics of the most recent full window: the median frequency,
    /// the sample standard deviation around that median (rounded down), and
    /// the window's time span.
    pub fn median(&self) -> (r: WindowStats)
        requires
            self.wf(),
            self.payloads().len() >= self.spec_window(),
        ensures
            r.freq_millihz == median_spec(self.window_freqs()),
            0 <= r.freq_millihz <= FREQ_BOUND_MILLIHZ,
            r.t0 == self.times()[self.times().len() - self.spec_window()],
            r.t1 == self.times().last(),
            r.t0 <= r.t1,
            r.duration_secs == (r.t1 - r.t0) / 1000,
            r.stdev_millihz >= 0,
            (r.stdev_millihz * r.stdev_millihz) as int <= variance_of(
                self.window_freqs(),
                r.freq_millihz as int,
            ) < ((r.stdev_millihz + 1) * (r.stdev_millihz + 1)) as int,
    {
        let len = self.read_q.len();
        let from = len - self.window;
        let mut freqs: Vec<i64> = Vec::new();
        let mut i: usize = from;
        while i < len
            invariant
                from <= i <= len,
                len == self.read_q@.len() == self.time_q@.len(),
                from == len - self.window,
                self.wf(),
                freqs@.len() == i - from,
                forall|k: int|
                    0 <= k < freqs@.len() ==> freqs@[k] == (#[trigger] self.read_q@[from
                        + k]).spec_freq(),
            decreases len - i,
        {
            let p = &self.read_q[i];
            freqs.push(p.freq_millihz());
            i = i + 1;
        }
        proof {
            let ghost sub = self.read_q@.subrange(
                self.read_q@.len() - self.window,
                self.read_q@.len() as int,
            );
            assert(freqs@.len() == self.window_freqs().len());
            assert forall|k: int| 0 <= k < freqs@.len() implies freqs@[k]
                == self.window_freqs()[k] by {
                assert(sub[k] == self.read_q@[from + k]);
                assert(self.window_freqs()[k] == sub[k].spec_freq());
            }
            assert(freqs@ =~= self.window_freqs());
            assert forall|k: int| 0 <= k < freqs@.len() implies 0 <= #[trigger] freqs@[k]
                <= FREQ_BOUND_MILLIHZ by {
                assert(self.read_q@[from + k].wf());
            }
        }
        let freq_median = median(&freqs);
        proof {
            lemma_median_in_range(freqs@, 0, FREQ_BOUND_MILLIHZ as int);
        }
        let stdev = stdev_around(&freqs, freq_median);
        let t0 = *(&self.time_q[from]);
        let t1 = *(&self.time_q[len - 1]);
        let duration_secs = (t1 - t0) / 1000;
        WindowStats { freq_millihz: freq_median, stdev_millihz: stdev, t0, t1, duration_secs }
    }
}

/// Relation between a buffer before and after `possibly_enqueue`: in
/// capture mode the pair is appended and readiness is untouched; in ring
/// mode the window either grows by one or slides, and readiness says
/// exactly that a full window is present.
pub open spec fn possibly_enqueue_rel(
    pre: SamplesBuffer,
    post: SamplesBuffer,
    tstamp: Timestamp,
    payload: Payload,
    accumulate: bool,
) -> bool {
    &&& post.spec_window() == pre.spec_window()
    &&& post.spec_info() == pre.spec_info()
    &&& post.spec_zp_fict() == pre.spec_zp_fict()
    &&& if accumulate {
        &&& post.payloads() == pre.payloads().push(payload)
        &&& post.times() == pre.times().push(tstamp)
        &&& post.spec_ready() == pre.spec_ready()
    } else {
        &&& (pre.payloads().len() < pre.spec_window() ==> post.payloads() == pre.payloads().push(
            payload,
        ) && post.times() == pre.times().push(tstamp))
        &&& (pre.payloads().len() >= pre.spec_window() ==> post.payloads()
            == pre.payloads().drop_first().push(payload) && post.times()
            == pre.times().drop_first().push(tstamp))
        &&& (post.spec_ready() <==> post.payloads().len() >= post.spec_window())
    }
}

/// What the buffer invariant guarantees of every reachable state: the two
/// parallel queues always have the same length, the window is positive,
/// and readiness never claims a window that is not there.
pub proof fn lemma_buffer_invariant(b: &SamplesBuffer)
    requires
        b.wf(),
    ensures
        b.payloads().len() == b.times().len(),
        1 <= b.spec_window() <= WINDOW_BOUND,
        b.spec_ready() ==> b.payloads().len() >= b.spec_window(),
{
}

/// What the buffer invariant guarantees of the timestamp queue: it is
/// nondecreasing and bounded.
pub proof fn lemma_times_facts(b: &SamplesBuffer)
    requires
        b.wf(),
    ensures
        forall|i: int, j: int| 0 <= i < j < b.times().len() ==> b.times()[i] <= b.times()[j],
        forall|i: int|
            0 <= i < b.times().len() ==> -TS_BOUND_MILLIS <= #[trigger] b.times()[i]
                <= TS_BOUND_MILLIS,
{
}

/// The median of a sequence lies within any bounds that hold for all its
/// elements.
pub proof fn lemma_median_in_range(v: Seq<i64>, lo: int, hi: int)
    requires
        v.len() > 0,
        lo <= hi,
        forall|i: int| 0 <= i < v.len() ==> lo <= #[trigger] v[i] <= hi,
    ensures
        lo <= median_spec(v) <= hi,
{
    broadcast use vstd::seq_lib::group_to_multiset_ensures;

    let s = crate::auxiliary::sorted_of(v);
    v.lemma_sort_by_ensures(crate::auxiliary::i64_le());
    assert(s.to_multiset().len() == v.to_multiset().len());
    assert(s.len() == v.len());
    assert forall|i: int| 0 <= i < s.len() implies lo <= #[trigger] s[i] <= hi by {
        assert(s.contains(s[i]));
        assert(v.contains(s[i]));
    }
    let n = v.len() as int;
    if n % 2 == 1 {
    } else {
        let a = s[n / 2 - 1];
        let b = s[n / 2];
        assert(median_spec(v) == round_div_spec(a + b, 2));
    }
}

/// The sample standard deviation of `v` around `m`, rounded down; zero when
/// `v` has fewer than two elements.
fn stdev_around(v: &Vec<i64>, m: i64) -> (r: i64)
    requires
        v@.len() <= WINDOW_BOUND,
        -FREQ_BOUND_MILLIHZ <= m <= FREQ_BOUND_MILLIHZ,
        forall|i: int|
            0 <= i < v@.len() ==> -FREQ_BOUND_MILLIHZ <= #[trigger] v@[i] <= FREQ_BOUND_MILLIHZ,
    ensures
        r >= 0,
        (r * r) as int <= variance_of(v@, m as int) < ((r + 1) * (r + 1)) as int,
{
    if v.len() < 2 {
        return 0;
    }
    let mut sum: i128 = 0;
    let mut j: usize = 0;
    proof {
        assert(v@.take(0int) =~= Seq::<i64>::empty());
    }
    while j < v.len()
        invariant
            j <= v@.len() <= WINDOW_BOUND,
            -FREQ_BOUND_MILLIHZ <= m <= FREQ_BOUND_MILLIHZ,
            forall|i: int|
                0 <= i < v@.len() ==> -FREQ_BOUND_MILLIHZ <= #[trigger] v@[i]
                    <= FREQ_BOUND_MILLIHZ,
            sum == sum_sq_dev(v@.take(j as int), m as int),
            0 <= sum <= j * 0x4_0000_0000_0000_0000_0000_0000,
        decreases v@.len() - j,
    {
        let dx: i128 = (v[j] as i128) - (m as i128);
        proof {
            assert(v@.take(j as int + 1).drop_last() =~= v@.take(j as int));
            assert(v@.take(j as int + 1).last() == v@[j as int]);
            assert(dx * dx <= 0x4_0000_0000_0000_0000_0000_0000) by (nonlinear_arith)
                requires
                    -0x2_0000_0000_0000 <= dx <= 0x2_0000_0000_0000,
            ;
            assert(dx * dx >= 0) by (nonlinear_arith);
        }
        sum = sum + dx * dx;
        j = j + 1;
    }
    proof {
        assert(v@.take(v@.len() as int) =~= v@);
    }
    let variance: i128 = sum / ((v.len() - 1) as i128);
    proof {
        vstd::arithmetic::div_mod::lemma_div_is_ordered_by_denominator(sum as int, 1, (v@.len() - 1) as int);
        assert(variance <= sum);
        assert(variance == variance_of(v@, m as int));
    }
    isqrt(variance)
}

/// The integer square root, rounded down.
fn isqrt(x: i128) -> (r: i64)
    requires
        0 <= x <= 0x40_0000_0000_0000_0000_0000_0000_0000,
    ensures
        r >= 0,
        (r * r) as int <= x < ((r + 1) * (r + 1)) as int,
{
    let mut lo: i64 = 0;
    let mut hi: i64 = 0x1000_0000_0000_0000;
    proof {
        assert((0x1000_0000_0000_0000i128 + 1) * (0x1000_0000_0000_0000i128 + 1)
            > 0x40_0000_0000_0000_0000_0000_0000_0000) by (nonlinear_arith);
    }
    while lo < hi
        invariant
            0 <= lo <= hi <= 0x1000_0000_0000_0000,
            (lo as i128) * (lo as i128) <= x,
            x < ((hi as i128) + 1) * ((hi as i128) + 1),
        decreases hi - lo,
    {
        let mid: i64 = lo + (hi - lo + 1) / 2;
        proof {
            assert(lo < mid <= hi);
            assert((mid as i128) * (mid as i128) <= 0x1000000000000000000000000000000) by (nonlinear_arith)
                requires
                    0 <= mid <= 0x1000_0000_0000_0000,
            ;
        }
        if (mid as i128) * (mid as i128) <= x {
            lo = mid;
        } else {
            hi = mid - 1;
            proof {
                assert(((hi as i128) + 1) * ((hi as i128) + 1) == (mid as i128) * (mid as i128));
            }
        }
    }
    proof {
        assert(((lo as i128) + 1) * ((lo as i128) + 1) == ((lo + 1) as i128) * ((lo + 1) as i128));
    }
    lo
}

} // verus!
