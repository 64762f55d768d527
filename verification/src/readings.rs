//! The live reading mode: one or two sample buffers fed from the channel,
//! with a stride counter that throttles how often the window statistics
//! are displayed when the two streams run at different cadences. The
//! unverified edge owns the channel loop and the printing.

use vstd::prelude::*;

use crate::auxiliary::round_div_spec;
use crate::buffer::{
    lemma_buffer_invariant, possibly_enqueue_rel, SamplesBuffer, WindowStats, TS_BOUND_MILLIS,
    WINDOW_BOUND,
};
use crate::discovery::Info;
use crate::payload::Payload;
use crate::Timestamp;

verus! {

/// The display stride from a speed ratio given as the integer fraction
/// `a / b`: the rounded ratio of the faster stream to the slower one,
/// saturated into `1 ..= 255`; a degenerate time base saturates high.
pub open spec fn stride_of(a: int, b: int) -> int {
    let hi = if a >= b {
        a
    } else {
        b
    };
    let lo = if a >= b {
        b
    } else {
        a
    };
    if lo == 0 {
        if hi == 0 {
            1
        } else {
            255
        }
    } else {
        let q = round_div_spec(hi, lo);
        if q > 255 {
            255
        } else if q < 1 {
            1
        } else {
            q
        }
    }
}

/// The whole-queue time span of a buffer, in whole seconds.
pub open spec fn span_secs(b: SamplesBuffer) -> int {
    (b.times().last() - b.times()[0]) / 1000
}

/// The display stride when both streams are read: the speed of one stream
/// relative to the other, each speed being queue length per time span.
pub open spec fn stride_both(refe: SamplesBuffer, test: SamplesBuffer) -> int {
    stride_of(
        refe.payloads().len() * span_secs(test),
        span_secs(refe) * test.payloads().len(),
    )
}

/// The display stride when a single stream is read: the stream's own
/// speed in samples per second, rounded and saturated into `1 ..= 255`.
pub open spec fn stride_single(b: SamplesBuffer) -> int {
    if span_secs(b) == 0 {
        255
    } else {
        let q = round_div_spec(b.payloads().len() as int, span_secs(b));
        if q > 255 {
            255
        } else if q < 1 {
            1
        } else {
            q
        }
    }
}

/// The stride the counter currently steps with, from the buffers present.
pub open spec fn current_stride(r: &Reading) -> int {
    match (r.spec_refe(), r.spec_test()) {
        (Some(rb), Some(tb)) => stride_both(rb, tb),
        (Some(rb), None) => stride_single(rb),
        (None, Some(tb)) => stride_single(tb),
        (None, None) => 1,
    }
}

/// The reading mode's state: up to two buffers and the display counter.
pub struct Reading {
    refe: Option<SamplesBuffer>,
    test: Option<SamplesBuffer>,
    counter: u8,
}

impl Reading {
    /// The reference-stream buffer, when that stream is read.
    pub closed spec fn spec_refe(&self) -> Option<SamplesBuffer> {
        self.refe
    }

    /// The test-stream buffer, when that stream is read.
    pub closed spec fn spec_test(&self) -> Option<SamplesBuffer> {
        self.test
    }

    /// The display counter.
    pub closed spec fn spec_counter(&self) -> u8 {
        self.counter
    }

    /// At least one stream is read, the buffers are well formed, and the
    /// queues never outgrow their windows (the reading mode only ever
    /// ring-enqueues).
    pub closed spec fn wf(&self) -> bool {
        &&& (self.refe is Some || self.test is Some)
        &&& (self.refe is Some ==> self.refe.unwrap().wf() && self.refe.unwrap().payloads().len()
            <= self.refe.unwrap().spec_window())
        &&& (self.test is Some ==> self.test.unwrap().wf() && self.test.unwrap().payloads().len()
            <= self.test.unwrap().spec_window())
    }

    /// Sets up the reading mode over the streams whose descriptors are
    /// given.
    pub fn new(
        window: usize,
        ref_info: Option<Info>,
        test_info: Option<Info>,
        zp_fict: i64,
    ) -> (r: Self)
        requires
            1 <= window <= WINDOW_BOUND,
            ref_info is Some || test_info is Some,
        ensures
            r.wf(),
            r.spec_counter() == 0,
            r.spec_refe() is Some <==> ref_info is Some,
            r.spec_test() is Some <==> test_info is Some,
            r.spec_refe() is Some ==> !r.spec_refe().unwrap().spec_ready()
                && r.spec_refe().unwrap().payloads().len() == 0
                && r.spec_refe().unwrap().times().len() == 0,
            r.spec_test() is Some ==> !r.spec_test().unwrap().spec_ready()
                && r.spec_test().unwrap().payloads().len() == 0
                && r.spec_test().unwrap().times().len() == 0,
    {
        let refe = match ref_info {
            Some(info) => Some(
                SamplesBuffer::new(window, info, String::from_str("REF."), zp_fict),
            ),
            None => None,
        };
        let test = match test_info {
            Some(info) => Some(
                SamplesBuffer::new(window, info, String::from_str("TEST"), zp_fict),
            ),
            None => None,
        };
        Reading { refe, test, counter: 0 }
    }

    /// Which buffer an arriving sample goes to: when both streams are
    /// read, the payload's variant routes it; when one is read, every
    /// sample goes there.
    pub open spec fn routes_to_refe(&self, payload: Payload) -> bool {
        if self.spec_refe() is Some && self.spec_test() is Some {
            payload is Cristogg
        } else {
            self.spec_refe() is Some
        }
    }

    /// The timestamp of the newest sample of the buffer the payload goes
    /// to, if any; arriving timestamps must not run backwards per stream.
    pub open spec fn last_time_of_target(&self, payload: Payload) -> Option<Timestamp> {
        let b = if self.routes_to_refe(payload) {
            self.spec_refe().unwrap()
        } else {
            self.spec_test().unwrap()
        };
        if b.times().len() > 0 {
            Some(b.times().last())
        } else {
            None
        }
    }

    /// Whether the display fires after this sample: the target buffers are
    /// ready and the stride counter is at zero.
    pub open spec fn display_now(&self, post: &Reading) -> bool {
        &&& (post.spec_refe() is Some ==> post.spec_refe().unwrap().spec_ready())
        &&& (post.spec_test() is Some ==> post.spec_test().unwrap().spec_ready())
        &&& self.spec_counter() == 0
    }

    /// Takes one sample in: routes it to its buffer in ring mode, and when
    /// every buffer present is ready, steps the display counter modulo the
    /// stride; the display fires when the counter was at zero.
    pub fn on_sample(&mut self, tstamp: Timestamp, payload: Payload) -> (r: bool)
        requires
            old(self).wf(),
            payload.wf(),
            -TS_BOUND_MILLIS <= tstamp <= TS_BOUND_MILLIS,
            old(self).last_time_of_target(payload) is Some ==> tstamp >= old(
                self,
            ).last_time_of_target(payload).unwrap(),
        ensures
            final(self).wf(),
            final(self).spec_refe() is Some <==> old(self).spec_refe() is Some,
            final(self).spec_test() is Some <==> old(self).spec_test() is Some,
            old(self).routes_to_refe(payload) ==> possibly_enqueue_rel(
                old(self).spec_refe().unwrap(),
                final(self).spec_refe().unwrap(),
                tstamp,
                payload,
                false,
            ) && final(self).spec_test() == old(self).spec_test(),
            !old(self).routes_to_refe(payload) ==> possibly_enqueue_rel(
                old(self).spec_test().unwrap(),
                final(self).spec_test().unwrap(),
                tstamp,
                payload,
                false,
            ) && final(self).spec_refe() == old(self).spec_refe(),
            r == old(self).display_now(&*final(self)),
            ({
                let all_ready = (final(self).spec_refe() is Some
                    ==> final(self).spec_refe().unwrap().spec_ready()) && (final(self).spec_test()
                    is Some ==> final(self).spec_test().unwrap().spec_ready());
                &&& (!all_ready ==> final(self).spec_counter() == old(self).spec_counter())
                &&& (all_ready ==> final(self).spec_counter() == (old(self).spec_counter() + 1)
                    % current_stride(&*final(self)))
            }),
    {
        let to_refe = match (&self.refe, &self.test) {
            (Some(_), Some(_)) => matches!(payload, Payload::Cristogg(_)),
            (Some(_), None) => true,
            _ => false,
        };
        if to_refe {
            match &mut self.refe {
                Some(b) => b.enqueue(tstamp, payload),
                None => {},
            }
        } else {
            match &mut self.test {
                Some(b) => b.enqueue(tstamp, payload),
                None => {},
            }
        }
        let ref_ready = match &self.refe {
            Some(b) => b.is_ready(),
            None => true,
        };
        let test_ready = match &self.test {
            Some(b) => b.is_ready(),
            None => true,
        };
        if !(ref_ready && test_ready) {
            return false;
        }
        let display = self.counter == 0;
        let n = self.stride();
        self.counter = ((self.counter as u16 + 1) % (n as u16)) as u8;
        display
    }

    /// The current display stride, from the speeds of the buffers present.
    fn stride(&self) -> (r: u8)
        requires
            self.wf(),
            self.spec_refe() is Some ==> self.spec_refe().unwrap().spec_ready(),
            self.spec_test() is Some ==> self.spec_test().unwrap().spec_ready(),
        ensures
            1 <= r <= 255,
            match (self.spec_refe(), self.spec_test()) {
                (Some(rb), Some(tb)) => r == stride_both(rb, tb),
                (Some(rb), None) => r == stride_single(rb),
                (None, Some(tb)) => r == stride_single(tb),
                (None, None) => true,
            },
    {
        match (&self.refe, &self.test) {
            (Some(rb), Some(tb)) => {
                proof {
                    lemma_buffer_invariant(rb);
                    lemma_buffer_invariant(tb);
                    lemma_span_bounds(rb);
                    lemma_span_bounds(tb);
                }
                let dur_r = (rb.last_time() - rb.first_time()) / 1000;
                let dur_t = (tb.last_time() - tb.first_time()) / 1000;
                let len_r = rb.len() as i64;
                let len_t = tb.len() as i64;
                proof {
                    assert(0 <= len_r * dur_t < 0x4000_0000_0000_0000) by (nonlinear_arith)
                        requires
                            0 <= len_r <= WINDOW_BOUND,
                            0 <= dur_t <= 2 * TS_BOUND_MILLIS / 1000,
                            WINDOW_BOUND == 0x10_0000,
                            TS_BOUND_MILLIS == 0x2000_0000_0000,
                    ;
                    assert(0 <= dur_r * len_t < 0x4000_0000_0000_0000) by (nonlinear_arith)
                        requires
                            0 <= len_t <= WINDOW_BOUND,
                            0 <= dur_r <= 2 * TS_BOUND_MILLIS / 1000,
                            WINDOW_BOUND == 0x10_0000,
                            TS_BOUND_MILLIS == 0x2000_0000_0000,
                    ;
                }
                stride_exec(len_r * dur_t, dur_r * len_t)
            },
            (Some(rb), None) => {
                proof {
                    lemma_buffer_invariant(rb);
                    lemma_span_bounds(rb);
                }
                let dur = (rb.last_time() - rb.first_time()) / 1000;
                if dur == 0 {
                    255
                } else {
                    clamp_stride(crate::auxiliary::round_div(rb.len() as i64, dur))
                }
            },
            (None, Some(tb)) => {
                proof {
                    lemma_buffer_invariant(tb);
                    lemma_span_bounds(tb);
                }
                let dur = (tb.last_time() - tb.first_time()) / 1000;
                if dur == 0 {
                    255
                } else {
                    clamp_stride(crate::auxiliary::round_div(tb.len() as i64, dur))
                }
            },
            (None, None) => 1,
        }
    }

    /// The window statistics of every buffer that is present and ready,
    /// reference first.
    pub fn stats(&self) -> (r: (Option<WindowStats>, Option<WindowStats>))
        requires
            self.wf(),
        ensures
            r.0 is Some <==> (self.spec_refe() is Some && self.spec_refe().unwrap().spec_ready()),
            r.1 is Some <==> (self.spec_test() is Some && self.spec_test().unwrap().spec_ready()),
            r.0 is Some ==> crate::calibration::Calibration::window_stats_ok(
                &r.0.unwrap(),
                &self.spec_refe().unwrap(),
            ),
            r.1 is Some ==> crate::calibration::Calibration::window_stats_ok(
                &r.1.unwrap(),
                &self.spec_test().unwrap(),
            ),
    {
        let r0 = match &self.refe {
            Some(b) => {
                if b.is_ready() {
                    proof {
                        lemma_buffer_invariant(b);
                    }
                    Some(b.median())
                } else {
                    None
                }
            },
            None => None,
        };
        let r1 = match &self.test {
            Some(b) => {
                if b.is_ready() {
                    proof {
                        lemma_buffer_invariant(b);
                    }
                    Some(b.median())
                } else {
                    None
                }
            },
            None => None,
        };
        (r0, r1)
    }
}

/// A well-formed nonempty buffer spans a bounded, nonnegative number of
/// seconds.
proof fn lemma_span_bounds(b: &SamplesBuffer)
    requires
        b.wf(),
        b.payloads().len() > 0,
    ensures
        0 <= span_secs(*b) <= 2 * TS_BOUND_MILLIS / 1000,
        b.payloads().len() == b.times().len(),
{
    lemma_buffer_invariant(b);
    crate::buffer::lemma_times_facts(b);
}

/// Saturates a stride into `1 ..= 255`.
fn clamp_stride(q: i64) -> (r: u8)
    ensures
        r == if q > 255 {
            255int
        } else if q < 1 {
            1int
        } else {
            q as int
        },
{
    if q > 255 {
        255
    } else if q < 1 {
        1
    } else {
        q as u8
    }
}

/// The saturated rounded ratio of two nonnegative numbers.
fn stride_exec(a: i64, b: i64) -> (r: u8)
    requires
        0 <= a < 0x4000_0000_0000_0000,
        0 <= b < 0x4000_0000_0000_0000,
    ensures
        r == stride_of(a as int, b as int),
        1 <= r <= 255,
{
    let hi = if a >= b {
        a
    } else {
        b
    };
    let lo = if a >= b {
        b
    } else {
        a
    };
    if lo == 0 {
        if hi == 0 {
            1
        } else {
            255
        }
    } else {
        let q = crate::auxiliary::round_div(hi, lo);
        if q > 255 {
            255
        } else if q < 1 {
            1
        } else {
            q as u8
        }
    }
}

} // verus!
