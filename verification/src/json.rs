//! Decoder for the test photometer's structured readings: one flat JSON
//! object per datagram, parsed by the verified frame grammar and passed
//! through a duplicate filter keyed on the datagram sequence number.

use vstd::prelude::*;
use vstd::string::StrSliceExecFns;

use crate::payload::{DecodeError, Json, Payload};
use crate::structured::{frame_spec, parse_frame, FrameModel};
use crate::Timestamp;

verus! {

/// The sequence number stored after one reading is processed.
pub open spec fn step_state(prev: Option<u32>, udp: u32) -> Option<u32> {
    Some(udp)
}

/// Whether the reading is emitted: it is, unless its sequence number
/// repeats the stored one.
pub open spec fn step_emits(prev: Option<u32>, udp: u32) -> bool {
    prev != Some(udp)
}

/// The reading a parsed frame stands for, the name field aside.
pub open spec fn reading_matches(j: Json, m: FrameModel, s: Seq<char>) -> bool {
    &&& j.udp == m.udp
    &&& j.rev == m.rev
    &&& j.name@ == s.subrange(m.name.0, m.name.1)
    &&& j.freq == m.freq
    &&& j.mag == m.mag
    &&& j.tamb == m.tamb
    &&& j.tsky == m.tsky
    &&& j.wdbm == m.wdbm
    &&& j.ain == m.ain
    &&& j.zp == m.zp
}

/// What one decode step guarantees: a parsed frame refreshes the stored
/// sequence number and is emitted unless it repeats it; anything else is
/// an invalid frame and leaves the filter alone.
pub open spec fn decode_post(
    pre: Option<u32>,
    post: Option<u32>,
    tstamp: Timestamp,
    s: Seq<char>,
    r: Result<(Timestamp, Payload), DecodeError>,
) -> bool {
    match frame_spec(s) {
        Some(m) => {
            &&& post == step_state(pre, m.udp as u32)
            &&& (r is Ok <==> step_emits(pre, m.udp as u32))
            &&& match r {
                Ok((t, p)) => {
                    &&& t == tstamp
                    &&& p matches Payload::Json(j) && reading_matches(j, m, s)
                    &&& p.wf()
                },
                Err(e) => e == DecodeError::Duplicate,
            }
        },
        None => r == Err::<(Timestamp, Payload), DecodeError>(DecodeError::InvalidFrame) && post
            == pre,
    }
}

/// The structured stream's decoder: the duplicate filter's single slot.
pub struct Decoder {
    /// Sequence number of the last reading seen.
    pub prev_udp: Option<u32>,
}

impl Decoder {
    /// A decoder that has seen no reading yet.
    pub fn new() -> (r: Self)
        ensures
            r.prev_udp is None,
    {
        Decoder { prev_udp: None }
    }

    /// Decodes one datagram: parses the frame grammar, suppresses a
    /// reading whose sequence number repeats the previous one, and stamps
    /// the survivor with the given timestamp.
    pub fn decode(&mut self, tstamp: Timestamp, line: &str) -> (r: Result<
        (Timestamp, Payload),
        DecodeError,
    >)
        ensures
            decode_post(old(self).prev_udp, final(self).prev_udp, tstamp, line@, r),
    {
        let parsed = match parse_frame(line) {
            Some(p) => p,
            None => {
                return Err(DecodeError::InvalidFrame);
            },
        };
        let (m, _g) = parsed;
        let reading = Json {
            udp: m.udp,
            rev: m.rev,
            name: line.substring_char(m.name.0, m.name.1).to_owned(),
            freq: m.freq,
            mag: m.mag,
            tamb: m.tamb,
            tsky: m.tsky,
            wdbm: m.wdbm,
            ain: m.ain,
            zp: m.zp,
        };
        self.filter(tstamp, reading)
    }

    /// Passes one already-parsed reading through the duplicate filter and
    /// stamps the survivor with the given timestamp.
    pub fn filter(&mut self, tstamp: Timestamp, reading: Json) -> (r: Result<
        (Timestamp, Payload),
        DecodeError,
    >)
        requires
            reading.wf(),
        ensures
            final(self).prev_udp == step_state(old(self).prev_udp, reading.udp),
            r is Ok <==> step_emits(old(self).prev_udp, reading.udp),
            match r {
                Ok((t, p)) => t == tstamp && p == Payload::Json(reading) && p.wf(),
                Err(e) => e == DecodeError::Duplicate,
            },
    {
        let dup = match &self.prev_udp {
            Some(u) => *u == reading.udp,
            None => false,
        };
        self.prev_udp = Some(reading.udp);
        if dup {
            Err(DecodeError::Duplicate)
        } else {
            Ok((tstamp, Payload::Json(reading)))
        }
    }
}

/// Two consecutive readings with the same sequence number emit at most one
/// sample: the second is always suppressed.
pub proof fn lemma_equal_seq_emits_once(prev: Option<u32>, udp: u32)
    ensures
        !step_emits(step_state(prev, udp), udp),
        prev is None ==> step_emits(prev, udp),
{
}

} // verus!
