//! The decoded readings of the two photometers and the payload union that
//! travels through the sample channel.

use vstd::prelude::*;
use vstd::string::StringSliceAdditionalSpecFns;

verus! {

/// Largest frequency the pipeline accepts, in milli-hertz (one gigahertz).
/// Keeping every stored frequency under this bound keeps all the window
/// statistics free of overflow.
pub const FREQ_BOUND_MILLIHZ: i64 = 1_000_000_000_000;

/// A reading of the test photometer, one JSON object per UDP datagram on
/// the wire. All quantities are scaled integers (see the crate root).
#[derive(Debug)]
pub struct Json {
    /// Datagram sequence number; consecutive duplicates share it.
    pub udp: u32,
    /// Payload revision.
    pub rev: i8,
    /// Device name.
    pub name: String,
    /// Frequency in milli-hertz.
    pub freq: i64,
    /// Magnitude reported by the device, in milli-magnitudes.
    pub mag: i64,
    /// Ambient temperature in centi-degrees.
    pub tamb: i64,
    /// Sky temperature in centi-degrees.
    pub tsky: i64,
    /// Received signal strength in dBm.
    pub wdbm: i16,
    /// Auxiliary analog input.
    pub ain: i16,
    /// Zero point installed on the device, in centi-units.
    pub zp: i64,
}

impl Json {
    /// The stored frequency is within the pipeline's bound.
    pub open spec fn wf(&self) -> bool {
        0 <= self.freq <= FREQ_BOUND_MILLIHZ
    }
}

/// A reading of the reference photometer, one bracketed frame per serial
/// line on the wire.
#[derive(Clone, Copy, Debug)]
pub struct Cristogg {
    /// Frequency in milli-hertz.
    pub freq: i64,
    /// Box temperature in centi-degrees.
    pub tbox: i64,
    /// Sky temperature in centi-degrees.
    pub tsky: i64,
    /// Zero-point field of the frame, as transmitted.
    pub zp: i64,
}

impl Cristogg {
    /// The stored frequency is within the pipeline's bound.
    pub open spec fn wf(&self) -> bool {
        0 <= self.freq <= FREQ_BOUND_MILLIHZ
    }

    /// Two consecutive readings are duplicates when frequency and both
    /// temperatures coincide.
    pub open spec fn same_reading(&self, other: &Cristogg) -> bool {
        self.freq == other.freq && self.tsky == other.tsky && self.tbox == other.tbox
    }
}

/// The union of the two payload shapes; the calibration engine routes on
/// the variant.
#[derive(Debug)]
pub enum Payload {
    Json(Json),
    Cristogg(Cristogg),
}

impl Payload {
    /// The frequency carried by either variant, in milli-hertz.
    pub open spec fn spec_freq(&self) -> i64 {
        match self {
            Payload::Json(p) => p.freq,
            Payload::Cristogg(p) => p.freq,
        }
    }

    /// The stored frequency is within the pipeline's bound.
    pub open spec fn wf(&self) -> bool {
        match self {
            Payload::Json(p) => p.wf(),
            Payload::Cristogg(p) => p.wf(),
        }
    }

    /// The frequency carried by either variant, in milli-hertz.
    pub fn freq_millihz(&self) -> (r: i64)
        ensures
            r == self.spec_freq(),
    {
        match self {
            Payload::Json(p) => p.freq,
            Payload::Cristogg(p) => p.freq,
        }
    }
}

/// The decoder of either stream, selected by the stream's role: the test
/// photometer sends structured JSON datagrams, the reference photometer
/// bracketed serial lines.
pub enum Decoder {
    Json(crate::json::Decoder),
    Cristogg(crate::cristogg::Decoder),
}

impl Decoder {
    /// Decodes one raw line with the decoder of its stream; each variant
    /// guarantees its own stream's decode relation.
    pub fn decode(&mut self, tstamp: crate::Timestamp, line: &str) -> (r: Result<
        (crate::Timestamp, Payload),
        DecodeError,
    >)
        ensures
            (*old(self)) is Json ==> (*final(self)) is Json && crate::json::decode_post(
                (*old(self))->Json_0.prev_udp,
                (*final(self))->Json_0.prev_udp,
                tstamp,
                line@,
                r,
            ),
            (*old(self)) is Cristogg ==> (*final(self)) is Cristogg
                && crate::cristogg::decode_post(
                (*old(self))->Cristogg_0.prev,
                (*final(self))->Cristogg_0.prev,
                tstamp,
                line.spec_bytes(),
                r,
            ),
    {
        match self {
            Decoder::Json(d) => d.decode(tstamp, line),
            Decoder::Cristogg(d) => d.decode(tstamp, line),
        }
    }
}

/// Why a frame was not turned into a sample.
#[derive(Clone, Copy, PartialEq, Eq, Structural, Debug)]
pub enum DecodeError {
    /// The line was empty after trimming.
    EmptyFrame,
    /// The line matched neither frequency encoding of the bracketed
    /// grammar.
    InvalidFrame,
    /// The reading equals its immediate predecessor and was suppressed.
    Duplicate,
}

/// Why a zero-point readback did not confirm the written value.
#[derive(Clone, Copy, PartialEq, Eq, Structural, Debug)]
pub enum UpdateError {
    /// The device page held no zero-point field.
    Verify,
    /// The device page held a zero point different from the written one.
    Mismatch,
}

} // verus!
