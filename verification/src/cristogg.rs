//! Decoder for the reference photometer's bracketed serial frames, e.g.
//! `<fH 01000><tA +2500><tO +2000><mZ -0000>`, together with an encoder for
//! the same grammar and the duplicate-suppression filter.
//!
//! A frame starts with `<fH` (frequency in the hertz encoding) or `<fm`
//! (milli-hertz encoding); either way the five digits carry the frequency
//! in milli-hertz. The three signed four-digit groups carry the box
//! temperature and sky temperature in centi-degrees and the raw zero-point
//! field. Anything may follow the closing `>` of the fourth group.

use vstd::prelude::*;
use vstd::string::StringSliceAdditionalSpecFns;

use crate::payload::{Cristogg, DecodeError, Payload, FREQ_BOUND_MILLIHZ};
use crate::text::{
    all_digits, check_digits, digit_seq, digits_at, digits_value, lemma_digit_seq_value,
    lemma_digits_value_bound, pow10, push_digits,
};
use crate::Timestamp;

verus! {

/// A `+` or `-` stands at position `i`.
pub open spec fn sign_ok(s: Seq<u8>, i: int) -> bool {
    s[i] == 43 || s[i] == 45
}

/// The value of the sign byte at `i` followed by four digits.
pub open spec fn signed4_val(s: Seq<u8>, i: int) -> int {
    if s[i] == 45 {
        -digits_value(s.subrange(i + 1, i + 5))
    } else {
        digits_value(s.subrange(i + 1, i + 5))
    }
}

/// The fixed 40-byte prefix grammar of a bracketed frame.
pub open spec fn frame_ok(s: Seq<u8>) -> bool {
    &&& s.len() >= 40
    &&& s[0] == 60  // '<'
    &&& s[1] == 102  // 'f'
    &&& (s[2] == 72 || s[2] == 109)  // 'H' or 'm'
    &&& (s[3] == 32 || s[3] == 43)  // ' ' or '+'
    &&& all_digits(s.subrange(4, 9))
    &&& s[9] == 62 && s[10] == 60 && s[11] == 116 && s[12] == 65 && s[13] == 32  // "><tA "
    &&& sign_ok(s, 14)
    &&& all_digits(s.subrange(15, 19))
    &&& s[19] == 62 && s[20] == 60 && s[21] == 116 && s[22] == 79 && s[23] == 32  // "><tO "
    &&& sign_ok(s, 24)
    &&& all_digits(s.subrange(25, 29))
    &&& s[29] == 62 && s[30] == 60 && s[31] == 109 && s[32] == 90 && s[33] == 32  // "><mZ "
    &&& sign_ok(s, 34)
    &&& all_digits(s.subrange(35, 39))
    &&& s[39] == 62  // '>'
}

/// What a bracketed frame decodes to, when it matches the grammar.
pub open spec fn frame_spec(s: Seq<u8>) -> Option<Cristogg> {
    if frame_ok(s) {
        Some(
            Cristogg {
                freq: digits_value(s.subrange(4, 9)) as i64,
                tbox: signed4_val(s, 14) as i64,
                tsky: signed4_val(s, 24) as i64,
                zp: signed4_val(s, 34) as i64,
            },
        )
    } else {
        None
    }
}

/// A decoded frame always carries bounded fields.
pub proof fn lemma_frame_fields_bounded(s: Seq<u8>)
    requires
        frame_spec(s) is Some,
    ensures
        ({
            let c = frame_spec(s).unwrap();
            &&& 0 <= c.freq <= 99999
            &&& -9999 <= c.tbox <= 9999
            &&& -9999 <= c.tsky <= 9999
            &&& -9999 <= c.zp <= 9999
            &&& c.wf()
        }),
{
    lemma_digits_value_bound(s.subrange(4, 9));
    lemma_digits_value_bound(s.subrange(15, 19));
    lemma_digits_value_bound(s.subrange(25, 29));
    lemma_digits_value_bound(s.subrange(35, 39));
    assert(pow10(5) == 100_000) by {
        reveal_with_fuel(pow10, 6);
    }
    assert(pow10(4) == 10_000) by {
        reveal_with_fuel(pow10, 5);
    }
}

/// Reads the sign byte and four digits at `i`.
fn signed4_at(s: &[u8], i: usize) -> (r: i64)
    requires
        i + 5 <= s@.len(),
        sign_ok(s@, i as int),
        all_digits(s@.subrange(i as int + 1, i as int + 5)),
    ensures
        r == signed4_val(s@, i as int),
{
    let n = s.len();
    let v = digits_at(s, i + 1, 4);
    if s[i] == 45 {
        -v
    } else {
        v
    }
}

/// Parses the fixed 40-byte prefix of a bracketed frame; `None` when the
/// line does not match the grammar.
pub fn matches(line: &[u8]) -> (r: Option<Cristogg>)
    ensures
        r == frame_spec(line@),
{
    if line.len() < 40 {
        return None;
    }
    if line[0] != 60 || line[1] != 102 || (line[2] != 72 && line[2] != 109) {
        return None;
    }
    if line[3] != 32 && line[3] != 43 {
        return None;
    }
    if !check_digits(line, 4, 5) {
        return None;
    }
    if line[9] != 62 || line[10] != 60 || line[11] != 116 || line[12] != 65 || line[13] != 32 {
        return None;
    }
    if line[14] != 43 && line[14] != 45 {
        return None;
    }
    if !check_digits(line, 15, 4) {
        return None;
    }
    if line[19] != 62 || line[20] != 60 || line[21] != 116 || line[22] != 79 || line[23] != 32 {
        return None;
    }
    if line[24] != 43 && line[24] != 45 {
        return None;
    }
    if !check_digits(line, 25, 4) {
        return None;
    }
    if line[29] != 62 || line[30] != 60 || line[31] != 109 || line[32] != 90 || line[33] != 32 {
        return None;
    }
    if line[34] != 43 && line[34] != 45 {
        return None;
    }
    if !check_digits(line, 35, 4) {
        return None;
    }
    if line[39] != 62 {
        return None;
    }
    let freq = digits_at(line, 4, 5);
    let tbox = signed4_at(line, 14);
    let tsky = signed4_at(line, 24);
    let zp = signed4_at(line, 34);
    Some(Cristogg { freq, tbox, tsky, zp })
}

/// The bracketed rendering of a reading whose fields are in range: the
/// frequency as `<fH` plus five digits, each remaining field as a sign and
/// four digits.
pub open spec fn encode_spec(c: Cristogg) -> Seq<u8> {
    seq![60u8, 102u8, 72u8, 32u8] + digit_seq(c.freq as int, 5) + seq![
        62u8,
        60u8,
        116u8,
        65u8,
        32u8,
    ] + sign_seq(c.tbox as int) + digit_seq(abs_of(c.tbox as int), 4) + seq![
        62u8,
        60u8,
        116u8,
        79u8,
        32u8,
    ] + sign_seq(c.tsky as int) + digit_seq(abs_of(c.tsky as int), 4) + seq![
        62u8,
        60u8,
        109u8,
        90u8,
        32u8,
    ] + sign_seq(c.zp as int) + digit_seq(abs_of(c.zp as int), 4) + seq![62u8]
}

/// The sign byte of a value: `-` for negatives, `+` otherwise.
pub open spec fn sign_seq(v: int) -> Seq<u8> {
    if v < 0 {
        seq![45u8]
    } else {
        seq![43u8]
    }
}

/// The absolute value.
pub open spec fn abs_of(v: int) -> int {
    if v < 0 {
        -v
    } else {
        v
    }
}

/// Fields that fit the fixed digit counts of the grammar.
pub open spec fn encodable(c: Cristogg) -> bool {
    &&& 0 <= c.freq <= 99999
    &&& -9999 <= c.tbox <= 9999
    &&& -9999 <= c.tsky <= 9999
    &&& -9999 <= c.zp <= 9999
}

/// Renders a reading as a bracketed frame.
pub fn encode_frame(c: &Cristogg) -> (r: Vec<u8>)
    requires
        encodable(*c),
    ensures
        r@ == encode_spec(*c),
{
    proof {
        assert(pow10(5) == 100_000) by {
            reveal_with_fuel(pow10, 6);
        }
        assert(pow10(4) == 10_000) by {
            reveal_with_fuel(pow10, 5);
        }
        crate::text::lemma_digit_seq_len(c.freq as int, 5);
        crate::text::lemma_digit_seq_len(abs_of(c.tbox as int), 4);
        crate::text::lemma_digit_seq_len(abs_of(c.tsky as int), 4);
        crate::text::lemma_digit_seq_len(abs_of(c.zp as int), 4);
    }
    let mut out: Vec<u8> = Vec::new();
    out.push(60);
    out.push(102);
    out.push(72);
    out.push(32);
    push_digits(&mut out, c.freq, 5);
    out.push(62);
    out.push(60);
    out.push(116);
    out.push(65);
    out.push(32);
    push_sign_and_digits(&mut out, c.tbox);
    out.push(62);
    out.push(60);
    out.push(116);
    out.push(79);
    out.push(32);
    push_sign_and_digits(&mut out, c.tsky);
    out.push(62);
    out.push(60);
    out.push(109);
    out.push(90);
    out.push(32);
    push_sign_and_digits(&mut out, c.zp);
    out.push(62);
    proof {
        assert(out@ =~= encode_spec(*c));
    }
    out
}

/// Appends a sign byte and the four-digit rendering of `|v|`.
fn push_sign_and_digits(out: &mut Vec<u8>, v: i64)
    requires
        -9999 <= v <= 9999,
        old(out)@.len() + 5 <= usize::MAX,
    ensures
        final(out)@ == old(out)@ + sign_seq(v as int) + digit_seq(abs_of(v as int), 4),
{
    proof {
        assert(pow10(4) == 10_000) by {
            reveal_with_fuel(pow10, 5);
        }
    }
    if v < 0 {
        out.push(45);
        push_digits(out, -v, 4);
    } else {
        out.push(43);
        push_digits(out, v, 4);
    }
    proof {
        assert(out@ =~= old(out)@ + sign_seq(v as int) + digit_seq(abs_of(v as int), 4));
    }
}

/// Decoding a frame rendered from in-range fields gives the fields back.
pub proof fn lemma_frame_roundtrip(c: Cristogg)
    requires
        encodable(c),
    ensures
        frame_spec(encode_spec(c)) == Some(c),
{
    let s = encode_spec(c);
    assert(pow10(5) == 100_000) by {
        reveal_with_fuel(pow10, 6);
    }
    assert(pow10(4) == 10_000) by {
        reveal_with_fuel(pow10, 5);
    }
    lemma_digit_seq_value(c.freq as int, 5);
    lemma_digit_seq_value(abs_of(c.tbox as int), 4);
    lemma_digit_seq_value(abs_of(c.tsky as int), 4);
    lemma_digit_seq_value(abs_of(c.zp as int), 4);
    assert(s.len() == 40);
    assert(s.subrange(4, 9) =~= digit_seq(c.freq as int, 5));
    assert(s.subrange(15, 19) =~= digit_seq(abs_of(c.tbox as int), 4));
    assert(s.subrange(25, 29) =~= digit_seq(abs_of(c.tsky as int), 4));
    assert(s.subrange(35, 39) =~= digit_seq(abs_of(c.zp as int), 4));
    assert(s[14] == sign_seq(c.tbox as int)[0]);
    assert(s[24] == sign_seq(c.tsky as int)[0]);
    assert(s[34] == sign_seq(c.zp as int)[0]);
    assert(frame_ok(s));
    assert(frame_spec(s).unwrap() == c);
}

/// The decoder's duplicate filter: the reading of the last well-formed
/// frame seen, if any.
pub struct Decoder {
    /// The previous reading, against which duplicates are detected.
    pub prev: Option<Cristogg>,
}

/// The stored reading after one line is processed: parsing refreshes it,
/// any other line leaves it alone.
pub open spec fn step_state(prev: Option<Cristogg>, s: Seq<u8>) -> Option<Cristogg> {
    match frame_spec(s) {
        Some(c) => Some(c),
        None => prev,
    }
}

/// The sample emitted for one line: the decoded reading, unless the line
/// does not parse or repeats the stored reading.
pub open spec fn step_output(prev: Option<Cristogg>, s: Seq<u8>) -> Option<Cristogg> {
    match frame_spec(s) {
        Some(c) => if prev is Some && prev.unwrap().same_reading(&c) {
            None
        } else {
            Some(c)
        },
        None => None,
    }
}

/// What one decode step guarantees: a parsed frame refreshes the stored
/// reading and is emitted unless it repeats it; an empty or unparsable
/// line is reported as such and leaves the filter alone.
pub open spec fn decode_post(
    pre: Option<Cristogg>,
    post: Option<Cristogg>,
    tstamp: Timestamp,
    s: Seq<u8>,
    r: Result<(Timestamp, Payload), DecodeError>,
) -> bool {
    &&& post == step_state(pre, s)
    &&& match r {
        Ok((t, p)) => {
            &&& step_output(pre, s) is Some
            &&& t == tstamp
            &&& p == Payload::Cristogg(step_output(pre, s).unwrap())
            &&& p.wf()
        },
        Err(e) => match e {
            DecodeError::EmptyFrame => s.len() == 0,
            DecodeError::InvalidFrame => s.len() > 0 && frame_spec(s) is None,
            DecodeError::Duplicate => frame_spec(s) is Some && step_output(pre, s) is None,
        },
    }
    &&& (r is Ok <==> step_output(pre, s) is Some)
}

impl Decoder {
    /// A decoder that has seen no frame yet.
    pub fn new() -> (r: Self)
        ensures
            r.prev is None,
    {
        Decoder { prev: None }
    }

    /// Decodes one serial line: parses the bracketed grammar, suppresses a
    /// reading that repeats the previous one, and stamps the survivor with
    /// the given timestamp.
    pub fn decode(&mut self, tstamp: Timestamp, line: &str) -> (r: Result<
        (Timestamp, Payload),
        DecodeError,
    >)
        ensures
            decode_post(old(self).prev, final(self).prev, tstamp, line.spec_bytes(), r),
    {
        let line = line.as_bytes();
        if line.len() == 0 {
            return Err(DecodeError::EmptyFrame);
        }
        match matches(line) {
            None => Err(DecodeError::InvalidFrame),
            Some(c) => {
                proof {
                    lemma_frame_fields_bounded(line@);
                }
                let dup = match &self.prev {
                    Some(p) => p.freq == c.freq && p.tsky == c.tsky && p.tbox == c.tbox,
                    None => false,
                };
                self.prev = Some(c);
                if dup {
                    Err(DecodeError::Duplicate)
                } else {
                    Ok((tstamp, Payload::Cristogg(c)))
                }
            },
        }
    }
}

impl Default for Decoder {
    /// Same as `new`: a decoder that has seen no frame yet.
    fn default() -> (r: Self)
        ensures
            r.prev is None,
    {
        Decoder { prev: None }
    }
}

/// Feeding the same parsable line twice in a row emits at most one sample:
/// the second pass is always suppressed as a duplicate.
pub proof fn lemma_repeated_frame_emits_once(prev: Option<Cristogg>, s: Seq<u8>)
    requires
        frame_spec(s) is Some,
    ensures
        step_output(step_state(prev, s), s) is None,
        prev is None ==> step_output(prev, s) is Some,
{
}

} // verus!
