//! Tests for the two decoders: the bracketed frame grammar, its encoder,
//! and both duplicate filters.

use zptess::cristogg;
use zptess::json;
use zptess::payload::{Cristogg, DecodeError, Json, Payload};

fn sample_json(udp: u32, freq: i64) -> Json {
    Json {
        udp,
        rev: 1,
        name: "stars1".to_string(),
        freq,
        mag: 12000,
        tamb: 2100,
        tsky: -500,
        wdbm: -55,
        ain: 0,
        zp: 2050,
    }
}

fn wire_frame(udp: u32, freq: f32) -> String {
    format!(
        "{{\"udp\": {udp}, \"rev\": 1, \"name\": \"stars1\", \"freq\": {freq:.1}, \
         \"mag\": 12.0, \"tamb\": 21.0, \"tsky\": -5.0, \"wdBm\": -55, \"ain\": 0, \"ZP\": 20.50}}"
    )
}

#[test]
fn structured_frame_decodes_exact_fields() {
    let mut dec = json::Decoder::new();
    let (ts, payload) = dec.decode(777, &wire_frame(42, 1000.0)).unwrap();
    assert_eq!(ts, 777);
    match payload {
        Payload::Json(j) => {
            assert_eq!(j.udp, 42);
            assert_eq!(j.rev, 1);
            assert_eq!(j.name, "stars1");
            assert_eq!(j.freq, 1_000_000); // milli-hertz
            assert_eq!(j.mag, 12_000); // milli-magnitudes
            assert_eq!(j.tamb, 2100); // centi-degrees
            assert_eq!(j.tsky, -500);
            assert_eq!(j.wdbm, -55);
            assert_eq!(j.ain, 0);
            assert_eq!(j.zp, 2050); // centi-units
        }
        _ => panic!("expected a structured payload"),
    }
}

#[test]
fn structured_frame_tolerates_whitespace_and_unknown_members() {
    let mut dec = json::Decoder::new();
    let text = " {\n \"udp\": 9 ,\t\"rev\": 1, \"name\": \"stars88\", \"extra\": \"ignored\",\n\
        \"freq\": 430.5, \"mag\": 0.0, \"tamb\": 0.0, \"tsky\": 0.0,\n\
        \"wdBm\": 0, \"ain\": 0, \"ZP\": 20.5 } ";
    let (_, payload) = dec.decode(5, text).unwrap();
    match payload {
        Payload::Json(j) => {
            assert_eq!(j.udp, 9);
            assert_eq!(j.name, "stars88");
            assert_eq!(j.freq, 430_500);
            assert_eq!(j.zp, 2050);
        }
        _ => panic!("expected a structured payload"),
    }
}

#[test]
fn structured_frame_rejects_malformed_text() {
    let mut dec = json::Decoder::new();
    assert_eq!(dec.decode(1, "").unwrap_err(), DecodeError::InvalidFrame);
    assert_eq!(dec.decode(2, "not json").unwrap_err(), DecodeError::InvalidFrame);
    // A required field is missing.
    assert_eq!(
        dec.decode(3, "{\"udp\": 1, \"freq\": 1000.0}").unwrap_err(),
        DecodeError::InvalidFrame
    );
    // A duplicated field is rejected.
    let dup = wire_frame(1, 1000.0).replace("\"ain\": 0", "\"ain\": 0, \"ain\": 1");
    assert_eq!(dec.decode(4, &dup).unwrap_err(), DecodeError::InvalidFrame);
    // The grammar takes plain decimals only: exponents are not a reading.
    let exp = wire_frame(1, 1000.0).replace("1000.0", "1e3");
    assert_eq!(dec.decode(5, &exp).unwrap_err(), DecodeError::InvalidFrame);
}

#[test]
fn structured_wire_duplicates_yield_one_sample() {
    let mut dec = json::Decoder::new();
    let frame = wire_frame(7, 1000.0);
    assert!(dec.decode(100, &frame).is_ok());
    assert_eq!(dec.decode(200, &frame).unwrap_err(), DecodeError::Duplicate);
    assert!(dec.decode(300, &wire_frame(8, 1000.0)).is_ok());
}

#[test]
fn bracketed_frame_decodes_exact_fields() {
    let c = cristogg::matches(b"<fH 01000><tA +2500><tO +2000><mZ -0000>").unwrap();
    assert_eq!(c.freq, 1000); // milli-hertz
    assert_eq!(c.tbox, 2500); // centi-degrees
    assert_eq!(c.tsky, 2000);
    assert_eq!(c.zp, 0);
}

#[test]
fn bracketed_frame_millihertz_tag_also_decodes() {
    let c = cristogg::matches(b"<fm 00430><tA +2945><tO +2439><mZ -0000>").unwrap();
    assert_eq!(c.freq, 430);
    assert_eq!(c.tbox, 2945);
    assert_eq!(c.tsky, 2439);
}

#[test]
fn bracketed_frame_negative_temperatures() {
    let c = cristogg::matches(b"<fH 99999><tA -0107><tO -1500><mZ +2050>").unwrap();
    assert_eq!(c.freq, 99999);
    assert_eq!(c.tbox, -107);
    assert_eq!(c.tsky, -1500);
    assert_eq!(c.zp, 2050);
}

#[test]
fn bracketed_frame_allows_trailing_text() {
    assert!(cristogg::matches(b"<fH 01000><tA +2500><tO +2000><mZ -0000> trailing").is_some());
}

#[test]
fn bracketed_frame_rejects_malformed_lines() {
    assert!(cristogg::matches(b"").is_none());
    assert!(cristogg::matches(b"<fX 01000><tA +2500><tO +2000><mZ -0000>").is_none());
    assert!(cristogg::matches(b"<fH 0100><tA +2500><tO +2000><mZ -0000>").is_none());
    assert!(cristogg::matches(b"garbage").is_none());
}

#[test]
fn bracketed_encode_decode_round_trip() {
    let original = Cristogg { freq: 1000, tbox: 2500, tsky: 2000, zp: 0 };
    let encoded = cristogg::encode_frame(&original);
    assert_eq!(
        String::from_utf8(encoded.clone()).unwrap(),
        "<fH 01000><tA +2500><tO +2000><mZ +0000>"
    );
    let decoded = cristogg::matches(&encoded).unwrap();
    assert_eq!(decoded.freq, original.freq);
    assert_eq!(decoded.tbox, original.tbox);
    assert_eq!(decoded.tsky, original.tsky);
    assert_eq!(decoded.zp, original.zp);
}

#[test]
fn bracketed_encode_decode_round_trip_negative_fields() {
    let original = Cristogg { freq: 430, tbox: -107, tsky: -9999, zp: 1234 };
    let encoded = cristogg::encode_frame(&original);
    let decoded = cristogg::matches(&encoded).unwrap();
    assert_eq!(decoded.freq, original.freq);
    assert_eq!(decoded.tbox, original.tbox);
    assert_eq!(decoded.tsky, original.tsky);
    assert_eq!(decoded.zp, original.zp);
}

#[test]
fn bracketed_duplicates_yield_one_sample() {
    // Two identical consecutive frames produce exactly one sample.
    let mut dec = cristogg::Decoder::new();
    let frame = "<fH 01000><tA +2500><tO +2000><mZ -0000>";
    assert!(dec.decode(100, frame).is_ok());
    assert_eq!(dec.decode(200, frame).unwrap_err(), DecodeError::Duplicate);
}

#[test]
fn bracketed_duplicate_then_fresh_frame_yields_two_samples() {
    // Frames A, A, B: two samples come out in total.
    let mut dec = cristogg::Decoder::new();
    let a = "<fH 01000><tA +2500><tO +2000><mZ -0000>";
    let b = "<fH 01001><tA +2500><tO +2000><mZ -0000>";
    let mut delivered = 0;
    for (ts, frame) in [(100i64, a), (200, a), (300, b)] {
        if dec.decode(ts, frame).is_ok() {
            delivered += 1;
        }
    }
    assert_eq!(delivered, 2);
}

#[test]
fn bracketed_empty_and_invalid_errors_are_distinct() {
    let mut dec = cristogg::Decoder::new();
    assert_eq!(dec.decode(1, "").unwrap_err(), DecodeError::EmptyFrame);
    assert_eq!(dec.decode(2, "nonsense").unwrap_err(), DecodeError::InvalidFrame);
}

#[test]
fn bracketed_decode_carries_timestamp_and_payload() {
    let mut dec = cristogg::Decoder::new();
    let (ts, payload) = dec.decode(12345, "<fH 01000><tA +2500><tO +2000><mZ -0000>").unwrap();
    assert_eq!(ts, 12345);
    match payload {
        Payload::Cristogg(c) => assert_eq!(c.freq, 1000),
        _ => panic!("expected a bracketed payload"),
    }
}

#[test]
fn structured_duplicates_yield_at_most_one_sample() {
    // Two readings with the same sequence number: at most one sample.
    let mut dec = json::Decoder::new();
    assert!(dec.filter(100, sample_json(7, 1_000_000)).is_ok());
    assert_eq!(
        dec.filter(200, sample_json(7, 1_000_000)).unwrap_err(),
        DecodeError::Duplicate
    );
}

#[test]
fn structured_fresh_sequence_numbers_pass_through() {
    let mut dec = json::Decoder::new();
    assert!(dec.filter(100, sample_json(1, 1_000_000)).is_ok());
    assert!(dec.filter(200, sample_json(2, 1_000_000)).is_ok());
    let (ts, payload) = dec.filter(300, sample_json(3, 2_000_000)).unwrap();
    assert_eq!(ts, 300);
    match payload {
        Payload::Json(p) => {
            assert_eq!(p.udp, 3);
            assert_eq!(p.freq, 2_000_000);
        },
        _ => panic!("expected a structured payload"),
    }
}

#[test]
fn combined_decoder_routes_by_variant() {
    let mut refdec = zptess::payload::Decoder::Cristogg(cristogg::Decoder::new());
    let mut testdec = zptess::payload::Decoder::Json(json::Decoder::new());
    let (_, p1) = refdec.decode(1, "<fH 01000><tA +2500><tO +2000><mZ -0000>").unwrap();
    assert!(matches!(p1, Payload::Cristogg(_)));
    let (_, p2) = testdec.decode(2, &wire_frame(1, 1000.0)).unwrap();
    assert!(matches!(p2, Payload::Json(_)));
}
