//! Tests for the live reading mode's display throttling.

use zptess::discovery::Info;
use zptess::payload::{Cristogg, Json, Payload};
use zptess::readings::Reading;

fn cristogg_sample(freq: i64) -> Payload {
    Payload::Cristogg(Cristogg { freq, tbox: 2500, tsky: 2000, zp: 0 })
}

fn json_sample(udp: u32, freq: i64) -> Payload {
    Payload::Json(Json {
        udp,
        rev: 1,
        name: "stars1".to_string(),
        freq,
        mag: 0,
        tamb: 0,
        tsky: 0,
        wdbm: 0,
        ain: 0,
        zp: 2050,
    })
}

#[test]
fn single_stream_displays_once_ready() {
    let mut r = Reading::new(3, Some(Info::new()), None, 2050);
    // One sample per second: stride is 1 once the window spans 2 seconds.
    assert!(!r.on_sample(0, cristogg_sample(1000)));
    assert!(!r.on_sample(1000, cristogg_sample(1000)));
    // Third sample fills the window; the counter was at zero: display.
    assert!(r.on_sample(2000, cristogg_sample(1000)));
    // Stride is round(3 samples / 2 s) = 2: the next display skips one.
    assert!(!r.on_sample(3000, cristogg_sample(1000)));
    assert!(r.on_sample(4000, cristogg_sample(1000)));
}

#[test]
fn both_streams_display_after_both_ready() {
    let mut r = Reading::new(2, Some(Info::new()), Some(Info::new()), 2050);
    assert!(!r.on_sample(0, cristogg_sample(1000)));
    assert!(!r.on_sample(0, json_sample(1, 1000)));
    assert!(!r.on_sample(1000, cristogg_sample(1000)));
    // Both windows full now; equal speeds give stride 1: display fires.
    assert!(r.on_sample(1000, json_sample(2, 1000)));
    let (ref_stats, test_stats) = r.stats();
    assert_eq!(ref_stats.unwrap().freq_millihz, 1000);
    assert_eq!(test_stats.unwrap().freq_millihz, 1000);
}

#[test]
fn stats_absent_until_ready() {
    let mut r = Reading::new(2, Some(Info::new()), None, 2050);
    r.on_sample(0, cristogg_sample(1000));
    let (ref_stats, test_stats) = r.stats();
    assert!(ref_stats.is_none());
    assert!(test_stats.is_none());
}
