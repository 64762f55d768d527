//! Tests for the sliding sample buffer: queue discipline, readiness and
//! the window statistics.

use zptess::buffer::SamplesBuffer;
use zptess::discovery::Info;
use zptess::payload::{Cristogg, Payload};

fn sample(freq_millihz: i64) -> Payload {
    Payload::Cristogg(Cristogg { freq: freq_millihz, tbox: 2500, tsky: 2000, zp: 0 })
}

fn buffer_with_window(window: usize) -> SamplesBuffer {
    SamplesBuffer::new(window, Info::new(), "REF.".to_string(), 2050)
}

#[test]
fn ring_mode_is_bounded_and_ready_iff_full() {
    let mut b = buffer_with_window(3);
    assert_eq!(b.len(), 0);
    assert!(!b.is_ready());

    b.enqueue(100, sample(1000));
    assert_eq!(b.len(), 1);
    assert!(!b.is_ready());

    b.enqueue(200, sample(2000));
    assert_eq!(b.len(), 2);
    assert!(!b.is_ready());

    b.enqueue(300, sample(3000));
    assert_eq!(b.len(), 3);
    assert!(b.is_ready());

    // A further enqueue slides the window: the length stays at the window.
    b.enqueue(400, sample(4000));
    assert_eq!(b.len(), 3);
    assert!(b.is_ready());
}

#[test]
fn capture_mode_grows_past_the_window() {
    let mut b = buffer_with_window(2);
    b.enqueue(100, sample(1000));
    b.enqueue(200, sample(2000));
    assert!(b.is_ready());
    b.possibly_enqueue(300, sample(3000), true);
    b.possibly_enqueue(400, sample(4000), true);
    assert_eq!(b.len(), 4);
    assert!(b.is_ready());
}

#[test]
fn median_reports_window_statistics() {
    let mut b = buffer_with_window(3);
    b.enqueue(1000, sample(1_000_000));
    b.enqueue(2000, sample(3_000_000));
    b.enqueue(4500, sample(2_000_000));
    let stats = b.median();
    assert_eq!(stats.freq_millihz, 2_000_000);
    assert_eq!(stats.t0, 1000);
    assert_eq!(stats.t1, 4500);
    assert_eq!(stats.duration_secs, 3);
    // Sample standard deviation around the median:
    // sqrt(((1e6-2e6)^2 + (3e6-2e6)^2 + 0) / 2) = 1e6, rounded down.
    assert_eq!(stats.stdev_millihz, 1_000_000);
}

#[test]
fn median_uses_only_the_most_recent_window() {
    let mut b = buffer_with_window(3);
    b.enqueue(100, sample(9_000_000));
    b.enqueue(200, sample(1_000_000));
    b.enqueue(300, sample(1_000_000));
    b.enqueue(400, sample(1_000_000));
    // The 9 MHz sample has slid out of the window.
    let stats = b.median();
    assert_eq!(stats.freq_millihz, 1_000_000);
    assert_eq!(stats.stdev_millihz, 0);
}

#[test]
fn capture_keeps_history_but_statistics_use_the_tail() {
    let mut b = buffer_with_window(2);
    b.enqueue(100, sample(5_000_000));
    b.enqueue(200, sample(5_000_000));
    b.possibly_enqueue(300, sample(1_000_000), true);
    b.possibly_enqueue(400, sample(1_000_000), true);
    assert_eq!(b.len(), 4);
    let stats = b.median();
    assert_eq!(stats.freq_millihz, 1_000_000);
    assert_eq!(stats.t0, 300);
    assert_eq!(stats.t1, 400);
}
