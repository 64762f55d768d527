//! End-to-end tests of the calibration engine: readiness, rounds,
//! per-round zero points and the final aggregation.

use zptess::calibration::Calibration;
use zptess::discovery::Info;
use zptess::payload::{Cristogg, Json, Payload};

fn info_with_zp(zp_centi: i64) -> Info {
    let mut info = Info::new();
    info.zp = zp_centi;
    info
}

fn json_sample(udp: u32, freq_millihz: i64) -> Payload {
    Payload::Json(Json {
        udp,
        rev: 1,
        name: "stars1".to_string(),
        freq: freq_millihz,
        mag: 0,
        tamb: 2000,
        tsky: -1000,
        wdbm: -60,
        ain: 0,
        zp: 2050,
    })
}

fn cristogg_sample(freq_millihz: i64) -> Payload {
    Payload::Cristogg(Cristogg { freq: freq_millihz, tbox: 2500, tsky: 2000, zp: 0 })
}

/// The magnitude for a frequency in milli-hertz, in milli-magnitudes,
/// computed the way the unverified edge does it.
fn magnitude_milli(freq_millihz: i64, offset_millihz: i64, zp_fict_centi: i64) -> i64 {
    let freq_hz = (freq_millihz - offset_millihz) as f64 / 1000.0;
    let mag = zp_fict_centi as f64 / 100.0 - 2.5 * freq_hz.log10();
    (mag * 1000.0).round() as i64
}

/// Feeds one full window of both streams at the given frequencies.
fn feed_window(cal: &mut Calibration, ref_freq: i64, test_freq: i64, t0: i64, udp0: u32) -> i64 {
    let mut ts = t0;
    for k in 0..9u32 {
        cal.handle_sample(ts, cristogg_sample(ref_freq));
        ts += 100;
        cal.handle_sample(ts, json_sample(udp0 + k, test_freq));
        ts += 100;
    }
    ts
}

#[test]
fn single_round_identical_streams_keeps_reference_zp() {
    // Both streams at 1000 Hz, offsets zero, reference ZP 20.50:
    // the round's ZP and the final ZP are both 20.50.
    let mut cal = Calibration::new(9, 0, 1, 100, info_with_zp(2050), info_with_zp(2050), 2050, 0);
    assert!(!cal.is_ready());
    feed_window(&mut cal, 1_000_000, 1_000_000, 0, 1);
    assert!(cal.is_ready());
    assert!(cal.should_finalize(101));
    assert!(!cal.should_finalize(100));

    let (r_stats, t_stats) = cal.round_stats();
    assert_eq!(r_stats.freq_millihz, 1_000_000);
    assert_eq!(t_stats.freq_millihz, 1_000_000);

    let r_mag = magnitude_milli(r_stats.freq_millihz, 0, 2050);
    let t_mag = magnitude_milli(t_stats.freq_millihz, 0, 2050);
    assert_eq!(r_mag, t_mag);
    cal.complete_round(r_mag, t_mag);

    assert_eq!(cal.completed_rounds(), 1);
    assert_eq!(cal.zps().as_slice(), &[2050]);
    let summary = cal.summary();
    assert_eq!(summary.best_zp, 2050);
    assert_eq!(summary.final_zp, 2050);
}

#[test]
fn magnitude_differential_raises_the_zero_point() {
    // Reference at 1000 Hz, test at 2000 Hz, fictitious ZP 20.50:
    // ref magnitude 13.000, test magnitude 12.247, round ZP 21.25.
    let mut cal = Calibration::new(9, 0, 1, 100, info_with_zp(2050), info_with_zp(2050), 2050, 0);
    feed_window(&mut cal, 1_000_000, 2_000_000, 0, 1);
    assert!(cal.is_ready());

    let (r_stats, t_stats) = cal.round_stats();
    let r_mag = magnitude_milli(r_stats.freq_millihz, 0, 2050);
    let t_mag = magnitude_milli(t_stats.freq_millihz, 0, 2050);
    assert_eq!(r_mag, 13_000);
    assert_eq!(t_mag, 12_247);
    cal.complete_round(r_mag, t_mag);

    assert_eq!(cal.zps().as_slice(), &[2125]);
    assert_eq!(cal.summary().final_zp, 2125);
}

#[test]
fn every_completed_round_grows_each_accumulator_by_one() {
    let mut cal = Calibration::new(9, 0, 3, 100, info_with_zp(2050), info_with_zp(2050), 2050, 0);
    let mut t0 = 0;
    for round in 0..3u32 {
        t0 = feed_window(&mut cal, 1_000_000, 1_000_000, t0, 100 * round + 1);
        assert!(cal.is_ready());
        cal.complete_round(13_000, 13_000);
        let n = (round + 1) as usize;
        assert_eq!(cal.completed_rounds(), n);
        assert_eq!(cal.zps().len(), n);
        for acc in [cal.refe_accumulator(), cal.test_accumulator()] {
            assert_eq!(acc.freqs.len(), n);
            assert_eq!(acc.stdevs.len(), n);
            assert_eq!(acc.mags.len(), n);
            assert_eq!(acc.tstamps.len(), n);
            assert_eq!(acc.durs.len(), n);
        }
        assert_eq!(*cal.refe_accumulator().freqs.last().unwrap(), 1_000_000);
        assert_eq!(*cal.refe_accumulator().stdevs.last().unwrap(), 0);
        assert_eq!(*cal.refe_accumulator().mags.last().unwrap(), 13_000);
    }
    // The window of each round spans its first to its last sample.
    let (t0r, t1r) = *cal.refe_accumulator().tstamps.last().unwrap();
    assert!(t0r < t1r);
    assert_eq!(*cal.refe_accumulator().durs.last().unwrap(), (t1r - t0r) / 1000);
}

#[test]
fn five_rounds_aggregate_by_mode() {
    // Identical streams each round, but the test magnitudes differ a
    // little per round, so the ZP vector holds repeated values:
    // 21.25, 21.25, 21.30, 21.25, 21.40 -> mode 21.25.
    let mut cal = Calibration::new(9, 0, 5, 100, info_with_zp(2050), info_with_zp(2050), 2050, 0);
    let dmags = [753i64, 753, 803, 753, 903];
    let mut t0 = 0;
    for (round, dmag) in dmags.iter().enumerate() {
        t0 = feed_window(&mut cal, 1_000_000, 1_000_000, t0, 100 * round as u32 + 1);
        cal.complete_round(13_000 + dmag, 13_000);
    }
    assert_eq!(cal.zps().as_slice(), &[2125, 2125, 2130, 2125, 2140]);
    assert_eq!(cal.summary().final_zp, 2125);
}

#[test]
fn five_rounds_without_mode_fall_back_to_median() {
    // ZP vector 21.20, 21.30, 21.40, 21.50, 21.60: no mode, median 21.40.
    let mut cal = Calibration::new(9, 0, 5, 100, info_with_zp(2050), info_with_zp(2050), 2050, 0);
    let dmags = [703i64, 803, 903, 1003, 1103];
    let mut t0 = 0;
    for (round, dmag) in dmags.iter().enumerate() {
        t0 = feed_window(&mut cal, 1_000_000, 1_000_000, t0, 100 * round as u32 + 1);
        cal.complete_round(13_000 + dmag, 13_000);
    }
    assert_eq!(cal.zps().as_slice(), &[2120, 2130, 2140, 2150, 2160]);
    assert_eq!(cal.summary().final_zp, 2140);
}

#[test]
fn final_zp_adds_the_configured_offset() {
    let mut cal = Calibration::new(9, 0, 1, 100, info_with_zp(2050), info_with_zp(2050), 2050, 25);
    feed_window(&mut cal, 1_000_000, 1_000_000, 0, 1);
    cal.complete_round(13_000, 13_000);
    let summary = cal.summary();
    assert_eq!(summary.best_zp, 2050);
    assert_eq!(summary.final_zp, 2075);
}

#[test]
fn engine_not_ready_until_both_windows_full() {
    let mut cal = Calibration::new(9, 0, 1, 100, info_with_zp(2050), info_with_zp(2050), 2050, 0);
    let mut ts = 0i64;
    // Fill only the reference stream.
    for _ in 0..20 {
        cal.handle_sample(ts, cristogg_sample(1_000_000));
        ts += 100;
    }
    assert!(!cal.is_ready());
    // Now fill the test stream too.
    for k in 0..9u32 {
        cal.handle_sample(ts, json_sample(k + 1, 1_000_000));
        ts += 100;
    }
    assert!(cal.is_ready());
}
