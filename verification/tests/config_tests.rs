//! Tests for the configuration-store row interpretation.

use zptess::config::{calibration_from_rows, info_from_rows, ConfigError};

fn row(p: &str, v: &str) -> (String, String) {
    (p.to_string(), v.to_string())
}

#[test]
fn ref_device_rows_fill_the_descriptor() {
    let rows = vec![
        row("model", "TESS-R"),
        row("name", "stars3"),
        row("mac", "AA:BB:CC:DD:EE:FF"),
        row("firmware", "May 2020"),
        row("sensor", "TSL237RD"),
        row("zp", "20.44"),
        row("freq_offset", "0.5"),
    ];
    let info = info_from_rows(&rows).unwrap();
    assert_eq!(info.model, "TESS-R");
    assert_eq!(info.name, "stars3");
    assert_eq!(info.mac, "AA:BB:CC:DD:EE:FF");
    assert_eq!(info.firmware, "May 2020");
    assert_eq!(info.sensor, "TSL237RD");
    assert_eq!(info.zp, 2044);
    assert_eq!(info.freq_offset, 500);
}

#[test]
fn missing_rows_keep_defaults_and_unknown_rows_are_ignored() {
    let rows = vec![row("name", "stars9"), row("endpoint_flavour", "tcp")];
    let info = info_from_rows(&rows).unwrap();
    assert_eq!(info.model, "TESS-W");
    assert_eq!(info.sensor, "TSL237");
    assert_eq!(info.name, "stars9");
    assert_eq!(info.zp, 0);
}

#[test]
fn later_rows_override_earlier_ones() {
    let rows = vec![row("zp", "20.10"), row("zp", "20.20")];
    assert_eq!(info_from_rows(&rows).unwrap().zp, 2020);
}

#[test]
fn malformed_zp_is_an_error() {
    let rows = vec![row("zp", "twenty")];
    assert_eq!(info_from_rows(&rows).unwrap_err(), ConfigError::BadNumber);
}

#[test]
fn integer_zp_without_fraction_parses() {
    let rows = vec![row("zp", "20")];
    assert_eq!(info_from_rows(&rows).unwrap().zp, 2000);
}

#[test]
fn negative_offset_parses() {
    let rows = vec![row("freq_offset", "-0.25")];
    assert_eq!(info_from_rows(&rows).unwrap().freq_offset, -250);
}

#[test]
fn calibration_rows_fill_the_parameters() {
    let rows = vec![
        row("author", "somebody"),
        row("rounds", "5"),
        row("offset", "0.00"),
        row("zp_fict", "20.50"),
    ];
    let cal = calibration_from_rows(&rows).unwrap();
    assert_eq!(cal.author, "somebody");
    assert_eq!(cal.rounds, 5);
    assert_eq!(cal.offset, 0);
    assert_eq!(cal.zp_fict, 2050);
}

#[test]
fn malformed_rounds_is_an_error() {
    let rows = vec![row("rounds", "5.5")];
    assert_eq!(calibration_from_rows(&rows).unwrap_err(), ConfigError::BadNumber);
}
