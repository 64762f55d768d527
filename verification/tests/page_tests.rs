//! Tests for the configuration-page scanners, the page decoder and the
//! zero-point write-back checks.

use zptess::discovery;
use zptess::page;
use zptess::payload::UpdateError;
use zptess::update::{format_zp, verify_readback};

const PAGE: &str = "<html>stars241<br>MAC: 5C:CF:7F:82:8F:a9<br>\
Compiled: Jun 16 2021 able<br>ZP: 20.50 (2.8.1)<br>Offset Hz: 12.345<br></html>";

#[test]
fn page_yields_every_field() {
    let info = discovery::decode(PAGE);
    assert_eq!(info.model, "TESS-W");
    assert_eq!(info.sensor, "TSL237");
    assert_eq!(info.name, "stars241");
    assert_eq!(info.mac, "5C:CF:7F:82:8F:a9");
    assert_eq!(info.firmware, "Jun 16 2021 able");
    assert_eq!(info.zp, 2050);
    assert_eq!(info.freq_offset, 12345);
}

#[test]
fn missing_fields_keep_their_defaults() {
    let info = discovery::decode("<html>nothing of note</html>");
    assert_eq!(info.model, "TESS-W");
    assert_eq!(info.sensor, "TSL237");
    assert_eq!(info.name, "");
    assert_eq!(info.mac, "");
    assert_eq!(info.firmware, "");
    assert_eq!(info.zp, 0);
    assert_eq!(info.freq_offset, 0);
}

#[test]
fn zp_label_variants_are_recognised() {
    assert_eq!(page::extract_zp("ZP: 20.50"), Some(2050));
    assert_eq!(page::extract_zp("CI calibration: 19.99"), Some(1999));
    assert_eq!(page::extract_zp("ZP: 5.2"), Some(520));
    assert_eq!(page::extract_zp("no zero point here"), None);
    assert_eq!(page::extract_zp("ZP: x"), None);
}

#[test]
fn offset_requires_the_break_tag() {
    assert_eq!(page::extract_offset("Offset Hz: 12.345<br>"), Some(12345));
    assert_eq!(page::extract_offset("Offset Hz: 0.5<br>"), Some(500));
    assert_eq!(page::extract_offset("Offset Hz: 12.345"), None);
}

#[test]
fn name_capture_is_greedy_over_digits() {
    assert_eq!(page::extract_name("xx stars2410 yy"), Some((3, 12)));
    assert_eq!(page::extract_name("stars"), None);
}

#[test]
fn format_zp_renders_two_decimals() {
    assert_eq!(String::from_utf8(format_zp(2050)).unwrap(), "20.50");
    assert_eq!(String::from_utf8(format_zp(525)).unwrap(), "5.25");
    assert_eq!(String::from_utf8(format_zp(7)).unwrap(), "0.07");
    assert_eq!(String::from_utf8(format_zp(9999)).unwrap(), "99.99");
}

#[test]
fn verify_readback_accepts_the_written_value() {
    assert!(verify_readback("stuff ZP: 20.50 more", 2050).is_ok());
}

#[test]
fn verify_readback_rejects_a_mismatching_page() {
    // The device answers 19.99 after 20.50 was written.
    assert_eq!(
        verify_readback("stuff ZP: 19.99 more", 2050).unwrap_err(),
        UpdateError::Mismatch
    );
}

#[test]
fn verify_readback_rejects_a_page_without_a_zero_point() {
    assert_eq!(verify_readback("an empty page", 2050).unwrap_err(), UpdateError::Verify);
}

#[test]
fn formatted_zp_reads_back_equal() {
    let written = 2125;
    let text = String::from_utf8(format_zp(written)).unwrap();
    let body = format!("ZP: {} <br>", text);
    assert!(verify_readback(&body, written).is_ok());
}
