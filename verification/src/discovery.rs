//! The static device descriptor obtained at discovery time, and the parsing
//! of the two discovery sources: the rows of the configuration store and
//! the test photometer's HTML configuration page.

use vstd::prelude::*;
use vstd::string::StrSliceExecFns;

use crate::page::{
    extract_firmware, extract_mac, extract_name, extract_offset, extract_zp, page_firmware,
    page_mac, page_name, page_offset, page_zp,
};

verus! {

/// Immutable descriptor of one photometer, filled in at discovery.
#[derive(Debug)]
pub struct Info {
    /// Device model; defaults to `TESS-W`.
    pub model: String,
    /// Device name, e.g. `stars241`.
    pub name: String,
    /// MAC address in colon notation.
    pub mac: String,
    /// Firmware build tag.
    pub firmware: String,
    /// Sensor type; defaults to `TSL237`.
    pub sensor: String,
    /// Installed zero point, in centi-units.
    pub zp: i64,
    /// Frequency offset, in milli-hertz.
    pub freq_offset: i64,
}

impl Info {
    /// A descriptor with the default model and sensor and everything else
    /// empty or zero.
    pub fn new() -> (r: Self)
        ensures
            r.model@ == "TESS-W"@,
            r.name@ == ""@,
            r.mac@ == ""@,
            r.firmware@ == ""@,
            r.sensor@ == "TSL237"@,
            r.zp == 0,
            r.freq_offset == 0,
    {
        Info {
            model: String::from_str("TESS-W"),
            name: String::from_str(""),
            mac: String::from_str(""),
            firmware: String::from_str(""),
            sensor: String::from_str("TSL237"),
            zp: 0,
            freq_offset: 0,
        }
    }
}

/// Reads the device descriptor out of the configuration page that the
/// test photometer serves over HTTP: each field is taken from the leftmost
/// occurrence of its label, and a missing field keeps its default. The
/// zero point comes out in centi-units, the offset in milli-hertz.
pub fn decode(body: &str) -> (r: Info)
    ensures
        r.model@ == "TESS-W"@,
        r.sensor@ == "TSL237"@,
        match page_name(body@) {
            Some((a, b)) => r.name@ == body@.subrange(a, b),
            None => r.name@ == ""@,
        },
        match page_mac(body@) {
            Some((a, b)) => r.mac@ == body@.subrange(a, b),
            None => r.mac@ == ""@,
        },
        match page_firmware(body@) {
            Some((a, b)) => r.firmware@ == body@.subrange(a, b),
            None => r.firmware@ == ""@,
        },
        r.zp == match page_zp(body@) {
            Some(v) => v,
            None => 0,
        },
        0 <= r.zp <= 9999,
        r.freq_offset == match page_offset(body@) {
            Some(v) => v,
            None => 0,
        },
        0 <= r.freq_offset <= 999_999,
{
    let mut info = Info::new();
    match extract_name(body) {
        Some((a, b)) => {
            info.name = body.substring_char(a, b).to_owned();
        },
        None => {},
    }
    match extract_mac(body) {
        Some((a, b)) => {
            info.mac = body.substring_char(a, b).to_owned();
        },
        None => {},
    }
    match extract_firmware(body) {
        Some((a, b)) => {
            info.firmware = body.substring_char(a, b).to_owned();
        },
        None => {},
    }
    match extract_zp(body) {
        Some(v) => {
            info.zp = v;
        },
        None => {},
    }
    match extract_offset(body) {
        Some(v) => {
            info.freq_offset = v;
        },
        None => {},
    }
    info
}

} // verus!
