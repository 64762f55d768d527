//! Interpretation of the configuration store's rows: the reference
//! device's descriptor and the calibration parameters. The store itself is
//! an external collaborator; the unverified edge hands its rows over as
//! plain `(property, value)` string pairs.

use vstd::prelude::*;
use vstd::string::StringSliceAdditionalSpecFns;

use crate::calibration::CalibrationInfo;
use crate::discovery::Info;
use crate::text::decimal_spec;

verus! {

/// A value of the store that should have been a number was malformed.
#[derive(Clone, Copy, PartialEq, Eq, Structural, Debug)]
pub enum ConfigError {
    BadNumber,
}

/// The mathematical shape of a device descriptor.
pub struct InfoModel {
    pub model: Seq<char>,
    pub name: Seq<char>,
    pub mac: Seq<char>,
    pub firmware: Seq<char>,
    pub sensor: Seq<char>,
    pub zp: int,
    pub freq_offset: int,
}

/// The descriptor a given `Info` value represents.
pub open spec fn info_model(i: &Info) -> InfoModel {
    InfoModel {
        model: i.model@,
        name: i.name@,
        mac: i.mac@,
        firmware: i.firmware@,
        sensor: i.sensor@,
        zp: i.zp as int,
        freq_offset: i.freq_offset as int,
    }
}

/// The descriptor with the default model and sensor and everything else
/// empty or zero: the starting point of the fold over the store's rows.
pub open spec fn default_info_model() -> InfoModel {
    InfoModel {
        model: "TESS-W"@,
        name: ""@,
        mac: ""@,
        firmware: ""@,
        sensor: "TSL237"@,
        zp: 0,
        freq_offset: 0,
    }
}

/// One store row applied to a descriptor: a recognised property replaces
/// its field (the zero point in centi-units, the offset in milli-hertz),
/// an unknown property changes nothing, and a malformed number fails.
pub open spec fn apply_ref_row(m: InfoModel, prop: String, value: String) -> Option<InfoModel> {
    if prop@ == "model"@ {
        Some(InfoModel { model: value@, ..m })
    } else if prop@ == "name"@ {
        Some(InfoModel { name: value@, ..m })
    } else if prop@ == "mac"@ {
        Some(InfoModel { mac: value@, ..m })
    } else if prop@ == "firmware"@ {
        Some(InfoModel { firmware: value@, ..m })
    } else if prop@ == "sensor"@ {
        Some(InfoModel { sensor: value@, ..m })
    } else if prop@ == "zp"@ {
        match decimal_spec(vstd::utf8::encode_utf8(value@), 2) {
            Some(v) => Some(InfoModel { zp: v, ..m }),
            None => None,
        }
    } else if prop@ == "freq_offset"@ {
        match decimal_spec(vstd::utf8::encode_utf8(value@), 3) {
            Some(v) => Some(InfoModel { freq_offset: v, ..m }),
            None => None,
        }
    } else {
        Some(m)
    }
}

/// The store's `ref-device` rows folded over a descriptor, first row
/// first; a later row overrides an earlier one.
pub open spec fn ref_rows_fold(m: InfoModel, rows: Seq<(String, String)>) -> Option<InfoModel>
    decreases rows.len(),
{
    if rows.len() == 0 {
        Some(m)
    } else {
        match ref_rows_fold(m, rows.drop_last()) {
            Some(acc) => apply_ref_row(acc, rows.last().0, rows.last().1),
            None => None,
        }
    }
}

/// Builds the reference device's descriptor from the store's rows:
/// starting from the defaults, each recognised property replaces its
/// field, unknown properties are ignored, and a malformed numeric value
/// fails the discovery.
pub fn info_from_rows(rows: &Vec<(String, String)>) -> (r: Result<Info, ConfigError>)
    ensures
        match r {
            Ok(info) => ref_rows_fold(default_info_model(), rows@) == Some(info_model(&info)),
            Err(_) => ref_rows_fold(default_info_model(), rows@) is None,
        },
{
    let mut info = Info::new();
    let mut j: usize = 0;
    proof {
        assert(rows@.take(0int) =~= Seq::<(String, String)>::empty());
        assert(info_model(&info) =~= default_info_model());
    }
    while j < rows.len()
        invariant
            j <= rows@.len(),
            ref_rows_fold(default_info_model(), rows@.take(j as int)) == Some(info_model(&info)),
        decreases rows@.len() - j,
    {
        let prop = &rows[j].0;
        let value = &rows[j].1;
        proof {
            assert(rows@.take(j as int + 1).drop_last() =~= rows@.take(j as int));
            assert(rows@.take(j as int + 1).last() == rows@[j as int]);
        }
        if string_is(prop, "model") {
            info.model = value.clone();
        } else if string_is(prop, "name") {
            info.name = value.clone();
        } else if string_is(prop, "mac") {
            info.mac = value.clone();
        } else if string_is(prop, "firmware") {
            info.firmware = value.clone();
        } else if string_is(prop, "sensor") {
            info.sensor = value.clone();
        } else if string_is(prop, "zp") {
            match crate::text::parse_decimal(value.as_str(), 2) {
                Some(v) => {
                    info.zp = v;
                },
                None => {
                    proof {
                        lemma_ref_fold_none(default_info_model(), rows@, j as int + 1);
                    }
                    return Err(ConfigError::BadNumber);
                },
            }
        } else if string_is(prop, "freq_offset") {
            match crate::text::parse_decimal(value.as_str(), 3) {
                Some(v) => {
                    info.freq_offset = v;
                },
                None => {
                    proof {
                        lemma_ref_fold_none(default_info_model(), rows@, j as int + 1);
                    }
                    return Err(ConfigError::BadNumber);
                },
            }
        }
        proof {
            assert(info_model(&info) =~= apply_ref_row(
                ref_rows_fold(default_info_model(), rows@.take(j as int)).unwrap(),
                rows@[j as int].0,
                rows@[j as int].1,
            ).unwrap());
        }
        j = j + 1;
    }
    proof {
        assert(rows@.take(rows@.len() as int) =~= rows@);
    }
    Ok(info)
}

/// Once a row fails, the whole fold fails.
proof fn lemma_ref_fold_none(m: InfoModel, rows: Seq<(String, String)>, k: int)
    requires
        0 <= k <= rows.len(),
        ref_rows_fold(m, rows.take(k)) is None,
    ensures
        ref_rows_fold(m, rows) is None,
    decreases rows.len() - k,
{
    if k < rows.len() {
        assert(rows.take(k + 1).drop_last() =~= rows.take(k));
        assert(ref_rows_fold(m, rows.take(k + 1)) is None);
        lemma_ref_fold_none(m, rows, k + 1);
    } else {
        assert(rows.take(k) =~= rows);
    }
}

/// Once a row fails, the whole fold fails.
proof fn lemma_cal_fold_none(m: CalibrationModel, rows: Seq<(String, String)>, k: int)
    requires
        0 <= k <= rows.len(),
        cal_rows_fold(m, rows.take(k)) is None,
    ensures
        cal_rows_fold(m, rows) is None,
    decreases rows.len() - k,
{
    if k < rows.len() {
        assert(rows.take(k + 1).drop_last() =~= rows.take(k));
        assert(cal_rows_fold(m, rows.take(k + 1)) is None);
        lemma_cal_fold_none(m, rows, k + 1);
    } else {
        assert(rows.take(k) =~= rows);
    }
}

/// Whether a string holds exactly the given text.
fn string_is(s: &String, lit: &str) -> (r: bool)
    ensures
        r == (s@ == lit@),
{
    s.eq(&lit.to_owned())
}

/// The mathematical shape of the calibration parameters.
pub struct CalibrationModel {
    pub author: Seq<char>,
    pub rounds: int,
    pub offset: int,
    pub zp_fict: int,
}

/// The parameters a given `CalibrationInfo` value represents.
pub open spec fn calibration_model(c: &CalibrationInfo) -> CalibrationModel {
    CalibrationModel {
        author: c.author@,
        rounds: c.rounds as int,
        offset: c.offset as int,
        zp_fict: c.zp_fict as int,
    }
}

/// The empty starting point of the fold over the `calibration` rows.
pub open spec fn default_calibration_model() -> CalibrationModel {
    CalibrationModel { author: ""@, rounds: 0, offset: 0, zp_fict: 0 }
}

/// The count grammar for the number of rounds: one to nine decimal
/// digits.
pub open spec fn rounds_spec(s: Seq<u8>) -> Option<int> {
    if 1 <= s.len() <= 9 && crate::text::all_digits(s) {
        Some(crate::text::digits_value(s))
    } else {
        None
    }
}

/// One `calibration` row applied to the parameters: the offset and the
/// fictitious zero point are read in centi-units.
pub open spec fn apply_cal_row(
    m: CalibrationModel,
    prop: String,
    value: String,
) -> Option<CalibrationModel> {
    if prop@ == "author"@ {
        Some(CalibrationModel { author: value@, ..m })
    } else if prop@ == "rounds"@ {
        match rounds_spec(vstd::utf8::encode_utf8(value@)) {
            Some(v) => Some(CalibrationModel { rounds: v, ..m }),
            None => None,
        }
    } else if prop@ == "offset"@ {
        match decimal_spec(vstd::utf8::encode_utf8(value@), 2) {
            Some(v) => Some(CalibrationModel { offset: v, ..m }),
            None => None,
        }
    } else if prop@ == "zp_fict"@ {
        match decimal_spec(vstd::utf8::encode_utf8(value@), 2) {
            Some(v) => Some(CalibrationModel { zp_fict: v, ..m }),
            None => None,
        }
    } else {
        Some(m)
    }
}

/// The store's `calibration` rows folded over the parameters, first row
/// first.
pub open spec fn cal_rows_fold(
    m: CalibrationModel,
    rows: Seq<(String, String)>,
) -> Option<CalibrationModel>
    decreases rows.len(),
{
    if rows.len() == 0 {
        Some(m)
    } else {
        match cal_rows_fold(m, rows.drop_last()) {
            Some(acc) => apply_cal_row(acc, rows.last().0, rows.last().1),
            None => None,
        }
    }
}

/// Reads the number of rounds: one to nine decimal digits.
fn parse_rounds(s: &str) -> (r: Option<usize>)
    ensures
        match r {
            Some(v) => rounds_spec(s.spec_bytes()) == Some(v as int) && v < 1_000_000_000,
            None => rounds_spec(s.spec_bytes()) is None,
        },
{
    let b = s.as_bytes();
    let n = b.len();
    if n < 1 || n > 9 {
        return None;
    }
    if !crate::text::check_digits(b, 0, n) {
        proof {
            assert(b@.subrange(0int, n as int) =~= b@);
        }
        return None;
    }
    proof {
        assert(b@.subrange(0int, n as int) =~= b@);
        crate::text::lemma_digits_value_bound(b@);
        crate::text::lemma_pow10_le(n as nat, 9);
        assert(crate::text::pow10(9) == 1_000_000_000) by {
            reveal_with_fuel(crate::text::pow10, 10);
        }
    }
    let v = crate::text::digits_at(b, 0, n);
    Some(v as usize)
}

/// Builds the calibration parameters from the store's rows: starting from
/// the empty parameters, each recognised property replaces its field,
/// unknown properties are ignored, and a malformed number fails.
pub fn calibration_from_rows(rows: &Vec<(String, String)>) -> (r: Result<
    CalibrationInfo,
    ConfigError,
>)
    ensures
        match r {
            Ok(cal) => cal_rows_fold(default_calibration_model(), rows@) == Some(
                calibration_model(&cal),
            ),
            Err(_) => cal_rows_fold(default_calibration_model(), rows@) is None,
        },
{
    let mut cal = CalibrationInfo::new();
    let mut j: usize = 0;
    proof {
        assert(rows@.take(0int) =~= Seq::<(String, String)>::empty());
        assert(calibration_model(&cal) =~= default_calibration_model());
    }
    while j < rows.len()
        invariant
            j <= rows@.len(),
            cal_rows_fold(default_calibration_model(), rows@.take(j as int)) == Some(
                calibration_model(&cal),
            ),
        decreases rows@.len() - j,
    {
        let prop = &rows[j].0;
        let value = &rows[j].1;
        proof {
            assert(rows@.take(j as int + 1).drop_last() =~= rows@.take(j as int));
            assert(rows@.take(j as int + 1).last() == rows@[j as int]);
        }
        if string_is(prop, "author") {
            cal.author = value.clone();
        } else if string_is(prop, "rounds") {
            match parse_rounds(value.as_str()) {
                Some(v) => {
                    cal.rounds = v;
                },
                None => {
                    proof {
                        lemma_cal_fold_none(default_calibration_model(), rows@, j as int + 1);
                    }
                    return Err(ConfigError::BadNumber);
                },
            }
        } else if string_is(prop, "offset") {
            match crate::text::parse_decimal(value.as_str(), 2) {
                Some(v) => {
                    cal.offset = v;
                },
                None => {
                    proof {
                        lemma_cal_fold_none(default_calibration_model(), rows@, j as int + 1);
                    }
                    return Err(ConfigError::BadNumber);
                },
            }
        } else if string_is(prop, "zp_fict") {
            match crate::text::parse_decimal(value.as_str(), 2) {
                Some(v) => {
                    cal.zp_fict = v;
                },
                None => {
                    proof {
                        lemma_cal_fold_none(default_calibration_model(), rows@, j as int + 1);
                    }
                    return Err(ConfigError::BadNumber);
                },
            }
        }
        proof {
            assert(calibration_model(&cal) =~= apply_cal_row(
                cal_rows_fold(default_calibration_model(), rows@.take(j as int)).unwrap(),
                rows@[j as int].0,
                rows@[j as int].1,
            ).unwrap());
        }
        j = j + 1;
    }
    proof {
        assert(rows@.take(rows@.len() as int) =~= rows@);
    }
    Ok(cal)
}

} // verus!
