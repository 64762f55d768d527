//! The zero-point write-back protocol's verified half: rendering the value
//! that is sent to both device endpoints, and checking the read-back page
//! against the written value. The HTTP requests themselves live at the
//! unverified edge.

use vstd::prelude::*;

use crate::page::{extract_zp, page_zp};
use crate::payload::UpdateError;
use crate::text::{digit_seq, lemma_digit_seq_len, pow10};

verus! {

/// The two-decimal rendering of a zero point given in centi-units: one or
/// two integer digits, a dot, and exactly two fraction digits.
pub open spec fn format_zp_spec(zp: int) -> Seq<u8> {
    (if zp >= 1000 {
        digit_seq(zp / 100, 2)
    } else {
        digit_seq(zp / 100, 1)
    }) + seq![46u8] + digit_seq(zp % 100, 2)
}

/// Renders a zero point in centi-units as its two-decimal text, the form
/// both device endpoints take.
pub fn format_zp(zp: i64) -> (r: Vec<u8>)
    requires
        0 <= zp <= 9999,
    ensures
        r@ == format_zp_spec(zp as int),
{
    proof {
        assert(pow10(1) == 10 && pow10(2) == 100) by {
            reveal_with_fuel(pow10, 3);
        }
        lemma_digit_seq_len(zp as int / 100, 2);
        lemma_digit_seq_len(zp as int / 100, 1);
    }
    let mut out: Vec<u8> = Vec::new();
    if zp >= 1000 {
        crate::text::push_digits(&mut out, zp / 100, 2);
    } else {
        crate::text::push_digits(&mut out, zp / 100, 1);
    }
    out.push(46);
    crate::text::push_digits(&mut out, zp % 100, 2);
    proof {
        assert(out@ =~= format_zp_spec(zp as int));
    }
    out
}

/// Checks the device's configuration page against the zero point that was
/// written: succeeds exactly when the page reports that value; the two
/// failures distinguish a page without a zero point from a mismatching
/// one.
pub fn verify_readback(body: &str, written_zp: i64) -> (r: Result<(), UpdateError>)
    ensures
        r is Ok <==> page_zp(body@) == Some(written_zp as int),
        r == Err::<(), UpdateError>(UpdateError::Verify) <==> page_zp(body@) is None,
        r == Err::<(), UpdateError>(UpdateError::Mismatch) <==> (page_zp(body@) is Some && page_zp(
            body@,
        ) != Some(written_zp as int)),
{
    match extract_zp(body) {
        None => Err(UpdateError::Verify),
        Some(read_zp) => {
            if read_zp == written_zp {
                Ok(())
            } else {
                Err(UpdateError::Mismatch)
            }
        },
    }
}

} // verus!
