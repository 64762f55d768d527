//! Reading of the photometer's HTML configuration page: the zero point,
//! the device name, the MAC address, the firmware tag and the frequency
//! offset, each found by a leftmost scan for its label.

use vstd::prelude::*;

verus! {

/// `c` is an ASCII decimal digit.
pub open spec fn is_digit_char(c: char) -> bool {
    '0' <= c && c <= '9'
}

/// The numeric value of a digit character.
pub open spec fn digit_char_val(c: char) -> int {
    c as int - 48
}

/// The fractional part of a zero point at `q` (one or two digits, read
/// greedily), added to `int_part` whole units; the result is in
/// centi-units.
pub open spec fn zp_frac_at(s: Seq<char>, q: int, int_part: int) -> Option<int> {
    if 0 <= q < s.len() && is_digit_char(s[q]) {
        if q + 1 < s.len() && is_digit_char(s[q + 1]) {
            Some(int_part * 100 + 10 * digit_char_val(s[q]) + digit_char_val(s[q + 1]))
        } else {
            Some(int_part * 100 + 10 * digit_char_val(s[q]))
        }
    } else {
        None
    }
}

/// A zero point written as one or two digits, a dot, and one or two
/// digits, starting at `p`; in centi-units.
pub open spec fn zp_number_at(s: Seq<char>, p: int) -> Option<int> {
    if 0 <= p && p + 2 < s.len() && is_digit_char(s[p]) && is_digit_char(s[p + 1]) && s[p + 2]
        == '.' {
        zp_frac_at(s, p + 3, 10 * digit_char_val(s[p]) + digit_char_val(s[p + 1]))
    } else if 0 <= p && p + 1 < s.len() && is_digit_char(s[p]) && s[p + 1] == '.' {
        zp_frac_at(s, p + 2, digit_char_val(s[p]))
    } else {
        None
    }
}

/// After a `CI` label: the zero point following the nearest `: ` separator
/// on the same line.
pub open spec fn ci_tail(s: Seq<char>, j: int) -> Option<int>
    decreases s.len() - j,
{
    if j < 0 || j >= s.len() || s[j] == '\n' {
        None
    } else if s[j] == ':' && j + 1 < s.len() && s[j + 1] == ' ' {
        match zp_number_at(s, j + 2) {
            Some(v) => Some(v),
            None => ci_tail(s, j + 1),
        }
    } else {
        ci_tail(s, j + 1)
    }
}

/// The zero point of a label starting exactly at `i`: either `ZP: ` and a
/// number, or `CI`, a separator further along the line, and a number.
pub open spec fn zp_at(s: Seq<char>, i: int) -> Option<int> {
    if 0 <= i && i + 4 <= s.len() && s[i] == 'Z' && s[i + 1] == 'P' && s[i + 2] == ':' && s[i + 3]
        == ' ' {
        zp_number_at(s, i + 4)
    } else if 0 <= i && i + 2 <= s.len() && s[i] == 'C' && s[i + 1] == 'I' {
        ci_tail(s, i + 2)
    } else {
        None
    }
}

/// The zero point of the leftmost matching label at or after `i`.
pub open spec fn zp_scan(s: Seq<char>, i: int) -> Option<int>
    decreases s.len() - i,
{
    if i < 0 || i >= s.len() {
        None
    } else {
        match zp_at(s, i) {
            Some(v) => Some(v),
            None => zp_scan(s, i + 1),
        }
    }
}

/// The zero point reported by the page: the value of the leftmost `ZP` or
/// `CI` label, in centi-units.
pub open spec fn page_zp(s: Seq<char>) -> Option<int> {
    zp_scan(s, 0)
}

/// Reads the zero point at a fixed number position, mirroring
/// `zp_number_at`.
fn zp_number_exec(s: &str, p: usize, n: usize) -> (r: Option<i64>)
    requires
        n == s@.len(),
        p <= n,
    ensures
        match r {
            Some(v) => zp_number_at(s@, p as int) == Some(v as int) && 0 <= v <= 9999,
            None => zp_number_at(s@, p as int) is None,
        },
{
    if n - p > 2 && is_digit_exec(s.get_char(p)) && is_digit_exec(s.get_char(p + 1)) && s.get_char(
        p + 2,
    ) == '.' {
        let int_part = 10 * digit_exec(s.get_char(p)) + digit_exec(s.get_char(p + 1));
        zp_frac_exec(s, p + 3, n, int_part)
    } else if n - p > 1 && is_digit_exec(s.get_char(p)) && s.get_char(p + 1) == '.' {
        let int_part = digit_exec(s.get_char(p));
        zp_frac_exec(s, p + 2, n, int_part)
    } else {
        None
    }
}

/// Reads the fractional digits, mirroring `zp_frac_at`.
fn zp_frac_exec(s: &str, q: usize, n: usize, int_part: i64) -> (r: Option<i64>)
    requires
        n == s@.len(),
        q <= n,
        0 <= int_part <= 99,
    ensures
        match r {
            Some(v) => zp_frac_at(s@, q as int, int_part as int) == Some(v as int) && 0 <= v
                <= 9999,
            None => zp_frac_at(s@, q as int, int_part as int) is None,
        },
{
    if q < n && is_digit_exec(s.get_char(q)) {
        if n - q > 1 && is_digit_exec(s.get_char(q + 1)) {
            Some(int_part * 100 + 10 * digit_exec(s.get_char(q)) + digit_exec(s.get_char(q + 1)))
        } else {
            Some(int_part * 100 + 10 * digit_exec(s.get_char(q)))
        }
    } else {
        None
    }
}

/// Whether `c` is a decimal digit.
fn is_digit_exec(c: char) -> (r: bool)
    ensures
        r == is_digit_char(c),
{
    c >= '0' && c <= '9'
}

/// The value of a digit character.
fn digit_exec(c: char) -> (r: i64)
    requires
        is_digit_char(c),
    ensures
        r == digit_char_val(c),
        0 <= r <= 9,
{
    (c as i64) - 48
}

/// The `CI` separator scan, mirroring `ci_tail`.
fn ci_tail_exec(s: &str, j0: usize, n: usize) -> (r: Option<i64>)
    requires
        n == s@.len(),
    ensures
        match r {
            Some(v) => ci_tail(s@, j0 as int) == Some(v as int) && 0 <= v <= 9999,
            None => ci_tail(s@, j0 as int) is None,
        },
{
    let mut j: usize = j0;
    while j < n
        invariant
            n == s@.len(),
            j0 <= j,
            ci_tail(s@, j0 as int) == ci_tail(s@, j as int),
        decreases n - j,
    {
        let c = s.get_char(j);
        if c == '\n' {
            return None;
        }
        if c == ':' && j + 1 < n && s.get_char(j + 1) == ' ' {
            match zp_number_exec(s, j + 2, n) {
                Some(v) => {
                    return Some(v);
                },
                None => {},
            }
        }
        j = j + 1;
    }
    None
}

/// The zero point of a label starting exactly at `i`, mirroring `zp_at`.
fn zp_at_exec(s: &str, i: usize, n: usize) -> (r: Option<i64>)
    requires
        n == s@.len(),
        i < n,
    ensures
        match r {
            Some(v) => zp_at(s@, i as int) == Some(v as int) && 0 <= v <= 9999,
            None => zp_at(s@, i as int) is None,
        },
{
    if n - i >= 4 && s.get_char(i) == 'Z' && s.get_char(i + 1) == 'P' && s.get_char(i + 2) == ':'
        && s.get_char(i + 3) == ' ' {
        zp_number_exec(s, i + 4, n)
    } else if n - i >= 2 && s.get_char(i) == 'C' && s.get_char(i + 1) == 'I' {
        ci_tail_exec(s, i + 2, n)
    } else {
        None
    }
}

/// The zero point reported by the page, in centi-units: the value of the
/// leftmost `ZP: ` or `CI ... : ` label followed by a one-or-two digit,
/// dot, one-or-two digit number.
pub fn extract_zp(body: &str) -> (r: Option<i64>)
    ensures
        match r {
            Some(v) => page_zp(body@) == Some(v as int) && 0 <= v <= 9999,
            None => page_zp(body@) is None,
        },
{
    let n = body.unicode_len();
    let mut i: usize = 0;
    while i < n
        invariant
            n == body@.len(),
            zp_scan(body@, 0) == zp_scan(body@, i as int),
        decreases n - i,
    {
        match zp_at_exec(body, i, n) {
            Some(v) => {
                return Some(v);
            },
            None => {},
        }
        i = i + 1;
    }
    None
}

/// `c` is a hexadecimal digit.
pub open spec fn is_hex_char(c: char) -> bool {
    is_digit_char(c) || ('a' <= c && c <= 'f') || ('A' <= c && c <= 'F')
}

/// The position right after the run of decimal digits starting at `j`.
pub open spec fn digits_end(s: Seq<char>, j: int) -> int
    decreases s.len() - j,
{
    if 0 <= j < s.len() && is_digit_char(s[j]) {
        digits_end(s, j + 1)
    } else {
        j
    }
}

/// A device name `stars` plus at least one digit starting exactly at `i`:
/// the capture's bounds, the digits taken greedily.
pub open spec fn name_at(s: Seq<char>, i: int) -> Option<(int, int)> {
    if 0 <= i && i + 6 <= s.len() && s[i] == 's' && s[i + 1] == 't' && s[i + 2] == 'a' && s[i + 3]
        == 'r' && s[i + 4] == 's' && is_digit_char(s[i + 5]) {
        Some((i, digits_end(s, i + 6)))
    } else {
        None
    }
}

/// The bounds of the leftmost device name at or after `i`.
pub open spec fn name_scan(s: Seq<char>, i: int) -> Option<(int, int)>
    decreases s.len() - i,
{
    if i < 0 || i >= s.len() {
        None
    } else {
        match name_at(s, i) {
            Some(c) => Some(c),
            None => name_scan(s, i + 1),
        }
    }
}

/// The bounds of the device name reported by the page.
pub open spec fn page_name(s: Seq<char>) -> Option<(int, int)> {
    name_scan(s, 0)
}

/// The end of a one-or-two digit hexadecimal group at `p` followed by a
/// colon, the colon included.
pub open spec fn hexcolon_end(s: Seq<char>, p: int) -> Option<int> {
    if 0 <= p && p + 2 < s.len() && is_hex_char(s[p]) && is_hex_char(s[p + 1]) && s[p + 2] == ':' {
        Some(p + 3)
    } else if 0 <= p && p + 1 < s.len() && is_hex_char(s[p]) && s[p + 1] == ':' {
        Some(p + 2)
    } else {
        None
    }
}

/// The end of a final one-or-two digit hexadecimal group at `p`, the
/// digits taken greedily.
pub open spec fn hexgroup_end(s: Seq<char>, p: int) -> Option<int> {
    if 0 <= p && p + 1 < s.len() && is_hex_char(s[p]) && is_hex_char(s[p + 1]) {
        Some(p + 2)
    } else if 0 <= p && p < s.len() && is_hex_char(s[p]) {
        Some(p + 1)
    } else {
        None
    }
}

/// A `MAC: ` label at `i` followed by six colon-separated hexadecimal
/// groups: the capture's bounds (the address alone).
pub open spec fn mac_at(s: Seq<char>, i: int) -> Option<(int, int)> {
    if 0 <= i && i + 5 <= s.len() && s[i] == 'M' && s[i + 1] == 'A' && s[i + 2] == 'C' && s[i + 3]
        == ':' && s[i + 4] == ' ' {
        match hexcolon_end(s, i + 5) {
            Some(p1) => match hexcolon_end(s, p1) {
                Some(p2) => match hexcolon_end(s, p2) {
                    Some(p3) => match hexcolon_end(s, p3) {
                        Some(p4) => match hexcolon_end(s, p4) {
                            Some(p5) => match hexgroup_end(s, p5) {
                                Some(e) => Some((i + 5, e)),
                                None => None,
                            },
                            None => None,
                        },
                        None => None,
                    },
                    None => None,
                },
                None => None,
            },
            None => None,
        }
    } else {
        None
    }
}

/// The bounds of the leftmost MAC address at or after `i`.
pub open spec fn mac_scan(s: Seq<char>, i: int) -> Option<(int, int)>
    decreases s.len() - i,
{
    if i < 0 || i >= s.len() {
        None
    } else {
        match mac_at(s, i) {
            Some(c) => Some(c),
            None => mac_scan(s, i + 1),
        }
    }
}

/// The bounds of the MAC address reported by the page.
pub open spec fn page_mac(s: Seq<char>) -> Option<(int, int)> {
    mac_scan(s, 0)
}

/// `<br>` stands at `j`.
pub open spec fn br_at(s: Seq<char>, j: int) -> bool {
    0 <= j && j + 4 <= s.len() && s[j] == '<' && s[j + 1] == 'b' && s[j + 2] == 'r' && s[j + 3]
        == '>'
}

/// The position of the nearest `<br>` at or after `j` on the same line.
pub open spec fn fw_end(s: Seq<char>, j: int) -> Option<int>
    decreases s.len() - j,
{
    if br_at(s, j) {
        Some(j)
    } else if j < 0 || j >= s.len() || s[j] == '\n' {
        None
    } else {
        fw_end(s, j + 1)
    }
}

/// A `Compiled: ` label at `i` followed by at least one character and a
/// `<br>` on the same line: the capture's bounds (the shortest capture).
pub open spec fn fw_at(s: Seq<char>, i: int) -> Option<(int, int)> {
    if 0 <= i && i + 10 < s.len() && s[i] == 'C' && s[i + 1] == 'o' && s[i + 2] == 'm' && s[i + 3]
        == 'p' && s[i + 4] == 'i' && s[i + 5] == 'l' && s[i + 6] == 'e' && s[i + 7] == 'd' && s[i
        + 8] == ':' && s[i + 9] == ' ' && s[i + 10] != '\n' {
        match fw_end(s, i + 11) {
            Some(e) => Some((i + 10, e)),
            None => None,
        }
    } else {
        None
    }
}

/// The bounds of the leftmost firmware tag at or after `i`.
pub open spec fn fw_scan(s: Seq<char>, i: int) -> Option<(int, int)>
    decreases s.len() - i,
{
    if i < 0 || i >= s.len() {
        None
    } else {
        match fw_at(s, i) {
            Some(c) => Some(c),
            None => fw_scan(s, i + 1),
        }
    }
}

/// The bounds of the firmware tag reported by the page.
pub open spec fn page_firmware(s: Seq<char>) -> Option<(int, int)> {
    fw_scan(s, 0)
}

/// The fraction of a frequency offset at `q` (one to three digits, read
/// greedily) followed immediately by `<br>`, added to `ip` whole hertz;
/// the result is in milli-hertz.
pub open spec fn off_frac_at(s: Seq<char>, q: int, ip: int) -> Option<int> {
    if 0 <= q && q + 2 < s.len() && is_digit_char(s[q]) && is_digit_char(s[q + 1]) && is_digit_char(
        s[q + 2],
    ) && br_at(s, q + 3) {
        Some(
            ip * 1000 + 100 * digit_char_val(s[q]) + 10 * digit_char_val(s[q + 1]) + digit_char_val(
                s[q + 2],
            ),
        )
    } else if 0 <= q && q + 1 < s.len() && is_digit_char(s[q]) && is_digit_char(s[q + 1]) && br_at(
        s,
        q + 2,
    ) {
        Some(ip * 1000 + 100 * digit_char_val(s[q]) + 10 * digit_char_val(s[q + 1]))
    } else if 0 <= q && q < s.len() && is_digit_char(s[q]) && br_at(s, q + 1) {
        Some(ip * 1000 + 100 * digit_char_val(s[q]))
    } else {
        None
    }
}

/// A frequency offset written as one to three digits, a dot, one to three
/// digits and `<br>`, starting at `p`; in milli-hertz.
pub open spec fn off_number_at(s: Seq<char>, p: int) -> Option<int> {
    if 0 <= p && p + 3 < s.len() && is_digit_char(s[p]) && is_digit_char(s[p + 1]) && is_digit_char(
        s[p + 2],
    ) && s[p + 3] == '.' {
        off_frac_at(
            s,
            p + 4,
            100 * digit_char_val(s[p]) + 10 * digit_char_val(s[p + 1]) + digit_char_val(s[p + 2]),
        )
    } else if 0 <= p && p + 2 < s.len() && is_digit_char(s[p]) && is_digit_char(s[p + 1]) && s[p
        + 2] == '.' {
        off_frac_at(s, p + 3, 10 * digit_char_val(s[p]) + digit_char_val(s[p + 1]))
    } else if 0 <= p && p + 1 < s.len() && is_digit_char(s[p]) && s[p + 1] == '.' {
        off_frac_at(s, p + 2, digit_char_val(s[p]))
    } else {
        None
    }
}

/// An `Offset Hz: ` label starting exactly at `i` followed by an offset
/// number; in milli-hertz.
pub open spec fn off_at(s: Seq<char>, i: int) -> Option<int> {
    if 0 <= i && i + 11 <= s.len() && s[i] == 'O' && s[i + 1] == 'f' && s[i + 2] == 'f' && s[i + 3]
        == 's' && s[i + 4] == 'e' && s[i + 5] == 't' && s[i + 6] == ' ' && s[i + 7] == 'H' && s[i
        + 8] == 'z' && s[i + 9] == ':' && s[i + 10] == ' ' {
        off_number_at(s, i + 11)
    } else {
        None
    }
}

/// The offset of the leftmost matching label at or after `i`.
pub open spec fn off_scan(s: Seq<char>, i: int) -> Option<int>
    decreases s.len() - i,
{
    if i < 0 || i >= s.len() {
        None
    } else {
        match off_at(s, i) {
            Some(v) => Some(v),
            None => off_scan(s, i + 1),
        }
    }
}

/// The frequency offset reported by the page, in milli-hertz.
pub open spec fn page_offset(s: Seq<char>) -> Option<int> {
    off_scan(s, 0)
}

/// Whether `c` is a hexadecimal digit.
fn is_hex_exec(c: char) -> (r: bool)
    ensures
        r == is_hex_char(c),
{
    (c >= '0' && c <= '9') || (c >= 'a' && c <= 'f') || (c >= 'A' && c <= 'F')
}

/// The end of the digit run starting at `j`, mirroring `digits_end`.
pub fn digits_end_exec(s: &str, j0: usize, n: usize) -> (r: usize)
    requires
        n == s@.len(),
        j0 <= n,
    ensures
        r == digits_end(s@, j0 as int),
        j0 <= r <= n,
{
    let mut j: usize = j0;
    while j < n && is_digit_exec(s.get_char(j))
        invariant
            n == s@.len(),
            j0 <= j <= n,
            digits_end(s@, j0 as int) == digits_end(s@, j as int),
        decreases n - j,
    {
        j = j + 1;
    }
    j
}

/// The device name at `i`, mirroring `name_at`.
fn name_at_exec(s: &str, i: usize, n: usize) -> (r: Option<(usize, usize)>)
    requires
        n == s@.len(),
        i < n,
    ensures
        match r {
            Some((a, b)) => name_at(s@, i as int) == Some((a as int, b as int)) && a <= b <= n,
            None => name_at(s@, i as int) is None,
        },
{
    if n - i >= 6 && s.get_char(i) == 's' && s.get_char(i + 1) == 't' && s.get_char(i + 2) == 'a'
        && s.get_char(i + 3) == 'r' && s.get_char(i + 4) == 's' && is_digit_exec(
        s.get_char(i + 5),
    ) {
        let e = digits_end_exec(s, i + 6, n);
        Some((i, e))
    } else {
        None
    }
}

/// The bounds of the device name reported by the page, leftmost label
/// first.
pub fn extract_name(body: &str) -> (r: Option<(usize, usize)>)
    ensures
        match r {
            Some((a, b)) => page_name(body@) == Some((a as int, b as int)) && a <= b <= body@.len(),
            None => page_name(body@) is None,
        },
{
    let n = body.unicode_len();
    let mut i: usize = 0;
    while i < n
        invariant
            n == body@.len(),
            name_scan(body@, 0) == name_scan(body@, i as int),
        decreases n - i,
    {
        match name_at_exec(body, i, n) {
            Some(c) => {
                return Some(c);
            },
            None => {},
        }
        i = i + 1;
    }
    None
}

/// A hexadecimal group and its colon at `p`, mirroring `hexcolon_end`.
fn hexcolon_exec(s: &str, p: usize, n: usize) -> (r: Option<usize>)
    requires
        n == s@.len(),
        p <= n,
    ensures
        match r {
            Some(e) => hexcolon_end(s@, p as int) == Some(e as int) && p < e <= n,
            None => hexcolon_end(s@, p as int) is None,
        },
{
    if n - p > 2 && is_hex_exec(s.get_char(p)) && is_hex_exec(s.get_char(p + 1)) && s.get_char(
        p + 2,
    ) == ':' {
        Some(p + 3)
    } else if n - p > 1 && is_hex_exec(s.get_char(p)) && s.get_char(p + 1) == ':' {
        Some(p + 2)
    } else {
        None
    }
}

/// The final hexadecimal group at `p`, mirroring `hexgroup_end`.
fn hexgroup_exec(s: &str, p: usize, n: usize) -> (r: Option<usize>)
    requires
        n == s@.len(),
        p <= n,
    ensures
        match r {
            Some(e) => hexgroup_end(s@, p as int) == Some(e as int) && p < e <= n,
            None => hexgroup_end(s@, p as int) is None,
        },
{
    if n - p > 1 && is_hex_exec(s.get_char(p)) && is_hex_exec(s.get_char(p + 1)) {
        Some(p + 2)
    } else if n - p > 0 && is_hex_exec(s.get_char(p)) {
        Some(p + 1)
    } else {
        None
    }
}

/// The MAC address at `i`, mirroring `mac_at`.
fn mac_at_exec(s: &str, i: usize, n: usize) -> (r: Option<(usize, usize)>)
    requires
        n == s@.len(),
        i < n,
    ensures
        match r {
            Some((a, b)) => mac_at(s@, i as int) == Some((a as int, b as int)) && a <= b <= n,
            None => mac_at(s@, i as int) is None,
        },
{
    if !(n - i >= 5 && s.get_char(i) == 'M' && s.get_char(i + 1) == 'A' && s.get_char(i + 2) == 'C'
        && s.get_char(i + 3) == ':' && s.get_char(i + 4) == ' ') {
        return None;
    }
    let p1 = match hexcolon_exec(s, i + 5, n) {
        Some(p) => p,
        None => {
            return None;
        },
    };
    let p2 = match hexcolon_exec(s, p1, n) {
        Some(p) => p,
        None => {
            return None;
        },
    };
    let p3 = match hexcolon_exec(s, p2, n) {
        Some(p) => p,
        None => {
            return None;
        },
    };
    let p4 = match hexcolon_exec(s, p3, n) {
        Some(p) => p,
        None => {
            return None;
        },
    };
    let p5 = match hexcolon_exec(s, p4, n) {
        Some(p) => p,
        None => {
            return None;
        },
    };
    match hexgroup_exec(s, p5, n) {
        Some(e) => Some((i + 5, e)),
        None => None,
    }
}

/// The bounds of the MAC address reported by the page, leftmost label
/// first.
pub fn extract_mac(body: &str) -> (r: Option<(usize, usize)>)
    ensures
        match r {
            Some((a, b)) => page_mac(body@) == Some((a as int, b as int)) && a <= b <= body@.len(),
            None => page_mac(body@) is None,
        },
{
    let n = body.unicode_len();
    let mut i: usize = 0;
    while i < n
        invariant
            n == body@.len(),
            mac_scan(body@, 0) == mac_scan(body@, i as int),
        decreases n - i,
    {
        match mac_at_exec(body, i, n) {
            Some(c) => {
                return Some(c);
            },
            None => {},
        }
        i = i + 1;
    }
    None
}

/// Whether `<br>` stands at `j`.
fn br_at_exec(s: &str, j: usize, n: usize) -> (r: bool)
    requires
        n == s@.len(),
        j <= n,
    ensures
        r == br_at(s@, j as int),
{
    n - j >= 4 && s.get_char(j) == '<' && s.get_char(j + 1) == 'b' && s.get_char(j + 2) == 'r'
        && s.get_char(j + 3) == '>'
}

/// The nearest `<br>` at or after `j0` on the same line, mirroring
/// `fw_end`.
fn fw_end_exec(s: &str, j0: usize, n: usize) -> (r: Option<usize>)
    requires
        n == s@.len(),
        j0 <= n,
    ensures
        match r {
            Some(e) => fw_end(s@, j0 as int) == Some(e as int) && j0 <= e <= n,
            None => fw_end(s@, j0 as int) is None,
        },
{
    let mut j: usize = j0;
    while j < n
        invariant
            n == s@.len(),
            j0 <= j <= n,
            fw_end(s@, j0 as int) == fw_end(s@, j as int),
        decreases n - j,
    {
        if br_at_exec(s, j, n) {
            return Some(j);
        }
        if s.get_char(j) == '\n' {
            return None;
        }
        j = j + 1;
    }
    None
}

/// The firmware tag at `i`, mirroring `fw_at`.
fn fw_at_exec(s: &str, i: usize, n: usize) -> (r: Option<(usize, usize)>)
    requires
        n == s@.len(),
        i < n,
    ensures
        match r {
            Some((a, b)) => fw_at(s@, i as int) == Some((a as int, b as int)) && a <= b <= n,
            None => fw_at(s@, i as int) is None,
        },
{
    if n - i > 10 && s.get_char(i) == 'C' && s.get_char(i + 1) == 'o' && s.get_char(i + 2) == 'm'
        && s.get_char(i + 3) == 'p' && s.get_char(i + 4) == 'i' && s.get_char(i + 5) == 'l'
        && s.get_char(i + 6) == 'e' && s.get_char(i + 7) == 'd' && s.get_char(i + 8) == ':'
        && s.get_char(i + 9) == ' ' && s.get_char(i + 10) != '\n' {
        match fw_end_exec(s, i + 11, n) {
            Some(e) => Some((i + 10, e)),
            None => None,
        }
    } else {
        None
    }
}

/// The bounds of the firmware tag reported by the page, leftmost label
/// first.
pub fn extract_firmware(body: &str) -> (r: Option<(usize, usize)>)
    ensures
        match r {
            Some((a, b)) => page_firmware(body@) == Some((a as int, b as int)) && a <= b
                <= body@.len(),
            None => page_firmware(body@) is None,
        },
{
    let n = body.unicode_len();
    let mut i: usize = 0;
    while i < n
        invariant
            n == body@.len(),
            fw_scan(body@, 0) == fw_scan(body@, i as int),
        decreases n - i,
    {
        match fw_at_exec(body, i, n) {
            Some(c) => {
                return Some(c);
            },
            None => {},
        }
        i = i + 1;
    }
    None
}

/// The offset fraction at `q`, mirroring `off_frac_at`.
fn off_frac_exec(s: &str, q: usize, n: usize, ip: i64) -> (r: Option<i64>)
    requires
        n == s@.len(),
        q <= n,
        0 <= ip <= 999,
    ensures
        match r {
            Some(v) => off_frac_at(s@, q as int, ip as int) == Some(v as int) && 0 <= v <= 999_999,
            None => off_frac_at(s@, q as int, ip as int) is None,
        },
{
    if n - q > 2 && is_digit_exec(s.get_char(q)) && is_digit_exec(s.get_char(q + 1))
        && is_digit_exec(s.get_char(q + 2)) && br_at_exec(s, q + 3, n) {
        Some(
            ip * 1000 + 100 * digit_exec(s.get_char(q)) + 10 * digit_exec(s.get_char(q + 1))
                + digit_exec(s.get_char(q + 2)),
        )
    } else if n - q > 1 && is_digit_exec(s.get_char(q)) && is_digit_exec(s.get_char(q + 1))
        && br_at_exec(s, q + 2, n) {
        Some(ip * 1000 + 100 * digit_exec(s.get_char(q)) + 10 * digit_exec(s.get_char(q + 1)))
    } else if n - q > 0 && is_digit_exec(s.get_char(q)) && br_at_exec(s, q + 1, n) {
        Some(ip * 1000 + 100 * digit_exec(s.get_char(q)))
    } else {
        None
    }
}

/// The offset number at `p`, mirroring `off_number_at`.
fn off_number_exec(s: &str, p: usize, n: usize) -> (r: Option<i64>)
    requires
        n == s@.len(),
        p <= n,
    ensures
        match r {
            Some(v) => off_number_at(s@, p as int) == Some(v as int) && 0 <= v <= 999_999,
            None => off_number_at(s@, p as int) is None,
        },
{
    if n - p > 3 && is_digit_exec(s.get_char(p)) && is_digit_exec(s.get_char(p + 1))
        && is_digit_exec(s.get_char(p + 2)) && s.get_char(p + 3) == '.' {
        let ip = 100 * digit_exec(s.get_char(p)) + 10 * digit_exec(s.get_char(p + 1)) + digit_exec(
            s.get_char(p + 2),
        );
        off_frac_exec(s, p + 4, n, ip)
    } else if n - p > 2 && is_digit_exec(s.get_char(p)) && is_digit_exec(s.get_char(p + 1))
        && s.get_char(p + 2) == '.' {
        let ip = 10 * digit_exec(s.get_char(p)) + digit_exec(s.get_char(p + 1));
        off_frac_exec(s, p + 3, n, ip)
    } else if n - p > 1 && is_digit_exec(s.get_char(p)) && s.get_char(p + 1) == '.' {
        let ip = digit_exec(s.get_char(p));
        off_frac_exec(s, p + 2, n, ip)
    } else {
        None
    }
}

/// The offset at label position `i`, mirroring `off_at`.
fn off_at_exec(s: &str, i: usize, n: usize) -> (r: Option<i64>)
    requires
        n == s@.len(),
        i < n,
    ensures
        match r {
            Some(v) => off_at(s@, i as int) == Some(v as int) && 0 <= v <= 999_999,
            None => off_at(s@, i as int) is None,
        },
{
    if n - i >= 11 && s.get_char(i) == 'O' && s.get_char(i + 1) == 'f' && s.get_char(i + 2) == 'f'
        && s.get_char(i + 3) == 's' && s.get_char(i + 4) == 'e' && s.get_char(i + 5) == 't'
        && s.get_char(i + 6) == ' ' && s.get_char(i + 7) == 'H' && s.get_char(i + 8) == 'z'
        && s.get_char(i + 9) == ':' && s.get_char(i + 10) == ' ' {
        off_number_exec(s, i + 11, n)
    } else {
        None
    }
}

/// The frequency offset reported by the page, in milli-hertz: the value of
/// the leftmost `Offset Hz: ` label followed by a one-to-three digit, dot,
/// one-to-three digit number and `<br>`.
pub fn extract_offset(body: &str) -> (r: Option<i64>)
    ensures
        match r {
            Some(v) => page_offset(body@) == Some(v as int) && 0 <= v <= 999_999,
            None => page_offset(body@) is None,
        },
{
    let n = body.unicode_len();
    let mut i: usize = 0;
    while i < n
        invariant
            n == body@.len(),
            off_scan(body@, 0) == off_scan(body@, i as int),
        decreases n - i,
    {
        match off_at_exec(body, i, n) {
            Some(v) => {
                return Some(v);
            },
            None => {},
        }
        i = i + 1;
    }
    None
}

} // verus!
