//! The structured stream's wire grammar: one flat JSON object per UDP
//! datagram, with the ten fields of a test-photometer reading. The values
//! are plain decimal numbers and escape-free strings; every numeric field
//! is scaled into the library's integer units as it is read, so the
//! parsed reading is exact.

use vstd::prelude::*;

use crate::page::{digit_char_val, digits_end, is_digit_char};
use crate::payload::FREQ_BOUND_MILLIHZ;
use crate::text::pow10;

verus! {

/// `c` is JSON whitespace.
pub open spec fn is_ws(c: char) -> bool {
    c == ' ' || c == '\t' || c == '\n' || c == '\r'
}

/// The first non-whitespace position at or after `i`.
pub open spec fn skip_ws(s: Seq<char>, i: int) -> int
    decreases s.len() - i,
{
    if 0 <= i < s.len() && is_ws(s[i]) {
        skip_ws(s, i + 1)
    } else {
        i
    }
}

/// The position of the closing quote of a string that continues at `j`:
/// the scan fails on a backslash or an unterminated string.
pub open spec fn str_end(s: Seq<char>, j: int) -> Option<int>
    decreases s.len() - j,
{
    if j < 0 || j >= s.len() || s[j] == '\\' {
        None
    } else if s[j] == '"' {
        Some(j)
    } else {
        str_end(s, j + 1)
    }
}

/// A number token: an optional minus sign, the integer digit run and the
/// fraction digit run (empty when there is no dot).
pub struct NumTok {
    pub neg: bool,
    pub ip_start: int,
    pub ip_end: int,
    pub fp_start: int,
    pub fp_end: int,
    pub end: int,
}

/// The number token starting at `i`, if the text there is a plain decimal
/// number.
pub open spec fn num_tok(s: Seq<char>, i: int) -> Option<NumTok> {
    if i < 0 || i >= s.len() {
        None
    } else {
        let st = if s[i] == '-' {
            i + 1
        } else {
            i
        };
        let ipe = digits_end(s, st);
        if ipe == st {
            None
        } else if ipe < s.len() && s[ipe] == '.' {
            let fpe = digits_end(s, ipe + 1);
            if fpe == ipe + 1 {
                None
            } else {
                Some(
                    NumTok {
                        neg: s[i] == '-',
                        ip_start: st,
                        ip_end: ipe,
                        fp_start: ipe + 1,
                        fp_end: fpe,
                        end: fpe,
                    },
                )
            }
        } else {
            Some(
                NumTok {
                    neg: s[i] == '-',
                    ip_start: st,
                    ip_end: ipe,
                    fp_start: ipe,
                    fp_end: ipe,
                    end: ipe,
                },
            )
        }
    }
}

/// The value of a digit run `s[a .. b)`.
pub open spec fn char_digits_value(s: Seq<char>, a: int, b: int) -> int
    decreases b - a,
{
    if a >= b {
        0
    } else {
        char_digits_value(s, a, b - 1) * 10 + digit_char_val(s[b - 1])
    }
}

/// The token's value scaled to `scale` fraction digits, fraction digits
/// beyond the scale discarded; `None` when the integer part is longer
/// than ten digits.
pub open spec fn num_scaled(s: Seq<char>, t: NumTok, scale: nat) -> Option<int> {
    if t.ip_end - t.ip_start > 10 {
        None
    } else {
        let used_end = if t.fp_end - t.fp_start <= scale {
            t.fp_end
        } else {
            t.fp_start + scale
        };
        let v = char_digits_value(s, t.ip_start, t.ip_end) * pow10(scale) + char_digits_value(
            s,
            t.fp_start,
            used_end,
        ) * pow10((scale - (used_end - t.fp_start)) as nat);
        Some(
            if t.neg {
                -v
            } else {
                v
            },
        )
    }
}

/// The token's value as a plain integer: the fraction must be empty and
/// the integer part at most ten digits.
pub open spec fn num_int(s: Seq<char>, t: NumTok) -> Option<int> {
    if t.fp_end != t.fp_start || t.ip_end - t.ip_start > 10 {
        None
    } else {
        let v = char_digits_value(s, t.ip_start, t.ip_end);
        Some(
            if t.neg {
                -v
            } else {
                v
            },
        )
    }
}

/// A member's value: a number or a string (content bounds only).
pub enum ValTok {
    Num(NumTok),
    Str { a: int, b: int, end: int },
}

impl ValTok {
    /// The position right after the value.
    pub open spec fn end(self) -> int {
        match self {
            ValTok::Num(t) => t.end,
            ValTok::Str { end, .. } => end,
        }
    }
}

/// The value token starting at `i`.
pub open spec fn val_tok(s: Seq<char>, i: int) -> Option<ValTok> {
    if 0 <= i < s.len() && s[i] == '"' {
        match str_end(s, i + 1) {
            Some(e) => Some(ValTok::Str { a: i + 1, b: e, end: e + 1 }),
            None => None,
        }
    } else {
        match num_tok(s, i) {
            Some(t) => Some(ValTok::Num(t)),
            None => None,
        }
    }
}

/// One `"key": value` member starting at `i` (leading whitespace
/// allowed).
pub struct PairTok {
    pub ka: int,
    pub kb: int,
    pub val: ValTok,
    pub end: int,
}

/// The member starting at `i`.
pub open spec fn pair_tok(s: Seq<char>, i: int) -> Option<PairTok> {
    let i1 = skip_ws(s, i);
    if 0 <= i1 < s.len() && s[i1] == '"' {
        match str_end(s, i1 + 1) {
            Some(ke) => {
                let i2 = skip_ws(s, ke + 1);
                if i2 < s.len() && s[i2] == ':' {
                    let i3 = skip_ws(s, i2 + 1);
                    match val_tok(s, i3) {
                        Some(v) => Some(PairTok { ka: i1 + 1, kb: ke, val: v, end: v.end() }),
                        None => None,
                    }
                } else {
                    None
                }
            },
            None => None,
        }
    } else {
        None
    }
}

/// The fields gathered so far while the members of the object are read.
pub struct Partial {
    pub udp: Option<int>,
    pub rev: Option<int>,
    pub name: Option<(int, int)>,
    pub freq: Option<int>,
    pub mag: Option<int>,
    pub tamb: Option<int>,
    pub tsky: Option<int>,
    pub wdbm: Option<int>,
    pub ain: Option<int>,
    pub zp: Option<int>,
}

/// No field seen yet.
pub open spec fn empty_partial() -> Partial {
    Partial {
        udp: None,
        rev: None,
        name: None,
        freq: None,
        mag: None,
        tamb: None,
        tsky: None,
        wdbm: None,
        ain: None,
        zp: None,
    }
}

/// One member folded into the gathered fields. A recognised key takes its
/// value, scaled to the field's unit and held to the field's machine
/// range; a repeated recognised key fails, as does a value of the wrong
/// shape; an unknown key is ignored.
pub open spec fn apply_pair(s: Seq<char>, acc: Partial, p: PairTok) -> Option<Partial> {
    let key = s.subrange(p.ka, p.kb);
    if key == "udp"@ {
        match (acc.udp, num_of(s, p.val)) {
            (None, Some(v)) => if 0 <= v <= u32::MAX {
                Some(Partial { udp: Some(v), ..acc })
            } else {
                None
            },
            _ => None,
        }
    } else if key == "rev"@ {
        match (acc.rev, num_of(s, p.val)) {
            (None, Some(v)) => if i8::MIN <= v <= i8::MAX {
                Some(Partial { rev: Some(v), ..acc })
            } else {
                None
            },
            _ => None,
        }
    } else if key == "name"@ {
        match (acc.name, p.val) {
            (None, ValTok::Str { a, b, .. }) => Some(Partial { name: Some((a, b)), ..acc }),
            _ => None,
        }
    } else if key == "freq"@ {
        match (acc.freq, scaled_of(s, p.val, 3)) {
            (None, Some(v)) => if 0 <= v <= FREQ_BOUND_MILLIHZ {
                Some(Partial { freq: Some(v), ..acc })
            } else {
                None
            },
            _ => None,
        }
    } else if key == "mag"@ {
        match (acc.mag, scaled_of(s, p.val, 3)) {
            (None, Some(v)) => Some(Partial { mag: Some(v), ..acc }),
            _ => None,
        }
    } else if key == "tamb"@ {
        match (acc.tamb, scaled_of(s, p.val, 2)) {
            (None, Some(v)) => Some(Partial { tamb: Some(v), ..acc }),
            _ => None,
        }
    } else if key == "tsky"@ {
        match (acc.tsky, scaled_of(s, p.val, 2)) {
            (None, Some(v)) => Some(Partial { tsky: Some(v), ..acc }),
            _ => None,
        }
    } else if key == "wdBm"@ {
        match (acc.wdbm, num_of(s, p.val)) {
            (None, Some(v)) => if i16::MIN <= v <= i16::MAX {
                Some(Partial { wdbm: Some(v), ..acc })
            } else {
                None
            },
            _ => None,
        }
    } else if key == "ain"@ {
        match (acc.ain, num_of(s, p.val)) {
            (None, Some(v)) => if i16::MIN <= v <= i16::MAX {
                Some(Partial { ain: Some(v), ..acc })
            } else {
                None
            },
            _ => None,
        }
    } else if key == "ZP"@ {
        match (acc.zp, scaled_of(s, p.val, 2)) {
            (None, Some(v)) => Some(Partial { zp: Some(v), ..acc }),
            _ => None,
        }
    } else {
        Some(acc)
    }
}

/// The integer value of a numeric member.
pub open spec fn num_of(s: Seq<char>, v: ValTok) -> Option<int> {
    match v {
        ValTok::Num(t) => num_int(s, t),
        ValTok::Str { .. } => None,
    }
}

/// The scaled value of a numeric member.
pub open spec fn scaled_of(s: Seq<char>, v: ValTok, scale: nat) -> Option<int> {
    match v {
        ValTok::Num(t) => num_scaled(s, t, scale),
        ValTok::Str { .. } => None,
    }
}

/// The members of the object read from `i` on: each member is folded into
/// the gathered fields, a comma continues, a closing brace ends. The
/// result carries the position right after the brace.
pub open spec fn members(s: Seq<char>, i: int, acc: Partial) -> Option<(Partial, int)>
    decreases s.len() - i,
{
    match pair_tok(s, i) {
        Some(p) => match apply_pair(s, acc, p) {
            Some(acc2) => {
                let j = skip_ws(s, p.end);
                if 0 <= j < s.len() && s[j] == ',' {
                    if j + 1 > i {
                        members(s, j + 1, acc2)
                    } else {
                        None
                    }
                } else if 0 <= j < s.len() && s[j] == '}' {
                    Some((acc2, j + 1))
                } else {
                    None
                }
            },
            None => None,
        },
        None => None,
    }
}

/// A parsed structured reading, with the name as bounds into the input.
pub struct FrameModel {
    pub udp: int,
    pub rev: int,
    pub name: (int, int),
    pub freq: int,
    pub mag: int,
    pub tamb: int,
    pub tsky: int,
    pub wdbm: int,
    pub ain: int,
    pub zp: int,
}

/// What a structured frame decodes to: a flat JSON object holding all ten
/// fields exactly once (unknown members ignored), with nothing but
/// whitespace around it.
pub open spec fn frame_spec(s: Seq<char>) -> Option<FrameModel> {
    let i0 = skip_ws(s, 0);
    if 0 <= i0 < s.len() && s[i0] == '{' {
        match members(s, i0 + 1, empty_partial()) {
            Some((acc, e)) => {
                if skip_ws(s, e) == s.len() {
                    match (acc.udp,
                    acc.rev,
                    acc.name,
                    acc.freq,
                    acc.mag,
                    acc.tamb,
                    acc.tsky,
                    acc.wdbm,
                    acc.ain,
                    acc.zp) {
                        (
                            Some(udp),
                            Some(rev),
                            Some(name),
                            Some(freq),
                            Some(mag),
                            Some(tamb),
                            Some(tsky),
                            Some(wdbm),
                            Some(ain),
                            Some(zp),
                        ) => Some(FrameModel { udp, rev, name, freq, mag, tamb, tsky, wdbm, ain, zp }),
                        _ => None,
                    }
                } else {
                    None
                }
            },
            None => None,
        }
    } else {
        None
    }
}

/// `digits_end` stands at or after its start, within the text, and
/// everything before it in the run is a digit.
pub proof fn lemma_digits_end_digits(s: Seq<char>, j: int)
    requires
        0 <= j <= s.len(),
    ensures
        j <= digits_end(s, j) <= s.len(),
        forall|k: int| j <= k < digits_end(s, j) ==> is_digit_char(#[trigger] s[k]),
    decreases s.len() - j,
{
    if j < s.len() && is_digit_char(s[j]) {
        lemma_digits_end_digits(s, j + 1);
    }
}

/// A digit run's value is nonnegative and below ten to its length.
pub proof fn lemma_char_digits_bound(s: Seq<char>, a: int, b: int)
    requires
        a <= b,
        forall|k: int| a <= k < b ==> is_digit_char(#[trigger] s[k]),
        0 <= a,
        b <= s.len(),
    ensures
        0 <= char_digits_value(s, a, b) < pow10((b - a) as nat),
    decreases b - a,
{
    if a < b {
        lemma_char_digits_bound(s, a, b - 1);
        assert(pow10((b - a) as nat) == 10 * pow10((b - 1 - a) as nat));
    }
}

/// Skips JSON whitespace, mirroring `skip_ws`.
fn skip_ws_exec(s: &str, i0: usize, n: usize) -> (r: usize)
    requires
        n == s@.len(),
        i0 <= n,
    ensures
        r == skip_ws(s@, i0 as int),
        i0 <= r <= n,
{
    let mut i: usize = i0;
    while i < n && is_ws_exec(s.get_char(i))
        invariant
            n == s@.len(),
            i0 <= i <= n,
            skip_ws(s@, i0 as int) == skip_ws(s@, i as int),
        decreases n - i,
    {
        i = i + 1;
    }
    i
}

/// Whether `c` is JSON whitespace.
fn is_ws_exec(c: char) -> (r: bool)
    ensures
        r == is_ws(c),
{
    c == ' ' || c == '\t' || c == '\n' || c == '\r'
}

/// Finds the closing quote, mirroring `str_end`.
fn str_end_exec(s: &str, j0: usize, n: usize) -> (r: Option<usize>)
    requires
        n == s@.len(),
        j0 <= n,
    ensures
        match r {
            Some(e) => str_end(s@, j0 as int) == Some(e as int) && j0 <= e < n,
            None => str_end(s@, j0 as int) is None,
        },
{
    let mut j: usize = j0;
    while j < n
        invariant
            n == s@.len(),
            j0 <= j <= n,
            str_end(s@, j0 as int) == str_end(s@, j as int),
        decreases n - j,
    {
        let c = s.get_char(j);
        if c == '\\' {
            return None;
        }
        if c == '"' {
            return Some(j);
        }
        j = j + 1;
    }
    None
}

/// A number token with machine indices.
struct NumE {
    neg: bool,
    ip_start: usize,
    ip_end: usize,
    fp_start: usize,
    fp_end: usize,
    end: usize,
}

impl NumE {
    spec fn view_tok(&self) -> NumTok {
        NumTok {
            neg: self.neg,
            ip_start: self.ip_start as int,
            ip_end: self.ip_end as int,
            fp_start: self.fp_start as int,
            fp_end: self.fp_end as int,
            end: self.end as int,
        }
    }

    spec fn wf(&self, n: int) -> bool {
        &&& self.ip_start <= self.ip_end <= self.fp_start <= self.fp_end <= n
        &&& self.end <= n
    }
}

/// Reads the number token at `i`, mirroring `num_tok`.
fn num_tok_exec(s: &str, i: usize, n: usize) -> (r: Option<NumE>)
    requires
        n == s@.len(),
        i <= n,
    ensures
        match r {
            Some(t) => num_tok(s@, i as int) == Some(t.view_tok()) && t.wf(n as int) && i < t.end,
            None => num_tok(s@, i as int) is None,
        },
{
    if i >= n {
        return None;
    }
    let neg = s.get_char(i) == '-';
    let st = if neg {
        i + 1
    } else {
        i
    };
    let ipe = crate::page::digits_end_exec(s, st, n);
    if ipe == st {
        return None;
    }
    if ipe < n && s.get_char(ipe) == '.' {
        let fpe = crate::page::digits_end_exec(s, ipe + 1, n);
        if fpe == ipe + 1 {
            return None;
        }
        Some(NumE { neg, ip_start: st, ip_end: ipe, fp_start: ipe + 1, fp_end: fpe, end: fpe })
    } else {
        Some(NumE { neg, ip_start: st, ip_end: ipe, fp_start: ipe, fp_end: ipe, end: ipe })
    }
}

/// The value of the digit run `s[a .. b)`, mirroring `char_digits_value`.
fn char_digits_at(s: &str, a: usize, b: usize, n: usize) -> (r: i64)
    requires
        n == s@.len(),
        a <= b <= n,
        b - a <= 10,
        forall|k: int| a <= k < b ==> is_digit_char(#[trigger] s@[k]),
    ensures
        r == char_digits_value(s@, a as int, b as int),
        0 <= r < pow10((b - a) as nat),
{
    proof {
        lemma_char_digits_bound(s@, a as int, b as int);
        assert(pow10(10) == 10_000_000_000) by {
            reveal_with_fuel(pow10, 11);
        }
    }
    let mut r: i64 = 0;
    let mut j: usize = a;
    while j < b
        invariant
            a <= j <= b <= n == s@.len(),
            b - a <= 10,
            forall|k: int| a <= k < b ==> is_digit_char(#[trigger] s@[k]),
            r == char_digits_value(s@, a as int, j as int),
            0 <= r < pow10((j - a) as nat),
            pow10(10) == 10_000_000_000,
        decreases b - j,
    {
        let c = s.get_char(j);
        proof {
            assert(is_digit_char(c));
            assert(pow10((j - a) as nat + 1) == 10 * pow10((j - a) as nat));
            crate::text::lemma_pow10_le((j - a + 1) as nat, 10);
        }
        r = r * 10 + (c as i64 - 48);
        j = j + 1;
    }
    r
}

/// The token's scaled value, mirroring `num_scaled`.
fn num_scaled_exec(s: &str, t: &NumE, scale: usize, n: usize) -> (r: Option<i64>)
    requires
        n == s@.len(),
        t.wf(n as int),
        scale <= 3,
        forall|k: int| t.ip_start <= k < t.ip_end ==> is_digit_char(#[trigger] s@[k]),
        forall|k: int| t.fp_start <= k < t.fp_end ==> is_digit_char(#[trigger] s@[k]),
    ensures
        match r {
            Some(v) => num_scaled(s@, t.view_tok(), scale as nat) == Some(v as int) && -pow10(13)
                <= v <= pow10(13),
            None => num_scaled(s@, t.view_tok(), scale as nat) is None,
        },
{
    proof {
        assert(pow10(0) == 1 && pow10(1) == 10 && pow10(2) == 100 && pow10(3) == 1000 && pow10(10)
            == 10_000_000_000 && pow10(13) == 10_000_000_000_000) by {
            reveal_with_fuel(pow10, 14);
        }
    }
    if t.ip_end - t.ip_start > 10 {
        return None;
    }
    let ipv = char_digits_at(s, t.ip_start, t.ip_end, n);
    proof {
        crate::text::lemma_pow10_le((t.ip_end - t.ip_start) as nat, 10);
    }
    let used_end: usize = if t.fp_end - t.fp_start <= scale {
        t.fp_end
    } else {
        t.fp_start + scale
    };
    let fv = char_digits_at(s, t.fp_start, used_end, n);
    let scale_pow = crate::text::pow10_exec(scale);
    let rest_pow = crate::text::pow10_exec(scale - (used_end - t.fp_start));
    proof {
        crate::text::lemma_pow10_mul(
            (used_end - t.fp_start) as nat,
            (scale - (used_end - t.fp_start)) as nat,
        );
        assert(0 <= fv * rest_pow && fv * rest_pow < 1000) by (nonlinear_arith)
            requires
                0 <= fv < pow10((used_end - t.fp_start) as nat),
                0 < rest_pow == pow10((scale - (used_end - t.fp_start)) as nat),
                pow10((used_end - t.fp_start) as nat) * pow10(
                    (scale - (used_end - t.fp_start)) as nat,
                ) == pow10(scale as nat),
                pow10(scale as nat) <= 1000,
        ;
        assert(0 <= ipv * scale_pow <= pow10(13) - 1000) by (nonlinear_arith)
            requires
                0 <= ipv <= pow10(10) - 1,
                0 < scale_pow <= 1000,
                pow10(10) == 10_000_000_000,
                pow10(13) == 10_000_000_000_000,
        ;
        crate::text::lemma_pow10_le(scale as nat, 3);
    }
    let v = ipv * scale_pow + fv * rest_pow;
    if t.neg {
        Some(-v)
    } else {
        Some(v)
    }
}

/// The token's integer value, mirroring `num_int`.
fn num_int_exec(s: &str, t: &NumE, n: usize) -> (r: Option<i64>)
    requires
        n == s@.len(),
        t.wf(n as int),
        forall|k: int| t.ip_start <= k < t.ip_end ==> is_digit_char(#[trigger] s@[k]),
    ensures
        match r {
            Some(v) => num_int(s@, t.view_tok()) == Some(v as int) && -pow10(10) <= v <= pow10(10),
            None => num_int(s@, t.view_tok()) is None,
        },
{
    proof {
        assert(pow10(10) == 10_000_000_000) by {
            reveal_with_fuel(pow10, 11);
        }
    }
    if t.fp_end != t.fp_start || t.ip_end - t.ip_start > 10 {
        return None;
    }
    let v = char_digits_at(s, t.ip_start, t.ip_end, n);
    proof {
        crate::text::lemma_pow10_le((t.ip_end - t.ip_start) as nat, 10);
    }
    if t.neg {
        Some(-v)
    } else {
        Some(v)
    }
}

/// A member's value with machine indices.
enum ValE {
    Num(NumE),
    Str { a: usize, b: usize, end: usize },
}

impl ValE {
    spec fn view_tok(&self) -> ValTok {
        match self {
            ValE::Num(t) => ValTok::Num(t.view_tok()),
            ValE::Str { a, b, end } => ValTok::Str { a: *a as int, b: *b as int, end: *end as int },
        }
    }

    spec fn wf(&self, n: int) -> bool {
        match self {
            ValE::Num(t) => t.wf(n),
            ValE::Str { a, b, end } => *a <= *b && *b < *end && *end <= n,
        }
    }
}

/// Reads the value token at `i`, mirroring `val_tok`.
fn val_tok_exec(s: &str, i: usize, n: usize) -> (r: Option<ValE>)
    requires
        n == s@.len(),
        i <= n,
    ensures
        match r {
            Some(v) => val_tok(s@, i as int) == Some(v.view_tok()) && v.wf(n as int) && i
                < v.view_tok().end() <= n,
            None => val_tok(s@, i as int) is None,
        },
{
    if i < n && s.get_char(i) == '"' {
        match str_end_exec(s, i + 1, n) {
            Some(e) => Some(ValE::Str { a: i + 1, b: e, end: e + 1 }),
            None => None,
        }
    } else {
        match num_tok_exec(s, i, n) {
            Some(t) => Some(ValE::Num(t)),
            None => None,
        }
    }
}

/// A member with machine indices.
struct PairE {
    ka: usize,
    kb: usize,
    val: ValE,
    end: usize,
}

impl PairE {
    spec fn view_tok(&self) -> PairTok {
        PairTok { ka: self.ka as int, kb: self.kb as int, val: self.val.view_tok(), end: self.end as int }
    }
}

/// Reads the member at `i`, mirroring `pair_tok`.
fn pair_tok_exec(s: &str, i: usize, n: usize) -> (r: Option<PairE>)
    requires
        n == s@.len(),
        i <= n,
    ensures
        match r {
            Some(p) => pair_tok(s@, i as int) == Some(p.view_tok()) && p.ka <= p.kb <= n && i
                < p.end <= n && p.val.wf(n as int),
            None => pair_tok(s@, i as int) is None,
        },
{
    let i1 = skip_ws_exec(s, i, n);
    if !(i1 < n && s.get_char(i1) == '"') {
        return None;
    }
    let ke = match str_end_exec(s, i1 + 1, n) {
        Some(ke) => ke,
        None => {
            return None;
        },
    };
    let i2 = skip_ws_exec(s, ke + 1, n);
    if !(i2 < n && s.get_char(i2) == ':') {
        return None;
    }
    let i3 = skip_ws_exec(s, i2 + 1, n);
    match val_tok_exec(s, i3, n) {
        Some(v) => {
            let end = match &v {
                ValE::Num(t) => t.end,
                ValE::Str { end, .. } => *end,
            };
            Some(PairE { ka: i1 + 1, kb: ke, val: v, end })
        },
        None => None,
    }
}

/// Whether the key `s[a .. b)` is exactly the given text.
fn key_is(s: &str, a: usize, b: usize, n: usize, lit: &str) -> (r: bool)
    requires
        n == s@.len(),
        a <= b <= n,
    ensures
        r == (s@.subrange(a as int, b as int) == lit@),
{
    let m = lit.unicode_len();
    if b - a != m {
        proof {
            assert(s@.subrange(a as int, b as int).len() != lit@.len());
        }
        return false;
    }
    let mut k: usize = 0;
    while k < m
        invariant
            n == s@.len(),
            a <= b <= n,
            b - a == m == lit@.len(),
            k <= m,
            forall|j: int| 0 <= j < k ==> s@[a + j] == #[trigger] lit@[j],
        decreases m - k,
    {
        if s.get_char(a + k) != lit.get_char(k) {
            proof {
                assert(s@.subrange(a as int, b as int)[k as int] == s@[a + k]);
            }
            return false;
        }
        k = k + 1;
    }
    proof {
        assert(s@.subrange(a as int, b as int) =~= lit@);
    }
    true
}

/// The fields gathered so far, with machine values.
struct PartE {
    udp: Option<u32>,
    rev: Option<i8>,
    name: Option<(usize, usize)>,
    freq: Option<i64>,
    mag: Option<i64>,
    tamb: Option<i64>,
    tsky: Option<i64>,
    wdbm: Option<i16>,
    ain: Option<i16>,
    zp: Option<i64>,
}

spec fn opt_int<T: Integer>(o: Option<T>) -> Option<int> {
    match o {
        Some(v) => Some(v as int),
        None => None,
    }
}

impl PartE {
    spec fn view_partial(&self) -> Partial {
        Partial {
            udp: opt_int(self.udp),
            rev: opt_int(self.rev),
            name: match self.name {
                Some((a, b)) => Some((a as int, b as int)),
                None => None,
            },
            freq: opt_int(self.freq),
            mag: opt_int(self.mag),
            tamb: opt_int(self.tamb),
            tsky: opt_int(self.tsky),
            wdbm: opt_int(self.wdbm),
            ain: opt_int(self.ain),
            zp: opt_int(self.zp),
        }
    }
}

/// Folds one member into the gathered fields, mirroring `apply_pair`.
fn apply_pair_exec(s: &str, acc: PartE, p: &PairE, n: usize) -> (r: Option<PartE>)
    requires
        n == s@.len(),
        p.ka <= p.kb <= n,
        p.val.wf(n as int),
        exists|i: int| 0 <= i < n && #[trigger] pair_tok(s@, i) == Some(p.view_tok()),
        match acc.name {
            Some((a, b)) => a <= b <= n,
            None => true,
        },
        match acc.freq {
            Some(f) => 0 <= f <= FREQ_BOUND_MILLIHZ,
            None => true,
        },
    ensures
        match r {
            Some(acc2) => apply_pair(s@, acc.view_partial(), p.view_tok()) == Some(
                acc2.view_partial(),
            ) && (match acc2.name {
                Some((a, b)) => a <= b <= n,
                None => true,
            }) && (match acc2.freq {
                Some(f) => 0 <= f <= FREQ_BOUND_MILLIHZ,
                None => true,
            }),
            None => apply_pair(s@, acc.view_partial(), p.view_tok()) is None,
        },
{
    proof {
        let i = choose|i: int| 0 <= i < n && #[trigger] pair_tok(s@, i) == Some(p.view_tok());
        lemma_pair_val_digits(s@, p.view_tok(), i);
    }
    if key_is(s, p.ka, p.kb, n, "udp") {
        if acc.udp.is_some() {
            return None;
        }
        match num_of_exec(s, &p.val, n) {
            Some(v) => {
                if 0 <= v && v <= u32::MAX as i64 {
                    Some(PartE { udp: Some(v as u32), ..acc })
                } else {
                    None
                }
            },
            None => None,
        }
    } else if key_is(s, p.ka, p.kb, n, "rev") {
        if acc.rev.is_some() {
            return None;
        }
        match num_of_exec(s, &p.val, n) {
            Some(v) => {
                if i8::MIN as i64 <= v && v <= i8::MAX as i64 {
                    Some(PartE { rev: Some(v as i8), ..acc })
                } else {
                    None
                }
            },
            None => None,
        }
    } else if key_is(s, p.ka, p.kb, n, "name") {
        if acc.name.is_some() {
            return None;
        }
        match &p.val {
            ValE::Str { a, b, .. } => Some(PartE { name: Some((*a, *b)), ..acc }),
            ValE::Num(_) => None,
        }
    } else if key_is(s, p.ka, p.kb, n, "freq") {
        if acc.freq.is_some() {
            return None;
        }
        match scaled_of_exec(s, &p.val, 3, n) {
            Some(v) => {
                if 0 <= v && v <= FREQ_BOUND_MILLIHZ {
                    Some(PartE { freq: Some(v), ..acc })
                } else {
                    None
                }
            },
            None => None,
        }
    } else if key_is(s, p.ka, p.kb, n, "mag") {
        if acc.mag.is_some() {
            return None;
        }
        match scaled_of_exec(s, &p.val, 3, n) {
            Some(v) => Some(PartE { mag: Some(v), ..acc }),
            None => None,
        }
    } else if key_is(s, p.ka, p.kb, n, "tamb") {
        if acc.tamb.is_some() {
            return None;
        }
        match scaled_of_exec(s, &p.val, 2, n) {
            Some(v) => Some(PartE { tamb: Some(v), ..acc }),
            None => None,
        }
    } else if key_is(s, p.ka, p.kb, n, "tsky") {
        if acc.tsky.is_some() {
            return None;
        }
        match scaled_of_exec(s, &p.val, 2, n) {
            Some(v) => Some(PartE { tsky: Some(v), ..acc }),
            None => None,
        }
    } else if key_is(s, p.ka, p.kb, n, "wdBm") {
        if acc.wdbm.is_some() {
            return None;
        }
        match num_of_exec(s, &p.val, n) {
            Some(v) => {
                if i16::MIN as i64 <= v && v <= i16::MAX as i64 {
                    Some(PartE { wdbm: Some(v as i16), ..acc })
                } else {
                    None
                }
            },
            None => None,
        }
    } else if key_is(s, p.ka, p.kb, n, "ain") {
        if acc.ain.is_some() {
            return None;
        }
        match num_of_exec(s, &p.val, n) {
            Some(v) => {
                if i16::MIN as i64 <= v && v <= i16::MAX as i64 {
                    Some(PartE { ain: Some(v as i16), ..acc })
                } else {
                    None
                }
            },
            None => None,
        }
    } else if key_is(s, p.ka, p.kb, n, "ZP") {
        if acc.zp.is_some() {
            return None;
        }
        match scaled_of_exec(s, &p.val, 2, n) {
            Some(v) => Some(PartE { zp: Some(v), ..acc }),
            None => None,
        }
    } else {
        Some(acc)
    }
}

/// A parsed pair's numeric value carries digit runs.
proof fn lemma_pair_val_digits(s: Seq<char>, p: PairTok, i: int)
    requires
        pair_tok(s, i) == Some(p),
    ensures
        match p.val {
            ValTok::Num(t) => (forall|k: int|
                t.ip_start <= k < t.ip_end ==> is_digit_char(#[trigger] s[k])) && (forall|k: int|
                t.fp_start <= k < t.fp_end ==> is_digit_char(#[trigger] s[k])),
            ValTok::Str { .. } => true,
        },
{
    let i1 = skip_ws(s, i);
    let ke = str_end(s, i1 + 1).unwrap();
    let i2 = skip_ws(s, ke + 1);
    let i3 = skip_ws(s, i2 + 1);
    match p.val {
        ValTok::Num(t) => {
            assert(val_tok(s, i3) == Some(p.val));
            assert(num_tok(s, i3) == Some(t));
            lemma_skip_ws_bounds(s, i2 + 1);
            lemma_digit_runs_of_tok(s, t, i3);
        },
        ValTok::Str { .. } => {},
    }
}

/// `skip_ws` stays within the text.
proof fn lemma_skip_ws_bounds(s: Seq<char>, i: int)
    requires
        0 <= i,
    ensures
        skip_ws(s, i) >= i,
        i <= s.len() ==> skip_ws(s, i) <= s.len(),
    decreases s.len() - i,
{
    if 0 <= i < s.len() && is_ws(s[i]) {
        lemma_skip_ws_bounds(s, i + 1);
    }
}

/// The integer value of a numeric member, mirroring `num_of`.
fn num_of_exec(s: &str, v: &ValE, n: usize) -> (r: Option<i64>)
    requires
        n == s@.len(),
        v.wf(n as int),
        match v.view_tok() {
            ValTok::Num(t) => (forall|k: int|
                t.ip_start <= k < t.ip_end ==> is_digit_char(#[trigger] s@[k])),
            ValTok::Str { .. } => true,
        },
    ensures
        match r {
            Some(x) => num_of(s@, v.view_tok()) == Some(x as int) && -pow10(10) <= x <= pow10(10),
            None => num_of(s@, v.view_tok()) is None,
        },
{
    match v {
        ValE::Num(t) => num_int_exec(s, t, n),
        ValE::Str { .. } => None,
    }
}

/// The scaled value of a numeric member, mirroring `scaled_of`.
fn scaled_of_exec(s: &str, v: &ValE, scale: usize, n: usize) -> (r: Option<i64>)
    requires
        n == s@.len(),
        v.wf(n as int),
        scale <= 3,
        match v.view_tok() {
            ValTok::Num(t) => (forall|k: int|
                t.ip_start <= k < t.ip_end ==> is_digit_char(#[trigger] s@[k])) && (forall|k: int|
                t.fp_start <= k < t.fp_end ==> is_digit_char(#[trigger] s@[k])),
            ValTok::Str { .. } => true,
        },
    ensures
        match r {
            Some(x) => scaled_of(s@, v.view_tok(), scale as nat) == Some(x as int) && -pow10(13)
                <= x <= pow10(13),
            None => scaled_of(s@, v.view_tok(), scale as nat) is None,
        },
{
    match v {
        ValE::Num(t) => num_scaled_exec(s, t, scale, n),
        ValE::Str { .. } => None,
    }
}

/// Parses one structured frame: the object must hold each of the ten
/// fields exactly once, with values of the right shape and range; the
/// name is handed back as its bounds in the text.
pub fn parse_frame(line: &str) -> (r: Option<(FrameModelE, Ghost<FrameModel>)>)
    ensures
        match r {
            Some((m, g)) => frame_spec(line@) == Some(g@) && m.matches(g@) && m.name.0 <= m.name.1
                <= line@.len() && 0 <= m.freq <= FREQ_BOUND_MILLIHZ,
            None => frame_spec(line@) is None,
        },
{
    let n = line.unicode_len();
    let i0 = skip_ws_exec(line, 0, n);
    if !(i0 < n && line.get_char(i0) == '{') {
        return None;
    }
    let mut cur: usize = i0 + 1;
    let mut part = PartE {
        udp: None,
        rev: None,
        name: None,
        freq: None,
        mag: None,
        tamb: None,
        tsky: None,
        wdbm: None,
        ain: None,
        zp: None,
    };
    proof {
        assert(part.view_partial() =~= empty_partial());
    }
    loop
        invariant
            n == line@.len(),
            cur <= n,
            i0 < n == line@.len(),
            i0 == skip_ws(line@, 0),
            line@[i0 as int] == '{',
            members(line@, i0 as int + 1, empty_partial()) == members(
                line@,
                cur as int,
                part.view_partial(),
            ),
            match part.name {
                Some((a, b)) => a <= b <= n,
                None => true,
            },
            match part.freq {
                Some(f) => 0 <= f <= FREQ_BOUND_MILLIHZ,
                None => true,
            },
        decreases n - cur,
    {
        let p = match pair_tok_exec(line, cur, n) {
            Some(p) => p,
            None => {
                return None;
            },
        };
        proof {
            assert(0 <= cur < n && pair_tok(line@, cur as int) == Some(p.view_tok()));
        }
        let ghost part0 = part.view_partial();
        part = match apply_pair_exec(line, part, &p, n) {
            Some(acc2) => acc2,
            None => {
                return None;
            },
        };
        let j = skip_ws_exec(line, p.end, n);
        if j < n && line.get_char(j) == ',' {
            // The grammar only continues at a strictly later position.
            if j + 1 <= cur {
                return None;
            }
            cur = j + 1;
        } else if j < n && line.get_char(j) == '}' {
            let end = j + 1;
            proof {
                assert(members(line@, cur as int, part0) == Some(
                    (part.view_partial(), end as int),
                ));
            }
            if skip_ws_exec(line, end, n) != n {
                return None;
            }
            match (part.udp, part.rev, part.name, part.freq, part.mag, part.tamb, part.tsky,
            part.wdbm, part.ain, part.zp) {
                (
                    Some(udp),
                    Some(rev),
                    Some(name),
                    Some(freq),
                    Some(mag),
                    Some(tamb),
                    Some(tsky),
                    Some(wdbm),
                    Some(ain),
                    Some(zp),
                ) => {
                    proof {
                        assert(frame_spec(line@) is Some);
                    }
                    let m = FrameModelE { udp, rev, name, freq, mag, tamb, tsky, wdbm, ain, zp };
                    let ghost g = frame_spec(line@).unwrap();
                    return Some((m, Ghost(g)));
                },
                _ => {
                    return None;
                },
            }
        } else {
            return None;
        }
    }
}

/// A parsed structured reading with machine values; the name is kept as
/// its bounds in the input text.
pub struct FrameModelE {
    pub udp: u32,
    pub rev: i8,
    pub name: (usize, usize),
    pub freq: i64,
    pub mag: i64,
    pub tamb: i64,
    pub tsky: i64,
    pub wdbm: i16,
    pub ain: i16,
    pub zp: i64,
}

impl FrameModelE {
    /// The machine reading carries exactly the parsed fields.
    pub open spec fn matches(&self, g: FrameModel) -> bool {
        &&& self.udp == g.udp
        &&& self.rev == g.rev
        &&& (self.name.0 as int, self.name.1 as int) == g.name
        &&& self.freq == g.freq
        &&& self.mag == g.mag
        &&& self.tamb == g.tamb
        &&& self.tsky == g.tsky
        &&& self.wdbm == g.wdbm
        &&& self.ain == g.ain
        &&& self.zp == g.zp
    }
}

/// The digit runs named by a parsed token hold digits.
proof fn lemma_digit_runs_of_tok(s: Seq<char>, t: NumTok, i: int)
    requires
        0 <= i < s.len(),
        num_tok(s, i) == Some(t),
    ensures
        forall|k: int| t.ip_start <= k < t.ip_end ==> is_digit_char(#[trigger] s[k]),
        forall|k: int| t.fp_start <= k < t.fp_end ==> is_digit_char(#[trigger] s[k]),
{
    let st = if s[i] == '-' {
        i + 1
    } else {
        i
    };
    lemma_digits_end_digits(s, st);
    let ipe = digits_end(s, st);
    if ipe < s.len() && s[ipe] == '.' {
        lemma_digits_end_digits(s, ipe + 1);
    }
}

} // verus!
