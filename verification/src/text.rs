//! Byte-level helpers for the fixed wire and page grammars: digits, decimal
//! values, digit rendering and literal matching.

use vstd::prelude::*;
use vstd::string::StringSliceAdditionalSpecFns;

verus! {

/// `b` is an ASCII decimal digit.
pub open spec fn is_digit(b: u8) -> bool {
    48 <= b <= 57
}

/// The numeric value of a digit byte.
pub open spec fn digit_val(b: u8) -> int {
    b - 48
}

/// Every byte of `s` is a decimal digit.
pub open spec fn all_digits(s: Seq<u8>) -> bool {
    forall|i: int| 0 <= i < s.len() ==> is_digit(#[trigger] s[i])
}

/// The value of a run of decimal digits, most significant first.
pub open spec fn digits_value(s: Seq<u8>) -> int
    decreases s.len(),
{
    if s.len() == 0 {
        0
    } else {
        digits_value(s.drop_last()) * 10 + digit_val(s.last())
    }
}

/// Ten to the `n`.
pub open spec fn pow10(n: nat) -> int
    decreases n,
{
    if n == 0 {
        1
    } else {
        10 * pow10((n - 1) as nat)
    }
}

pub proof fn lemma_pow10_pos(n: nat)
    ensures
        pow10(n) >= 1,
    decreases n,
{
    if n > 0 {
        lemma_pow10_pos((n - 1) as nat);
    }
}

/// `pow10` is monotone.
pub proof fn lemma_pow10_le(a: nat, b: nat)
    requires
        a <= b,
    ensures
        pow10(a) <= pow10(b),
        pow10(a) >= 1,
    decreases b,
{
    if a == b {
        lemma_pow10_pos(a);
    } else {
        lemma_pow10_le(a, (b - 1) as nat);
    }
}

/// A digit run of length `n` has a value below ten to the `n`.
pub proof fn lemma_digits_value_bound(s: Seq<u8>)
    requires
        all_digits(s),
    ensures
        0 <= digits_value(s) < pow10(s.len()),
    decreases s.len(),
{
    if s.len() > 0 {
        assert(all_digits(s.drop_last()));
        lemma_digits_value_bound(s.drop_last());
    }
}

/// Reads the `k` decimal digits of `s` that start at `from`.
pub fn digits_at(s: &[u8], from: usize, k: usize) -> (r: i64)
    requires
        from + k <= s@.len(),
        k <= 10,
        all_digits(s@.subrange(from as int, from as int + k as int)),
    ensures
        r == digits_value(s@.subrange(from as int, from as int + k as int)),
        0 <= r < pow10(k as nat),
{
    let ghost whole = s@.subrange(from as int, from as int + k as int);
    proof {
        lemma_digits_value_bound(whole);
        assert(pow10(10) == 10_000_000_000) by {
            reveal_with_fuel(pow10, 11);
        }
        assert(whole.take(0int) =~= Seq::<u8>::empty());
    }
    let slen = s.len();
    let mut r: i64 = 0;
    let mut j: usize = 0;
    while j < k
        invariant
            j <= k,
            from + k <= slen == s@.len(),
            k <= 10,
            all_digits(whole),
            whole == s@.subrange(from as int, from as int + k as int),
            whole.len() == k,
            r == digits_value(whole.take(j as int)),
            0 <= r < pow10(j as nat),
            pow10(10) == 10_000_000_000,
        decreases k - j,
    {
        let b = s[from + j];
        proof {
            assert(whole[j as int] == s@[from + j]);
            assert(is_digit(b));
            assert(whole.take(j as int + 1).drop_last() =~= whole.take(j as int));
            assert(whole.take(j as int + 1).last() == whole[j as int]);
            assert(pow10(j as nat + 1) == 10 * pow10(j as nat));
            lemma_pow10_le(j as nat + 1, 10);
        }
        r = r * 10 + (b as i64 - 48);
        j = j + 1;
    }
    proof {
        assert(whole.take(k as int) =~= whole);
    }
    r
}

/// Whether the `k` bytes of `s` starting at `from` are all decimal digits.
pub fn check_digits(s: &[u8], from: usize, k: usize) -> (r: bool)
    requires
        from + k <= s@.len(),
    ensures
        r == all_digits(s@.subrange(from as int, from as int + k as int)),
{
    let ghost whole = s@.subrange(from as int, from as int + k as int);
    let slen = s.len();
    let mut j: usize = 0;
    while j < k
        invariant
            j <= k,
            from + k <= slen == s@.len(),
            whole == s@.subrange(from as int, from as int + k as int),
            whole.len() == k,
            forall|i: int| 0 <= i < j ==> is_digit(#[trigger] whole[i]),
        decreases k - j,
    {
        let b = s[from + j];
        proof {
            assert(whole[j as int] == s@[from + j]);
        }
        if b < 48 || b > 57 {
            return false;
        }
        j = j + 1;
    }
    true
}

/// The `k`-digit decimal rendering of `v`, most significant digit first.
pub open spec fn digit_seq(v: int, k: nat) -> Seq<u8>
    decreases k,
{
    if k == 0 {
        Seq::<u8>::empty()
    } else {
        digit_seq(v / 10, (k - 1) as nat).push(((v % 10) + 48) as u8)
    }
}

/// A digit rendering has exactly the asked-for length.
pub proof fn lemma_digit_seq_len(v: int, k: nat)
    ensures
        digit_seq(v, k).len() == k,
    decreases k,
{
    if k > 0 {
        lemma_digit_seq_len(v / 10, (k - 1) as nat);
    }
}

/// Rendering a value in range and reading it back gives the value again.
pub proof fn lemma_digit_seq_value(v: int, k: nat)
    requires
        0 <= v < pow10(k),
    ensures
        digit_seq(v, k).len() == k,
        all_digits(digit_seq(v, k)),
        digits_value(digit_seq(v, k)) == v,
    decreases k,
{
    if k > 0 {
        lemma_pow10_pos((k - 1) as nat);
        lemma_digit_seq_value(v / 10, (k - 1) as nat);
        let s = digit_seq(v, k);
        let d = v % 10;
        assert(s.drop_last() =~= digit_seq(v / 10, (k - 1) as nat));
        assert(s.last() == ((d + 48) as u8));
        assert(is_digit(s.last()));
        assert(digit_val(s.last()) == d);
        assert(all_digits(s)) by {
            assert(forall|i: int| 0 <= i < s.len() - 1 ==> s[i] == #[trigger] s.drop_last()[i]);
        }
        assert(digits_value(s) == (v / 10) * 10 + d);
    }
}

/// Appends the `k`-digit decimal rendering of `v` to `out`.
pub fn push_digits(out: &mut Vec<u8>, v: i64, k: usize)
    requires
        0 <= v < pow10(k as nat),
        k <= 10,
        old(out)@.len() + k <= usize::MAX,
    ensures
        final(out)@ == old(out)@ + digit_seq(v as int, k as nat),
    decreases k,
{
    if k == 0 {
        proof {
            assert(out@ =~= old(out)@ + digit_seq(v as int, 0nat));
        }
        return ;
    }
    proof {
        lemma_pow10_pos((k - 1) as nat);
        assert(pow10(k as nat) == 10 * pow10((k - 1) as nat));
    }
    push_digits(out, v / 10, k - 1);
    out.push(48 + (v % 10) as u8);
    proof {
        assert(out@ =~= old(out)@ + digit_seq(v as int, k as nat));
    }
}

/// The position of the first line feed in `s`, if any: how a serial
/// byte stream is framed into lines.
pub fn find_newline(s: &[u8]) -> (r: Option<usize>)
    ensures
        match r {
            Some(i) => i < s@.len() && s@[i as int] == 10 && forall|j: int|
                0 <= j < i ==> s@[j] != 10,
            None => forall|j: int| 0 <= j < s@.len() ==> s@[j] != 10,
        },
{
    let n = s.len();
    let mut i: usize = 0;
    while i < n
        invariant
            i <= n == s@.len(),
            forall|j: int| 0 <= j < i ==> s@[j] != 10,
        decreases n - i,
    {
        if s[i] == 10 {
            return Some(i);
        }
        i = i + 1;
    }
    None
}

/// The position of the first dot at or after `i`, or the length when
/// there is none.
pub open spec fn dot_pos(s: Seq<u8>, i: int) -> int
    decreases s.len() - i,
{
    if i < 0 || i >= s.len() {
        s.len() as int
    } else if s[i] == 46 {
        i
    } else {
        dot_pos(s, i + 1)
    }
}

/// The value of a signed fixed-point decimal, scaled to `scale` fraction
/// digits: an optional minus sign, one to ten integer digits, and
/// optionally a dot with at least one fraction digit. Fraction digits
/// beyond the scale are read and discarded.
pub open spec fn decimal_spec(s: Seq<u8>, scale: nat) -> Option<int>
    recommends
        scale <= 3,
{
    let neg = s.len() > 0 && s[0] == 45;
    let b: int = if neg {
        1
    } else {
        0
    };
    let d = dot_pos(s, b);
    let ip = s.subrange(b, d);
    if 1 <= ip.len() <= 10 && all_digits(ip) {
        if d == s.len() {
            Some(apply_sign(neg, digits_value(ip) * pow10(scale)))
        } else {
            let fp = s.subrange(d + 1, s.len() as int);
            if fp.len() >= 1 && all_digits(fp) {
                let used = if fp.len() <= scale {
                    fp
                } else {
                    fp.take(scale as int)
                };
                Some(
                    apply_sign(
                        neg,
                        digits_value(ip) * pow10(scale) + digits_value(used) * pow10(
                            (scale - used.len()) as nat,
                        ),
                    ),
                )
            } else {
                None
            }
        }
    } else {
        None
    }
}

/// Negates when the sign was a minus.
pub open spec fn apply_sign(neg: bool, v: int) -> int {
    if neg {
        -v
    } else {
        v
    }
}

/// Parses a signed fixed-point decimal string, scaled to `scale` fraction
/// digits; `None` exactly when the text does not fit the grammar.
pub fn parse_decimal(s: &str, scale: usize) -> (r: Option<i64>)
    requires
        scale <= 3,
    ensures
        match r {
            Some(v) => decimal_spec(s.spec_bytes(), scale as nat) == Some(v as int) && -pow10(13)
                <= v <= pow10(13),
            None => decimal_spec(s.spec_bytes(), scale as nat) is None,
        },
{
    proof {
        assert(pow10(0) == 1 && pow10(1) == 10 && pow10(2) == 100 && pow10(3) == 1000 && pow10(10)
            == 10_000_000_000 && pow10(13) == 10_000_000_000_000) by {
            reveal_with_fuel(pow10, 14);
        }
    }
    let b = s.as_bytes();
    let ghost sv = s.spec_bytes();
    let n = b.len();
    let neg = n > 0 && b[0] == 45;
    let start: usize = if neg {
        1
    } else {
        0
    };
    // Find the dot.
    let mut d: usize = start;
    while d < n && b[d] != 46
        invariant
            start <= d <= n == sv.len(),
            sv == b@,
            dot_pos(sv, start as int) == dot_pos(sv, d as int),
        decreases n - d,
    {
        d = d + 1;
    }
    proof {
        assert(dot_pos(sv, start as int) == d);
    }
    let ip_len = d - start;
    if ip_len < 1 || ip_len > 10 || !check_digits(b, start, ip_len) {
        return None;
    }
    let ghost ip = sv.subrange(start as int, d as int);
    let ip_val = digits_at(b, start, ip_len);
    proof {
        lemma_digits_value_bound(ip);
        lemma_pow10_le(ip_len as nat, 10);
    }
    let scale_pow: i64 = pow10_exec(scale);
    if d == n {
        proof {
            assert(0 <= ip_val * scale_pow <= pow10(13)) by (nonlinear_arith)
                requires
                    0 <= ip_val < pow10(10),
                    0 < scale_pow <= pow10(3),
                    pow10(10) == 10_000_000_000,
                    pow10(3) == 1000,
                    pow10(13) == 10_000_000_000_000,
            ;
        }
        let v = ip_val * scale_pow;
        proof {
            assert(v == digits_value(ip) * pow10(scale as nat));
        }
        return Some(if neg {
            -v
        } else {
            v
        });
    }
    let fp_len = n - d - 1;
    if fp_len < 1 || !check_digits(b, d + 1, fp_len) {
        return None;
    }
    let ghost fp = sv.subrange(d as int + 1, sv.len() as int);
    let used_len: usize = if fp_len <= scale {
        fp_len
    } else {
        scale
    };
    let used_val = digits_at(b, d + 1, used_len);
    let ghost used = if fp.len() <= scale {
        fp
    } else {
        fp.take(scale as int)
    };
    proof {
        assert(sv.subrange(d as int + 1, d as int + 1 + used_len as int) =~= used);
        lemma_digits_value_bound(used);
        lemma_pow10_le((scale - used_len) as nat, 3);
        lemma_pow10_le(used_len as nat, 3);
    }
    let rest_pow: i64 = pow10_exec(scale - used_len);
    proof {
        assert(pow10(used_len as nat) * pow10((scale - used_len) as nat) == pow10(scale as nat))
            by {
            lemma_pow10_mul(used_len as nat, (scale - used_len) as nat);
        }
        assert(0 <= used_val * rest_pow && used_val * rest_pow < pow10(3)) by (nonlinear_arith)
            requires
                0 <= used_val < pow10(used_len as nat),
                0 < rest_pow == pow10((scale - used_len) as nat),
                pow10(used_len as nat) * pow10((scale - used_len) as nat) <= pow10(3),
                pow10(3) == 1000,
        ;
        assert(0 <= ip_val * scale_pow <= pow10(13) - pow10(3)) by (nonlinear_arith)
            requires
                0 <= ip_val <= pow10(10) - 1,
                0 < scale_pow <= pow10(3),
                pow10(10) == 10_000_000_000,
                pow10(3) == 1000,
                pow10(13) == 10_000_000_000_000,
        ;
    }
    let v = ip_val * scale_pow + used_val * rest_pow;
    proof {
        assert(v == digits_value(ip) * pow10(scale as nat) + digits_value(used) * pow10(
            (scale - used.len()) as nat,
        ));
    }
    Some(
        if neg {
            -v
        } else {
            v
        },
    )
}

/// Ten to the `k`, executable.
pub fn pow10_exec(k: usize) -> (r: i64)
    requires
        k <= 3,
    ensures
        r == pow10(k as nat),
        1 <= r <= 1000,
{
    proof {
        assert(pow10(0) == 1 && pow10(1) == 10 && pow10(2) == 100 && pow10(3) == 1000) by {
            reveal_with_fuel(pow10, 4);
        }
    }
    if k == 0 {
        1
    } else if k == 1 {
        10
    } else if k == 2 {
        100
    } else {
        1000
    }
}

/// Powers of ten multiply by adding exponents.
pub proof fn lemma_pow10_mul(a: nat, b: nat)
    ensures
        pow10(a) * pow10(b) == pow10(a + b),
    decreases a,
{
    if a == 0 {
    } else {
        lemma_pow10_mul((a - 1) as nat, b);
        assert(pow10(a) * pow10(b) == 10 * pow10((a - 1) as nat) * pow10(b));
        assert(10 * pow10((a - 1) as nat) * pow10(b) == 10 * (pow10((a - 1) as nat) * pow10(b)))
            by (nonlinear_arith);
        assert(pow10(a + b) == 10 * pow10((a + b - 1) as nat));
    }
}

/// Extracts the leading order number of a schema file name such as
/// `04_views.sql`: the value of its first `n` bytes, which must be decimal
/// digits.
pub fn file_order(s: &str, n: usize) -> (r: i8)
    requires
        n <= s.spec_bytes().len(),
        n <= 10,
        all_digits(s.spec_bytes().take(n as int)),
        0 <= digits_value(s.spec_bytes().take(n as int)) <= i8::MAX,
    ensures
        r == digits_value(s.spec_bytes().take(n as int)),
{
    let b = s.as_bytes();
    let ghost prefix = s.spec_bytes().take(n as int);
    proof {
        assert(prefix =~= b@.subrange(0int, n as int));
    }
    let v = digits_at(b, 0, n);
    v as i8
}

} // verus!
