//! Exact decimal rendering and parsing of fixed-point scalars.
//!
//! Loudness values are carried as integers scaled to their display precision
//! (hundredths for decibel-like units, ten-millionths for linear amplitudes),
//! so printing and parsing are ordinary integer/string work and can be pinned
//! down exactly.

use vstd::prelude::*;

verus! {

/// The decimal digit character for `d` (`0 <= d <= 9`).
pub open spec fn spec_digit_char(d: int) -> char {
    if d == 0 {
        '0'
    } else if d == 1 {
        '1'
    } else if d == 2 {
        '2'
    } else if d == 3 {
        '3'
    } else if d == 4 {
        '4'
    } else if d == 5 {
        '5'
    } else if d == 6 {
        '6'
    } else if d == 7 {
        '7'
    } else if d == 8 {
        '8'
    } else {
        '9'
    }
}

/// The usual decimal rendering of `n`, most significant digit first,
/// with no leading zeros (a single `'0'` for zero).
pub open spec fn spec_udigits(n: nat) -> Seq<char>
    decreases n,
{
    if n < 10 {
        seq![spec_digit_char(n as int)]
    } else {
        spec_udigits(n / 10) + seq![spec_digit_char((n % 10) as int)]
    }
}

/// The last `width` decimal digits of `n`, left-padded with zeros:
/// the fixed-width rendering of a fraction part `n < 10^width`.
pub open spec fn spec_padded_digits(n: nat, width: nat) -> Seq<char>
    decreases width,
{
    if width == 0 {
        Seq::empty()
    } else {
        spec_padded_digits(n / 10, (width - 1) as nat) + seq![spec_digit_char((n % 10) as int)]
    }
}

/// A one-character string slice holding the digit for `d`.
fn digit_str(d: u64) -> (s: &'static str)
    requires
        d < 10,
    ensures
        s@ == seq![spec_digit_char(d as int)],
{
    proof {
        reveal_strlit("0");
        reveal_strlit("1");
        reveal_strlit("2");
        reveal_strlit("3");
        reveal_strlit("4");
        reveal_strlit("5");
        reveal_strlit("6");
        reveal_strlit("7");
        reveal_strlit("8");
        reveal_strlit("9");
    }
    match d {
        0 => "0",
        1 => "1",
        2 => "2",
        3 => "3",
        4 => "4",
        5 => "5",
        6 => "6",
        7 => "7",
        8 => "8",
        _ => "9",
    }
}

/// Renders `n` in decimal with no leading zeros.
pub fn format_u64(n: u64) -> (s: String)
    ensures
        s@ == spec_udigits(n as nat),
    decreases n,
{
    if n < 10 {
        String::from_str(digit_str(n))
    } else {
        proof {
            assert(n / 10 < n) by (nonlinear_arith)
                requires
                    n >= 10,
            ;
        }
        let mut s = format_u64(n / 10);
        s.append(digit_str(n % 10));
        s
    }
}

/// Renders the last `width` decimal digits of `n`, zero-padded.
pub fn format_padded(n: u64, width: u64) -> (s: String)
    ensures
        s@ == spec_padded_digits(n as nat, width as nat),
    decreases width,
{
    if width == 0 {
        let s = String::new();
        proof {
            assert(s@ == spec_padded_digits(n as nat, 0));
        }
        s
    } else {
        let mut s = format_padded(n / 10, width - 1);
        s.append(digit_str(n % 10));
        s
    }
}

/// The decimal rendering of a signed integer.
pub open spec fn spec_int_chars(v: int) -> Seq<char> {
    if v < 0 {
        seq!['-'] + spec_udigits((-v) as nat)
    } else {
        spec_udigits(v as nat)
    }
}

/// Renders a signed integer in decimal.
pub fn format_i64(v: i64) -> (s: String)
    requires
        v != i64::MIN,
    ensures
        s@ == spec_int_chars(v as int),
{
    if v < 0 {
        let mut s = String::from_str("-");
        proof {
            reveal_strlit("-");
            assert(s@ == seq!['-']);
        }
        let rest = format_u64((-v) as u64);
        s.append(rest.as_str());
        s
    } else {
        format_u64(v as u64)
    }
}

/// `10^w`.
pub open spec fn spec_pow10(w: nat) -> nat
    decreases w,
{
    if w == 0 {
        1
    } else {
        10 * spec_pow10((w - 1) as nat)
    }
}

/// `10^w` as a machine integer; `w <= 19` keeps it inside `u64`.
pub fn pow10(w: u64) -> (r: u64)
    requires
        w <= 19,
    ensures
        r == spec_pow10(w as nat),
    decreases w,
{
    proof {
        lemma_pow10_bound(w as nat);
    }
    if w == 0 {
        1
    } else {
        10 * pow10(w - 1)
    }
}

/// `spec_pow10` is monotone and positive.
pub proof fn lemma_pow10_mono(a: nat, b: nat)
    requires
        a <= b,
    ensures
        1 <= spec_pow10(a) <= spec_pow10(b),
    decreases b,
{
    if a < b {
        lemma_pow10_mono(a, (b - 1) as nat);
    } else {
        if a > 0 {
            lemma_pow10_mono((a - 1) as nat, (a - 1) as nat);
        }
    }
}

/// `10^w` stays below `u64::MAX` for every `w <= 19`.
pub proof fn lemma_pow10_bound(w: nat)
    requires
        w <= 19,
    ensures
        spec_pow10(w) <= 10_000_000_000_000_000_000,
        spec_pow10(w) >= 1,
{
    lemma_pow10_mono(w, 19);
    assert(spec_pow10(19) == 10_000_000_000_000_000_000) by {
        reveal_with_fuel(spec_pow10, 21);
    }
}

/// Powers of ten multiply by adding exponents.
pub proof fn lemma_pow10_add(a: nat, b: nat)
    ensures
        spec_pow10(a) * spec_pow10(b) == spec_pow10((a + b) as nat),
    decreases a,
{
    if a == 0 {
        assert(spec_pow10(0) == 1);
    } else {
        lemma_pow10_add((a - 1) as nat, b);
        assert(spec_pow10(a) * spec_pow10(b) == 10 * (spec_pow10((a - 1) as nat) * spec_pow10(b)))
            by (nonlinear_arith)
            requires
                spec_pow10(a) == 10 * spec_pow10((a - 1) as nat),
        ;
    }
}

/// The fixed-point value `v` (scaled by `10^width`) rendered with a sign,
/// an unpadded integer part, a dot, and exactly `width` fraction digits.
pub open spec fn spec_fixed_chars(v: int, width: nat) -> Seq<char> {
    if v < 0 {
        seq!['-'] + spec_fixed_chars_nonneg((-v) as nat, width)
    } else {
        spec_fixed_chars_nonneg(v as nat, width)
    }
}

/// The rendering of a nonnegative fixed-point magnitude `m`.
pub open spec fn spec_fixed_chars_nonneg(m: nat, width: nat) -> Seq<char> {
    spec_udigits(m / spec_pow10(width)) + seq!['.'] + spec_padded_digits(
        m % spec_pow10(width),
        width,
    )
}

/// Renders the fixed-point value `v`, scaled by `10^width`, with exactly
/// `width` digits after the decimal point.
pub fn format_fixed(v: i64, width: u64) -> (s: String)
    requires
        v != i64::MIN,
        width <= 19,
    ensures
        s@ == spec_fixed_chars(v as int, width as nat),
{
    if v < 0 {
        let mut s = String::from_str("-");
        proof {
            reveal_strlit("-");
            assert(s@ == seq!['-']);
        }
        let rest = format_fixed_nonneg((-v) as u64, width);
        s.append(rest.as_str());
        s
    } else {
        format_fixed_nonneg(v as u64, width)
    }
}

/// Renders the nonnegative fixed-point magnitude `m`.
fn format_fixed_nonneg(m: u64, width: u64) -> (s: String)
    requires
        width <= 19,
    ensures
        s@ == spec_fixed_chars_nonneg(m as nat, width as nat),
{
    let scale = pow10(width);
    proof {
        lemma_pow10_bound(width as nat);
    }
    let mut s = format_u64(m / scale);
    let dot = ".";
    proof {
        reveal_strlit(".");
        assert(dot@ == seq!['.']);
    }
    s.append(dot);
    let frac = format_padded(m % scale, width);
    s.append(frac.as_str());
    s
}

/// Whether `c` is a decimal digit.
pub open spec fn spec_is_digit(c: char) -> bool {
    48 <= c as int <= 57
}

/// The numeric value of a digit character.
pub open spec fn spec_digit_val(c: char) -> int {
    c as int - 48
}

/// Whether every character of `s` is a decimal digit.
pub open spec fn spec_all_digits(s: Seq<char>) -> bool {
    forall|i: int| 0 <= i < s.len() ==> spec_is_digit(s[i])
}

/// The value of a digit string, most significant digit first (zero when
/// empty).
pub open spec fn spec_digits_val(s: Seq<char>) -> int
    decreases s.len(),
{
    if s.len() == 0 {
        0
    } else {
        spec_digits_val(s.drop_last()) * 10 + spec_digit_val(s.last())
    }
}

/// Index of the first occurrence of `c` in `t`, or `t.len()` when there
/// is none.
pub open spec fn spec_first_index(t: Seq<char>, c: char) -> int
    decreases t.len(),
{
    if t.len() == 0 {
        0
    } else if t.first() == c {
        0
    } else {
        1 + spec_first_index(t.drop_first(), c)
    }
}

/// `t` with its leading zeros removed.
pub open spec fn spec_strip_zeros(t: Seq<char>) -> Seq<char>
    decreases t.len(),
{
    if t.len() > 0 && t.first() == '0' {
        spec_strip_zeros(t.drop_first())
    } else {
        t
    }
}

/// A fraction-digit string scaled to `width` decimal places and rounded
/// to nearest, ties away from zero: short fractions are padded with
/// zeros, longer ones are rounded on the first dropped digit.
pub open spec fn spec_frac_scaled(f: Seq<char>, width: nat) -> int {
    if f.len() <= width {
        spec_digits_val(f) * spec_pow10((width - f.len()) as nat)
    } else {
        spec_digits_val(f.take(width as int)) + if spec_digit_val(f[width as int]) >= 5 {
            1int
        } else {
            0int
        }
    }
}

/// The value an unsigned plain decimal run (digits, optional dot,
/// fraction digits, at least one digit in all) denotes in fixed point,
/// scaled by `10^width` and rounded to nearest with ties away from zero.
/// `None` when malformed, and for numbers whose integer part has more
/// than eleven significant digits (out of the fixed-point working range).
pub open spec fn spec_parse_unsigned_plain(t: Seq<char>, width: nat) -> Option<int> {
    let d = spec_first_index(t, '.');
    let ints = t.take(d);
    let frac = if d < t.len() {
        t.skip(d + 1)
    } else {
        Seq::empty()
    };
    if spec_all_digits(ints) && spec_all_digits(frac) && ints.len() + frac.len() > 0
        && spec_strip_zeros(ints).len() <= 11 {
        Some(spec_digits_val(ints) * spec_pow10(width) + spec_frac_scaled(frac, width))
    } else {
        None
    }
}

/// Index of the first exponent marker (`e` or `E`) in `t`, or `t.len()`
/// when there is none.
pub open spec fn spec_first_exp(t: Seq<char>) -> int
    decreases t.len(),
{
    if t.len() == 0 {
        0
    } else if t.first() == 'e' || t.first() == 'E' {
        0
    } else {
        1 + spec_first_exp(t.drop_first())
    }
}

/// `n` zero digits.
pub open spec fn spec_zeros(n: nat) -> Seq<char> {
    Seq::new(n, |i: int| '0')
}

/// The mantissa digits with the decimal point moved `ev` places to the
/// right, written out as a plain decimal run: zeros are supplied where
/// the point moves past either end of the digits.
pub open spec fn spec_shift_point(ints: Seq<char>, frac: Seq<char>, ev: int) -> Seq<char> {
    let d = ints + frac;
    let pos = ints.len() + ev;
    if pos <= 0 {
        seq!['0', '.'] + spec_zeros((-pos) as nat) + d
    } else if pos >= d.len() {
        d + spec_zeros((pos - d.len()) as nat)
    } else {
        d.take(pos) + seq!['.'] + d.skip(pos)
    }
}

/// The value an unsigned run with an exponent marker denotes: a plain
/// mantissa before the marker, a signed digit run after it, read as the
/// mantissa with its decimal point moved by the exponent. `None` when
/// either part is malformed or the exponent's magnitude exceeds 1000.
pub open spec fn spec_parse_exp_form(t: Seq<char>, width: nat) -> Option<int> {
    let e = spec_first_exp(t);
    let mant = t.take(e);
    let ex = t.skip(e + 1);
    let d = spec_first_index(mant, '.');
    let ints = mant.take(d);
    let frac = if d < mant.len() {
        mant.skip(d + 1)
    } else {
        Seq::empty()
    };
    let eoff: int = if ex.len() > 0 && (ex[0] == '-' || ex[0] == '+') {
        1int
    } else {
        0int
    };
    let eneg = ex.len() > 0 && ex[0] == '-';
    let edig = ex.skip(eoff);
    if spec_all_digits(ints) && spec_all_digits(frac) && ints.len() + frac.len() > 0
        && edig.len() > 0 && spec_all_digits(edig) && spec_digits_val(edig) <= 1000 {
        let ev: int = if eneg {
            -spec_digits_val(edig)
        } else {
            spec_digits_val(edig)
        };
        spec_parse_unsigned_plain(spec_shift_point(ints, frac, ev), width)
    } else {
        None
    }
}

/// Parses a decimal floating-point literal (optional sign; digits with
/// an optional dot and fraction; an optional exponent part `e`/`E`,
/// sign, digits) into a fixed-point value scaled by `10^width`, rounding
/// to nearest with ties away from zero. `None` for anything else —
/// including `inf` and `nan`, which fixed point cannot hold — and for
/// values out of the working range: an integer part beyond eleven
/// significant digits, or an exponent beyond a magnitude of 1000.
pub open spec fn spec_parse_fixed(sv: Seq<char>, width: nat) -> Option<int> {
    let off: int = if sv.len() > 0 && (sv[0] == '-' || sv[0] == '+') {
        1int
    } else {
        0int
    };
    let neg = sv.len() > 0 && sv[0] == '-';
    let t = sv.skip(off);
    let e = spec_first_exp(t);
    let opt = if e == t.len() {
        spec_parse_unsigned_plain(t, width)
    } else {
        spec_parse_exp_form(t, width)
    };
    match opt {
        Some(m) => Some(
            if neg {
                -m
            } else {
                m
            },
        ),
        None => None,
    }
}

/// `spec_first_index` is the index a left-to-right scan finds./// `spec_first_index` is the index a left-to-right scan finds.
pub proof fn lemma_first_index_char(t: Seq<char>, c: char, j: int)
    requires
        0 <= j <= t.len(),
        forall|k: int| 0 <= k < j ==> t[k] != c,
        j == t.len() || t[j] == c,
    ensures
        spec_first_index(t, c) == j,
    decreases j,
{
    if j == 0 {
    } else {
        assert(t.first() != c);
        lemma_first_index_char(t.drop_first(), c, j - 1);
    }
}

/// `spec_strip_zeros` removes exactly the scanned run of leading zeros.
proof fn lemma_strip_zeros_at(t: Seq<char>, z: int)
    requires
        0 <= z <= t.len(),
        forall|k: int| 0 <= k < z ==> t[k] == '0',
        z == t.len() || t[z] != '0',
    ensures
        spec_strip_zeros(t) == t.skip(z),
    decreases z,
{
    if z == 0 {
        assert(t.skip(0) =~= t);
    } else {
        assert(t.first() == '0');
        lemma_strip_zeros_at(t.drop_first(), z - 1);
        assert(t.drop_first().skip(z - 1) =~= t.skip(z));
    }
}

/// Leading zeros do not change a digit string's value.
proof fn lemma_digits_val_strip_zeros(t: Seq<char>)
    ensures
        spec_digits_val(spec_strip_zeros(t)) == spec_digits_val(t),
    decreases t.len(),
{
    if t.len() > 0 && t.first() == '0' {
        lemma_digits_val_strip_zeros(t.drop_first());
        lemma_digits_val_zero_prefix(t.drop_first());
        assert(seq!['0'] + t.drop_first() =~= t);
    }
}

/// Prefixing a zero digit does not change a digit string's value.
proof fn lemma_digits_val_zero_prefix(r: Seq<char>)
    ensures
        spec_digits_val(seq!['0'] + r) == spec_digits_val(r),
    decreases r.len(),
{
    if r.len() == 0 {
        assert(seq!['0'] + r =~= seq!['0']);
        assert(spec_digits_val(seq!['0']) == 0) by {
            reveal_with_fuel(spec_digits_val, 3);
            assert(seq!['0'].drop_last() =~= Seq::<char>::empty());
        }
    } else {
        assert((seq!['0'] + r).drop_last() =~= seq!['0'] + r.drop_last());
        assert((seq!['0'] + r).last() == r.last());
        lemma_digits_val_zero_prefix(r.drop_last());
    }
}

/// A digit string's value is bounded by `10^len`.
proof fn lemma_digits_val_bound(t: Seq<char>)
    requires
        spec_all_digits(t),
    ensures
        0 <= spec_digits_val(t) < spec_pow10(t.len()),
    decreases t.len(),
{
    if t.len() == 0 {
    } else {
        lemma_digits_val_bound(t.drop_last());
        assert(spec_is_digit(t.last()));
        assert(spec_pow10(t.len()) == 10 * spec_pow10((t.len() - 1) as nat));
    }
}

/// Scans for the first occurrence of `target` at or after `from`.
pub fn find_from(s: &str, from: usize, target: char) -> (r: usize)
    requires
        from <= s@.len(),
    ensures
        from <= r <= s@.len(),
        forall|k: int| from <= k < r ==> s@[k] != target,
        r == s@.len() || s@[r as int] == target,
{
    let n = s.unicode_len();
    let mut i = from;
    while i < n
        invariant
            from <= i <= n,
            n == s@.len(),
            forall|k: int| from <= k < i ==> s@[k] != target,
        decreases n - i,
    {
        if s.get_char(i) == target {
            return i;
        }
        i = i + 1;
    }
    n
}

/// Checks that every character of `s` in `[from, to)` is a digit.
fn all_digits_in(s: &str, from: usize, to: usize) -> (r: bool)
    requires
        from <= to <= s@.len(),
    ensures
        r == spec_all_digits(s@.subrange(from as int, to as int)),
{
    let mut i = from;
    while i < to
        invariant
            from <= i <= to,
            to <= s@.len(),
            forall|k: int| from <= k < i ==> spec_is_digit(s@[k]),
        decreases to - i,
    {
        let c = s.get_char(i);
        let v = c as u32;
        if v < 48 || v > 57 {
            proof {
                assert(s@.subrange(from as int, to as int)[i - from] == s@[i as int]);
                assert(!spec_is_digit(s@[i as int]));
            }
            return false;
        }
        i = i + 1;
    }
    proof {
        assert forall|j: int| 0 <= j < to - from implies spec_is_digit(
            s@.subrange(from as int, to as int)[j],
        ) by {
            assert(s@.subrange(from as int, to as int)[j] == s@[j + from]);
        }
    }
    true
}

/// Reads the value of the digit run `s[from..to]`; at most 11 digits so
/// the value stays far inside `u64`.
fn digits_value(s: &str, from: usize, to: usize) -> (v: u64)
    requires
        from <= to <= s@.len(),
        to - from <= 11,
        spec_all_digits(s@.subrange(from as int, to as int)),
    ensures
        v == spec_digits_val(s@.subrange(from as int, to as int)),
        v < 100_000_000_000,
{
    let ghost whole = s@.subrange(from as int, to as int);
    proof {
        lemma_digits_val_bound(whole);
        lemma_pow10_mono(whole.len(), 11);
        assert(spec_pow10(11) == 100_000_000_000) by {
            reveal_with_fuel(spec_pow10, 13);
        }
        assert(whole.take(0) =~= Seq::<char>::empty());
    }
    let mut v: u64 = 0;
    let mut i = from;
    while i < to
        invariant
            from <= i <= to,
            to <= s@.len(),
            to - from <= 11,
            whole == s@.subrange(from as int, to as int),
            spec_all_digits(whole),
            v == spec_digits_val(whole.take(i - from)),
            spec_digits_val(whole.take(i - from)) < spec_pow10((i - from) as nat),
            spec_pow10((i - from) as nat) <= 100_000_000_000,
        decreases to - i,
    {
        let c = s.get_char(i);
        proof {
            assert(whole[i - from] == s@[i as int]);
            assert(spec_is_digit(whole[i - from]));
            assert(whole.take(i - from + 1).drop_last() =~= whole.take(i - from));
            assert(whole.take(i - from + 1).last() == whole[i - from]);
            lemma_digits_val_bound(whole.take(i - from + 1));
            lemma_pow10_mono((i - from + 1) as nat, 11);
            assert(spec_pow10(11) == 100_000_000_000) by {
                reveal_with_fuel(spec_pow10, 13);
            }
        }
        let d = (c as u32 - 48) as u64;
        v = v * 10 + d;
        i = i + 1;
    }
    proof {
        assert(whole.take(to - from) =~= whole);
    }
    v
}

/// Parses an unsigned plain decimal run into its fixed-point value
/// (see `spec_parse_unsigned_plain`); anything else, and any number out
/// of the working range, is a `FormatError`.
#[verifier::rlimit(30)]
fn parse_unsigned_plain(s: &str, width: u64) -> (r: Result<i64, crate::error::ScanError>)
    requires
        1 <= width <= 7,
    ensures
        match r {
            Ok(v) => spec_parse_unsigned_plain(s@, width as nat) == Some(v as int) && 0 <= v,
            Err(e) => spec_parse_unsigned_plain(s@, width as nat) is None && e is FormatError,
        },
{
    let n = s.unicode_len();
    let dot = find_from(s, 0, '.');
    proof {
        lemma_first_index_char(s@, '.', dot as int);
    }
    let ghost ints = s@.take(dot as int);
    let ghost frac = if (dot as int) < s@.len() {
        s@.skip(dot + 1)
    } else {
        Seq::<char>::empty()
    };
    proof {
        assert(ints =~= s@.subrange(0, dot as int));
    }
    // Validate the digit runs and that at least one digit is present.
    if !all_digits_in(s, 0, dot) {
        return Err(crate::error::ScanError::FormatError(bad_number(s)));
    }
    let frac_end = n;
    let frac_start = if dot < n {
        dot + 1
    } else {
        n
    };
    proof {
        assert(frac =~= s@.subrange(frac_start as int, frac_end as int));
    }
    if !all_digits_in(s, frac_start, frac_end) {
        return Err(crate::error::ScanError::FormatError(bad_number(s)));
    }
    if dot == 0 && frac_start == frac_end {
        // No digit at all.
        return Err(crate::error::ScanError::FormatError(bad_number(s)));
    }
    // Skip leading zeros of the integer part and bound what remains.
    let z = skip_zeros(s, 0, dot);
    proof {
        assert forall|k: int| 0 <= k < z implies ints[k] == '0' by {
            assert(ints[k] == s@[k]);
        }
        if z < dot {
            assert(ints[z as int] == s@[z as int]);
        }
        lemma_strip_zeros_at(ints, z as int);
    }
    if dot - z > 11 {
        proof {
            assert(spec_strip_zeros(ints).len() == dot - z);
        }
        return Err(crate::error::ScanError::FormatError(bad_number(s)));
    }
    proof {
        assert(spec_strip_zeros(ints) =~= s@.subrange(z as int, dot as int));
        lemma_digits_val_strip_zeros(ints);
        assert forall|j: int| 0 <= j < spec_strip_zeros(ints).len() implies spec_is_digit(
            spec_strip_zeros(ints)[j],
        ) by {
            assert(spec_strip_zeros(ints)[j] == ints[j + z]);
        }
    }
    let int_val = digits_value(s, z, dot);
    let frac_val = frac_value(s, frac_start, frac_end, width);
    let scale = pow10(width);
    proof {
        assert(frac_val == spec_frac_scaled(frac, width as nat));
        lemma_digits_val_strip_zeros(ints);
        lemma_digits_val_bound(spec_strip_zeros(ints));
        lemma_pow10_mono(spec_strip_zeros(ints).len(), 11);
        assert(spec_pow10(11) == 100_000_000_000) by {
            reveal_with_fuel(spec_pow10, 13);
        }
        lemma_pow10_mono(width as nat, 7);
        assert(spec_pow10(7) == 10_000_000) by {
            reveal_with_fuel(spec_pow10, 9);
        }
        assert(int_val * scale <= 100_000_000_000u64 * 10_000_000) by (nonlinear_arith)
            requires
                int_val < 100_000_000_000u64,
                scale <= 10_000_000u64,
        ;
    }
    let mag: u64 = int_val * scale + frac_val;
    Ok(mag as i64)
}

/// `spec_first_exp` is the index a left-to-right scan finds.
pub proof fn lemma_first_exp_char(t: Seq<char>, j: int)
    requires
        0 <= j <= t.len(),
        forall|k: int| 0 <= k < j ==> !(t[k] == 'e' || t[k] == 'E'),
        j == t.len() || t[j] == 'e' || t[j] == 'E',
    ensures
        spec_first_exp(t) == j,
    decreases j,
{
    if j > 0 {
        assert(!(t.first() == 'e' || t.first() == 'E'));
        lemma_first_exp_char(t.drop_first(), j - 1);
    }
}

/// Scans for the first exponent marker (`e` or `E`) at or after `from`.
fn find_exp_from(s: &str, from: usize) -> (r: usize)
    requires
        from <= s@.len(),
    ensures
        from <= r <= s@.len(),
        forall|k: int| from <= k < r ==> !(s@[k] == 'e' || s@[k] == 'E'),
        r == s@.len() || s@[r as int] == 'e' || s@[r as int] == 'E',
{
    let n = s.unicode_len();
    let mut i = from;
    while i < n
        invariant
            from <= i <= n,
            n == s@.len(),
            forall|k: int| from <= k < i ==> !(s@[k] == 'e' || s@[k] == 'E'),
        decreases n - i,
    {
        let c = s.get_char(i);
        if c == 'e' || c == 'E' {
            return i;
        }
        i = i + 1;
    }
    n
}

/// A nonzero-led digit string is at least `10^(len-1)`.
proof fn lemma_digits_val_lower(t: Seq<char>)
    requires
        t.len() >= 1,
        spec_all_digits(t),
        spec_digit_val(t[0]) >= 1,
    ensures
        spec_digits_val(t) >= spec_pow10((t.len() - 1) as nat),
    decreases t.len(),
{
    if t.len() == 1 {
        reveal_with_fuel(spec_digits_val, 3);
        assert(t.drop_last() =~= Seq::<char>::empty());
    } else {
        lemma_digits_val_lower(t.drop_last());
        assert(spec_is_digit(t.last()));
        assert(spec_pow10((t.len() - 1) as nat) == 10 * spec_pow10((t.len() - 2) as nat));
    }
}

/// A run of `n` zero digits as a string.
fn zeros_string(n: usize) -> (r: String)
    ensures
        r@ == spec_zeros(n as nat),
{
    let mut out = String::new();
    proof {
        assert(out@ =~= spec_zeros(0));
    }
    let mut i: usize = 0;
    while i < n
        invariant
            i <= n,
            out@ == spec_zeros(i as nat),
        decreases n - i,
    {
        let zero = "0";
        proof {
            reveal_strlit("0");
            assert(zero@ =~= seq!['0']);
        }
        out.append(zero);
        proof {
            assert(out@ =~= spec_zeros((i + 1) as nat));
        }
        i = i + 1;
    }
    out
}

/// Writes the mantissa with its decimal point moved `ev` places right
/// (negative `ev_neg` moves it left) as a plain decimal run.
fn build_shifted(ints: &str, frac: &str, ev_mag: u64, ev_neg: bool) -> (r: String)
    requires
        ev_mag <= 1000,
        ints@.len() + frac@.len() <= usize::MAX,
    ensures
        ({
            let ev: int = if ev_neg {
                -(ev_mag as int)
            } else {
                ev_mag as int
            };
            r@ == spec_shift_point(ints@, frac@, ev)
        }),
{
    let ghost ev: int = if ev_neg {
        -(ev_mag as int)
    } else {
        ev_mag as int
    };
    let ghost d_seq = ints@ + frac@;
    let il = ints.unicode_len();
    let fl = frac.unicode_len();
    let dl = il + fl;
    let pos_i: i128 = if ev_neg {
        il as i128 - ev_mag as i128
    } else {
        il as i128 + ev_mag as i128
    };
    proof {
        assert(pos_i == ints@.len() + ev);
    }
    if pos_i <= 0 {
        let zcount = (-pos_i) as usize;
        let head = "0.";
        proof {
            reveal_strlit("0.");
            assert(head@ =~= seq!['0', '.']);
        }
        let mut out = String::from_str(head);
        let zeros = zeros_string(zcount);
        out.append(zeros.as_str());
        out.append(ints);
        out.append(frac);
        proof {
            assert(out@ =~= seq!['0', '.'] + spec_zeros((-pos_i) as nat) + d_seq);
        }
        out
    } else if pos_i >= dl as i128 {
        let zcount = (pos_i - dl as i128) as usize;
        let mut out = ints.to_owned();
        out.append(frac);
        let zeros = zeros_string(zcount);
        out.append(zeros.as_str());
        proof {
            assert(out@ =~= d_seq + spec_zeros((pos_i - dl) as nat));
        }
        out
    } else {
        let pos = pos_i as usize;
        let dot = ".";
        proof {
            reveal_strlit(".");
            assert(dot@ =~= seq!['.']);
        }
        let mut out: String;
        if pos <= il {
            out = s_take(ints, pos);
            out.append(dot);
            out.append(ints.substring_char(pos, il));
            out.append(frac);
            proof {
                assert(d_seq.take(pos as int) =~= ints@.take(pos as int));
                assert(d_seq.skip(pos as int) =~= ints@.subrange(pos as int, il as int)
                    + frac@);
            }
        } else {
            out = ints.to_owned();
            out.append(frac.substring_char(0, pos - il));
            out.append(dot);
            out.append(frac.substring_char(pos - il, fl));
            proof {
                assert(d_seq.take(pos as int) =~= ints@ + frac@.subrange(0, pos - il));
                assert(d_seq.skip(pos as int) =~= frac@.subrange(pos - il, fl as int));
            }
        }
        proof {
            assert(out@ =~= d_seq.take(pos as int) + seq!['.'] + d_seq.skip(pos as int));
        }
        out
    }
}

/// The prefix of `s` up to `to`, as an owned string.
fn s_take(s: &str, to: usize) -> (r: String)
    requires
        to <= s@.len(),
    ensures
        r@ == s@.take(to as int),
{
    let part = s.substring_char(0, to);
    proof {
        assert(part@ =~= s@.take(to as int));
    }
    part.to_owned()
}

/// Parses a decimal floating-point literal into a fixed-point value
/// scaled by `10^width` (see `spec_parse_fixed`); anything else, and any
/// value out of the working range, is a `FormatError`.
#[verifier::rlimit(100)]
pub fn parse_fixed(s: &str, width: u64) -> (r: Result<i64, crate::error::ScanError>)
    requires
        1 <= width <= 7,
    ensures
        match r {
            Ok(v) => spec_parse_fixed(s@, width as nat) == Some(v as int),
            Err(e) => spec_parse_fixed(s@, width as nat) is None && e is FormatError,
        },
{
    let n = s.unicode_len();
    let mut off: usize = 0;
    let mut neg = false;
    if n > 0 {
        let c0 = s.get_char(0);
        if c0 == '-' {
            neg = true;
            off = 1;
        } else if c0 == '+' {
            off = 1;
        }
    }
    let ghost t = s@.skip(off as int);
    let e_idx = find_exp_from(s, off);
    proof {
        assert forall|k: int| 0 <= k < e_idx - off implies !(t[k] == 'e' || t[k] == 'E') by {
            assert(t[k] == s@[k + off]);
        }
        if e_idx < n {
            assert(t[e_idx - off] == s@[e_idx as int]);
        }
        lemma_first_exp_char(t, e_idx - off);
    }
    if e_idx == n {
        // No exponent part: the rest is one plain decimal run.
        let body = s.substring_char(off, n);
        proof {
            assert(body@ =~= t);
        }
        match parse_unsigned_plain(body, width) {
            Ok(v) => if neg {
                Ok(-v)
            } else {
                Ok(v)
            },
            Err(e) => Err(e),
        }
    } else {
        match parse_exp_form(s, off, e_idx, width) {
            Ok(v) => if neg {
                Ok(-v)
            } else {
                Ok(v)
            },
            Err(e) => Err(e),
        }
    }
}

/// Parses the unsigned exponent form at `s[off..]`, whose first exponent
/// marker stands at `e_idx` (see `spec_parse_exp_form`).
#[verifier::rlimit(100)]
fn parse_exp_form(s: &str, off: usize, e_idx: usize, width: u64) -> (r: Result<
    i64,
    crate::error::ScanError,
>)
    requires
        1 <= width <= 7,
        off <= e_idx < s@.len(),
        spec_first_exp(s@.skip(off as int)) == e_idx - off,
    ensures
        ({
            let t = s@.skip(off as int);
            match r {
                Ok(v) => spec_parse_exp_form(t, width as nat) == Some(v as int) && 0 <= v,
                Err(e) => spec_parse_exp_form(t, width as nat) is None && e is FormatError,
            }
        }),
{
    let n = s.unicode_len();
    let ghost t = s@.skip(off as int);
    // Mantissa: digits with an optional dot, before the marker.
    let ghost mant = t.take(e_idx - off);
    let dot_raw = find_from(s, off, '.');
    let dot = if dot_raw < e_idx {
        dot_raw
    } else {
        e_idx
    };
    proof {
        assert forall|k: int| 0 <= k < dot - off implies mant[k] != '.' by {
            assert(mant[k] == s@[k + off]);
        }
        if dot < e_idx {
            assert(mant[dot - off] == s@[dot as int]);
        }
        lemma_first_index_char(mant, '.', dot - off);
    }
    let fs0 = if dot < e_idx {
        dot + 1
    } else {
        e_idx
    };
    let ghost ints = mant.take(dot - off);
    let ghost frac = if dot - off < mant.len() {
        mant.skip(dot - off + 1)
    } else {
        Seq::<char>::empty()
    };
    proof {
        assert(ints =~= s@.subrange(off as int, dot as int));
        assert(frac =~= s@.subrange(fs0 as int, e_idx as int));
    }
    if !all_digits_in(s, off, dot) {
        return Err(crate::error::ScanError::FormatError(bad_number(s)));
    }
    if !all_digits_in(s, fs0, e_idx) {
        return Err(crate::error::ScanError::FormatError(bad_number(s)));
    }
    if dot == off && fs0 == e_idx {
        // No mantissa digit at all.
        return Err(crate::error::ScanError::FormatError(bad_number(s)));
    }
    // Exponent: an optional sign, then at least one digit.
    let ghost ex = t.skip(e_idx - off + 1);
    let mut ed0 = e_idx + 1;
    let mut eneg = false;
    if ed0 < n {
        let ec = s.get_char(ed0);
        if ec == '-' {
            eneg = true;
            ed0 = ed0 + 1;
        } else if ec == '+' {
            ed0 = ed0 + 1;
        }
    }
    let ghost edig = ex.skip(ed0 - (e_idx + 1));
    proof {
        assert(ex =~= s@.subrange(e_idx + 1, n as int));
        assert(edig =~= s@.subrange(ed0 as int, n as int));
    }
    if ed0 == n {
        return Err(crate::error::ScanError::FormatError(bad_number(s)));
    }
    if !all_digits_in(s, ed0, n) {
        return Err(crate::error::ScanError::FormatError(bad_number(s)));
    }
    // The exponent's magnitude, capped at 1000.
    let ez = skip_zeros(s, ed0, n);
    proof {
        assert forall|k: int| 0 <= k < ez - ed0 implies edig[k] == '0' by {
            assert(edig[k] == s@[k + ed0]);
        }
        if ez < n {
            assert(edig[ez - ed0] == s@[ez as int]);
        }
        lemma_strip_zeros_at(edig, ez - ed0);
        lemma_digits_val_strip_zeros(edig);
        assert(spec_strip_zeros(edig) =~= s@.subrange(ez as int, n as int));
    }
    if n - ez > 4 {
        proof {
            assert(spec_digit_val(s@.subrange(ez as int, n as int)[0]) >= 1);
            assert forall|j: int| 0 <= j < n - ez implies spec_is_digit(
                s@.subrange(ez as int, n as int)[j],
            ) by {
                assert(s@.subrange(ez as int, n as int)[j] == edig[j + (ez - ed0)]);
            }
            lemma_digits_val_lower(s@.subrange(ez as int, n as int));
            lemma_pow10_mono(4, (n - ez - 1) as nat);
            assert(spec_pow10(4) == 10000) by {
                reveal_with_fuel(spec_pow10, 6);
            }
        }
        return Err(crate::error::ScanError::FormatError(bad_number(s)));
    }
    proof {
        assert forall|j: int| 0 <= j < spec_strip_zeros(edig).len() implies spec_is_digit(
            spec_strip_zeros(edig)[j],
        ) by {
            assert(spec_strip_zeros(edig)[j] == edig[j + (ez - ed0)]);
        }
    }
    let ev_mag = digits_value(s, ez, n);
    if ev_mag > 1000 {
        return Err(crate::error::ScanError::FormatError(bad_number(s)));
    }
    // Move the point and read the result as a plain decimal run.
    let ints_str = s.substring_char(off, dot);
    let frac_str = s.substring_char(fs0, e_idx);
    proof {
        assert(ints_str@ =~= ints);
        assert(frac_str@ =~= frac);
    }
    let shifted = build_shifted(ints_str, frac_str, ev_mag, eneg);
    proof {
        let ev: int = if eneg {
            -spec_digits_val(edig)
        } else {
            spec_digits_val(edig)
        };
        assert(shifted@ == spec_shift_point(ints, frac, ev));
    }
    parse_unsigned_plain(shifted.as_str(), width)
}

/// Reads and rescales the fraction digits/// Reads and rescales the fraction digits `s[from..to]` to `width`
/// decimal places, rounding to nearest with ties away from zero.
fn frac_value(s: &str, from: usize, to: usize, width: u64) -> (v: u64)
    requires
        from <= to <= s@.len(),
        1 <= width <= 7,
        spec_all_digits(s@.subrange(from as int, to as int)),
    ensures
        v == spec_frac_scaled(s@.subrange(from as int, to as int), width as nat),
        v <= spec_pow10(width as nat),
{
    let ghost f = s@.subrange(from as int, to as int);
    proof {
        lemma_pow10_mono(width as nat, 7);
        assert(spec_pow10(7) == 10_000_000) by {
            reveal_with_fuel(spec_pow10, 9);
        }
    }
    if to - from <= width as usize {
        let raw = digits_value(s, from, to);
        let pad = pow10(width - (to - from) as u64);
        proof {
            lemma_digits_val_bound(f);
            lemma_pow10_add(f.len(), (width as nat - f.len()) as nat);
            lemma_pow10_mono((width as nat - f.len()) as nat, 7);
            assert(raw * pad <= spec_pow10(width as nat) - pad) by (nonlinear_arith)
                requires
                    raw < spec_pow10(f.len()),
                    pad == spec_pow10((width as nat - f.len()) as nat),
                    spec_pow10(f.len()) * spec_pow10((width as nat - f.len()) as nat)
                        == spec_pow10(width as nat),
            ;
        }
        raw * pad
    } else {
        let keep_end = from + width as usize;
        proof {
            assert(f.take(width as int) =~= s@.subrange(from as int, keep_end as int));
            assert forall|j: int| 0 <= j < width implies spec_is_digit(
                s@.subrange(from as int, keep_end as int)[j],
            ) by {
                assert(s@.subrange(from as int, keep_end as int)[j] == f[j]);
            }
        }
        let kept = digits_value(s, from, keep_end);
        proof {
            lemma_digits_val_bound(f.take(width as int));
        }
        let next = s.get_char(keep_end);
        proof {
            assert(f[width as int] == s@[keep_end as int]);
            assert(spec_is_digit(f[width as int]));
        }
        if next as u32 >= 53 {
            kept + 1
        } else {
            kept
        }
    }
}

/// Skips the run of `'0'` characters of `s` in `[from, to)`.
fn skip_zeros(s: &str, from: usize, to: usize) -> (r: usize)
    requires
        from <= to <= s@.len(),
    ensures
        from <= r <= to,
        forall|k: int| from <= k < r ==> s@[k] == '0',
        r == to || s@[r as int] != '0',
{
    let mut i = from;
    while i < to
        invariant
            from <= i <= to,
            to <= s@.len(),
            forall|k: int| from <= k < i ==> s@[k] == '0',
        decreases to - i,
    {
        if s.get_char(i) != '0' {
            return i;
        }
        i = i + 1;
    }
    to
}

/// Every character `spec_udigits` renders is a decimal digit, and the
/// first one is `'0'` only for zero itself.
pub proof fn lemma_udigits_digits(n: nat)
    ensures
        spec_udigits(n).len() >= 1,
        spec_all_digits(spec_udigits(n)),
        n > 0 ==> spec_udigits(n).first() != '0',
        n < 10 ==> spec_udigits(n).len() == 1,
    decreases n,
{
    if n >= 10 {
        lemma_udigits_digits(n / 10);
        assert(n / 10 > 0) by (nonlinear_arith)
            requires
                n >= 10,
        ;
        let rest = seq![spec_digit_char((n % 10) as int)];
        assert(spec_is_digit(rest[0]));
        assert(spec_all_digits(spec_udigits(n / 10) + rest));
    }
}

/// `spec_udigits` needs at most `k` digits below `10^k`.
pub proof fn lemma_udigits_len_le(n: nat, k: nat)
    requires
        k >= 1,
        n < spec_pow10(k),
    ensures
        spec_udigits(n).len() <= k,
    decreases n,
{
    if n >= 10 {
        assert(k >= 2) by {
            if k == 1 {
                assert(spec_pow10(1) == 10) by {
                    reveal_with_fuel(spec_pow10, 3);
                }
            }
        }
        assert(n / 10 < spec_pow10((k - 1) as nat)) by (nonlinear_arith)
            requires
                n < spec_pow10(k),
                spec_pow10(k) == 10 * spec_pow10((k - 1) as nat),
        ;
        lemma_udigits_len_le(n / 10, (k - 1) as nat);
        assert(n / 10 < n) by (nonlinear_arith)
            requires
                n >= 10,
        ;
    }
}

/// `spec_padded_digits` always renders exactly `width` digits.
pub proof fn lemma_padded_digits_digits(n: nat, width: nat)
    ensures
        spec_padded_digits(n, width).len() == width,
        spec_all_digits(spec_padded_digits(n, width)),
    decreases width,
{
    if width > 0 {
        lemma_padded_digits_digits(n / 10, (width - 1) as nat);
        let rest = seq![spec_digit_char((n % 10) as int)];
        assert(spec_is_digit(rest[0]));
        assert(spec_all_digits(spec_padded_digits(n / 10, (width - 1) as nat) + rest));
    }
}

/// Reading back the digits `spec_udigits` renders gives the number.
pub proof fn lemma_udigits_val(n: nat)
    ensures
        spec_digits_val(spec_udigits(n)) == n,
    decreases n,
{
    if n < 10 {
        reveal_with_fuel(spec_digits_val, 3);
        assert(spec_udigits(n) =~= seq![spec_digit_char(n as int)]);
        assert(seq![spec_digit_char(n as int)].drop_last() =~= Seq::<char>::empty());
        assert(spec_digit_val(spec_digit_char(n as int)) == n);
    } else {
        assert(n / 10 < n) by (nonlinear_arith)
            requires
                n >= 10,
        ;
        lemma_udigits_val(n / 10);
        let whole = spec_udigits(n);
        assert(whole.drop_last() =~= spec_udigits(n / 10));
        assert(whole.last() == spec_digit_char((n % 10) as int));
        assert(spec_digit_val(spec_digit_char((n % 10) as int)) == n % 10);
    }
}

/// Reading back a zero-padded rendering gives the number modulo `10^w`.
pub proof fn lemma_padded_val(n: nat, width: nat)
    ensures
        spec_digits_val(spec_padded_digits(n, width)) == n % spec_pow10(width),
    decreases width,
{
    if width == 0 {
        assert(spec_pow10(0) == 1);
    } else {
        lemma_padded_val(n / 10, (width - 1) as nat);
        let p = spec_pow10((width - 1) as nat);
        lemma_pow10_mono((width - 1) as nat, (width - 1) as nat);
        let whole = spec_padded_digits(n, width);
        assert(whole.drop_last() =~= spec_padded_digits(n / 10, (width - 1) as nat));
        assert(whole.last() == spec_digit_char((n % 10) as int));
        assert(spec_digit_val(spec_digit_char((n % 10) as int)) == n % 10);
        let r = (n / 10) % p;
        let q = (n / 10) / p;
        assert(n / 10 == p * q + r) by {
            vstd::arithmetic::div_mod::lemma_fundamental_div_mod((n / 10) as int, p as int);
        }
        assert(p * q == q * p) by (nonlinear_arith);
        assert(n == 10 * (n / 10) + n % 10) by {
            vstd::arithmetic::div_mod::lemma_fundamental_div_mod(n as int, 10);
        }
        assert((q * p + r) * 10 == q * (10 * p) + r * 10) by (nonlinear_arith);
        assert(n == q * (10 * p) + (r * 10 + n % 10));
        assert(0 <= r * 10 + n % 10 < 10 * p);
        assert(n % (10 * p) == r * 10 + n % 10) by {
            vstd::arithmetic::div_mod::lemma_fundamental_div_mod_converse(
                n as int,
                (10 * p) as int,
                q as int,
                (r * 10 + n % 10) as int,
            );
        }
        assert(spec_pow10(width) == 10 * p);
    }
}

/// Stripping leading zeros never lengthens a string.
pub proof fn lemma_strip_zeros_len(t: Seq<char>)
    ensures
        spec_strip_zeros(t).len() <= t.len(),
    decreases t.len(),
{
    if t.len() > 0 && t.first() == '0' {
        lemma_strip_zeros_len(t.drop_first());
    }
}

/// The nonnegative rendering splits at its dot into digit runs that
/// read back to the magnitude: everything the parser checks holds of it.
proof fn lemma_nonneg_chars_components(m: nat, width: nat)
    requires
        1 <= width <= 7,
        m < 1_000_000_000_000,
    ensures
        ({
            let t = spec_fixed_chars_nonneg(m, width);
            let d = spec_first_index(t, '.');
            &&& t.len() > 0
            &&& spec_is_digit(t[0])
            &&& d < t.len()
            &&& spec_all_digits(t.take(d))
            &&& spec_all_digits(t.skip(d + 1))
            &&& t.take(d).len() + t.skip(d + 1).len() > 0
            &&& spec_strip_zeros(t.take(d)).len() <= 11
            &&& spec_digits_val(t.take(d)) * spec_pow10(width) + spec_frac_scaled(
                t.skip(d + 1),
                width,
            ) == m
        }),
{
    let scale = spec_pow10(width);
    lemma_pow10_bound(width);
    let ints = spec_udigits(m / scale);
    let frac = spec_padded_digits(m % scale, width);
    let t = spec_fixed_chars_nonneg(m, width);
    lemma_udigits_digits(m / scale);
    lemma_padded_digits_digits(m % scale, width);
    assert(t =~= ints + seq!['.'] + frac);
    let li = ints.len() as int;
    // The first dot of the rendering closes the integer part.
    assert forall|k: int| 0 <= k < li implies t[k] != '.' by {
        assert(t[k] == ints[k]);
        assert(spec_is_digit(ints[k]));
    }
    assert(t[li] == '.');
    lemma_first_index_char(t, '.', li);
    assert(t.take(li) =~= ints);
    assert(t.skip(li + 1) =~= frac);
    // The integer part is short enough for the working range.
    assert(spec_pow10(12) == 1_000_000_000_000 && spec_pow10(12) == 10 * spec_pow10(11)) by {
        reveal_with_fuel(spec_pow10, 14);
    }
    assert(m / scale < spec_pow10(11)) by (nonlinear_arith)
        requires
            m < spec_pow10(12),
            scale >= 10,
            spec_pow10(12) == 10 * spec_pow10(11),
            spec_pow10(11) >= 1,
    ;
    lemma_udigits_len_le(m / scale, 11);
    lemma_strip_zeros_len(ints);
    // Reading the two digit runs back gives the magnitude.
    lemma_udigits_val(m / scale);
    lemma_padded_val(m % scale, width);
    assert(spec_frac_scaled(frac, width) == spec_digits_val(frac) * spec_pow10(0)) by {
        assert(frac.len() == width);
    }
    assert((m % scale) % scale == m % scale) by {
        vstd::arithmetic::div_mod::lemma_small_mod(m % scale, scale);
    }
    assert(m == scale * (m / scale) + m % scale) by {
        vstd::arithmetic::div_mod::lemma_fundamental_div_mod(m as int, scale as int);
    }
    assert(spec_pow10(0) == 1);
    assert(spec_digits_val(frac) * spec_pow10(0) == spec_digits_val(frac)) by (nonlinear_arith)
        requires
            spec_pow10(0) == 1,
    ;
    assert(spec_digits_val(frac) == (m % scale) % scale);
    assert(spec_frac_scaled(frac, width) == m % scale);
    assert(spec_digits_val(ints) == m / scale);
    assert(spec_digits_val(ints) * scale == scale * (m / scale)) by {
        vstd::arithmetic::mul::lemma_mul_is_commutative((m / scale) as int, scale as int);
    }
    assert(spec_digits_val(ints) * scale + spec_frac_scaled(frac, width) == m);
}

/// The nonnegative rendering is all digits and one dot: in particular
/// it holds no space and no exponent marker.
proof fn lemma_nonneg_chars_plain(m: nat, width: nat)
    ensures
        forall|k: int|
            0 <= k < spec_fixed_chars_nonneg(m, width).len() ==> (
            #[trigger] spec_fixed_chars_nonneg(m, width)[k] != ' '
                && spec_fixed_chars_nonneg(m, width)[k] != 'e'
                && spec_fixed_chars_nonneg(m, width)[k] != 'E'),
{
    let scale = spec_pow10(width);
    let ints = spec_udigits(m / scale);
    let frac = spec_padded_digits(m % scale, width);
    lemma_udigits_digits(m / scale);
    lemma_padded_digits_digits(m % scale, width);
    let body = spec_fixed_chars_nonneg(m, width);
    assert(body =~= ints + seq!['.'] + frac);
    assert forall|k: int| 0 <= k < body.len() implies (body[k] != ' ' && body[k] != 'e'
        && body[k] != 'E') by {
        if k < ints.len() {
            assert(body[k] == ints[k]);
            assert(spec_is_digit(ints[k]));
        } else if k == ints.len() {
            assert(body[k] == '.');
        } else {
            assert(body[k] == frac[k - ints.len() - 1]);
            assert(spec_is_digit(frac[k - ints.len() - 1]));
        }
    }
}

/// Formatting a fixed-point value and parsing the result back returns
/// exactly the value that was formatted: the textual form is lossless.
pub proof fn lemma_format_parse_roundtrip(c: int, width: nat)
    requires
        1 <= width <= 7,
        -1_000_000_000_000 < c < 1_000_000_000_000,
    ensures
        spec_parse_fixed(spec_fixed_chars(c, width), width) == Some(c),
{
    let m: nat = if c < 0 {
        (-c) as nat
    } else {
        c as nat
    };
    lemma_nonneg_chars_components(m, width);
    lemma_nonneg_chars_plain(m, width);
    let body = spec_fixed_chars_nonneg(m, width);
    lemma_first_exp_char(body, body.len() as int);
    assert(spec_parse_unsigned_plain(body, width) == Some(m as int));
    if c < 0 {
        let full = seq!['-'] + body;
        assert(spec_fixed_chars(c, width) =~= full);
        assert(full[0] == '-');
        assert(full.skip(1) =~= body);
        assert(spec_first_exp(full.skip(1)) == body.len());
        assert(spec_parse_fixed(full, width) == Some(-(m as int)));
    } else {
        assert(spec_fixed_chars(c, width) =~= body);
        assert(!(body[0] == '-') && !(body[0] == '+'));
        assert(body.skip(0) =~= body);
        assert(spec_first_exp(body.skip(0)) == body.len());
        assert(spec_parse_fixed(body, width) == Some(m as int));
    }
}

/// A fixed-point rendering never holds a space: it is all sign, digits
/// and dot, so a unit suffix after a space starts past it.
pub proof fn lemma_fixed_chars_no_space(c: int, width: nat)
    ensures
        forall|k: int|
            0 <= k < spec_fixed_chars(c, width).len() ==> spec_fixed_chars(c, width)[k] != ' ',
{
    let m: nat = if c < 0 {
        (-c) as nat
    } else {
        c as nat
    };
    lemma_nonneg_chars_plain(m, width);
    let body = spec_fixed_chars_nonneg(m, width);
    if c < 0 {
        let full = seq!['-'] + body;
        assert(spec_fixed_chars(c, width) =~= full);
        assert forall|k: int| 0 <= k < full.len() implies full[k] != ' ' by {
            if k > 0 {
                assert(full[k] == body[k - 1]);
            }
        }
    } else {
        assert(spec_fixed_chars(c, width) =~= body);
    }
}

/// The message carried by a number-format error.
fn bad_number(s: &str) -> (m: String)
{
    let mut m = String::from_str("not a valid decimal number: ");
    m.append(s);
    m
}

} // verus!
