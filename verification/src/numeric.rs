//! Numbers as the reader produces them, and the integer syntax they come from.

use vstd::prelude::*;

use crate::text::{spec_is_ascii_digit, str_eq};

verus! {

/// A number literal.
///
/// A floating-point literal is kept as its decimal text (which satisfies
/// `spec_decimal_float_syntax`); it becomes a machine float only where a
/// float is computed with, outside this library.
#[derive(Debug, Clone, PartialEq)]
pub enum NumericType {
    Int(i64),
    /// Numerator and denominator, as `make_ratio` leaves them: both divided
    /// by their greatest common divisor, the denominator above 1.
    Ratio(i64, i64),
    Float(String),
}

/// The mathematical content of a `NumericType`.
pub enum NumberModel {
    Int(i64),
    Ratio(i64, i64),
    Float(Seq<char>),
}

impl View for NumericType {
    type V = NumberModel;

    open spec fn view(&self) -> NumberModel {
        match self {
            NumericType::Int(n) => NumberModel::Int(*n),
            NumericType::Ratio(a, b) => NumberModel::Ratio(*a, *b),
            NumericType::Float(t) => NumberModel::Float(t@),
        }
    }
}

impl NumericType {
    /// A copy of this number.
    pub fn copy(&self) -> (r: NumericType)
        ensures
            r@ == self@,
    {
        match self {
            NumericType::Int(n) => NumericType::Int(*n),
            NumericType::Ratio(a, b) => NumericType::Ratio(*a, *b),
            NumericType::Float(t) => NumericType::Float(t.clone()),
        }
    }
}

// ============================================================================
// Integer syntax (the grammar of `str::parse::<i64>`)
// ============================================================================

pub open spec fn all_ascii_digits(t: Seq<char>) -> bool {
    forall|i: int| 0 <= i < t.len() ==> spec_is_ascii_digit(#[trigger] t[i])
}

pub open spec fn digit_value(c: char) -> nat {
    (c as u32 - '0' as u32) as nat
}

/// The value of a string of decimal digits.
pub open spec fn digits_value(t: Seq<char>) -> nat
    decreases t.len(),
{
    if t.len() == 0 {
        0
    } else {
        digits_value(t.drop_last()) * 10 + digit_value(t.last())
    }
}

/// What `str::parse::<i64>` returns: an optional `+` or `-`, then one or
/// more ASCII digits whose value (with the sign) lies in the range of `i64`.
pub open spec fn spec_parse_i64(t: Seq<char>) -> Option<i64> {
    let signed = t.len() > 0 && (t[0] == '+' || t[0] == '-');
    let d = if signed {
        t.drop_first()
    } else {
        t
    };
    let v: int = if signed && t[0] == '-' {
        -digits_value(d)
    } else {
        digits_value(d) as int
    };
    if d.len() > 0 && all_ascii_digits(d) && i64::MIN <= v <= i64::MAX {
        Some(v as i64)
    } else {
        None
    }
}

proof fn lemma_digits_value_prefix(t: Seq<char>, k: int)
    requires
        0 <= k <= t.len(),
        all_ascii_digits(t),
    ensures
        digits_value(t.take(k)) <= digits_value(t),
    decreases t.len() - k,
{
    if k < t.len() {
        lemma_digits_value_prefix(t, k + 1);
        assert(t.take(k + 1).drop_last() =~= t.take(k));
        assert(spec_is_ascii_digit(t[k]));
    } else {
        assert(t.take(k) =~= t);
    }
}

/// Parses `v[from..to]` as a signed decimal `i64`.
#[verifier::loop_isolation(false)]
pub fn parse_i64(v: &Vec<char>, from: usize, to: usize) -> (r: Option<i64>)
    requires
        from <= to <= v.len(),
    ensures
        r == spec_parse_i64(v@.subrange(from as int, to as int)),
{
    let ghost t = v@.subrange(from as int, to as int);
    if from == to {
        return None;
    }
    let signed = v[from] == '+' || v[from] == '-';
    let negative = v[from] == '-';
    let start = if signed {
        from + 1
    } else {
        from
    };
    let ghost d = if signed {
        t.drop_first()
    } else {
        t
    };
    assert(d =~= v@.subrange(start as int, to as int));
    if start == to {
        return None;
    }
    let mut acc: i128 = 0;
    let mut i = start;
    while i < to
        invariant
            from <= start <= i <= to <= v.len(),
            d == v@.subrange(start as int, to as int),
            all_ascii_digits(d.take((i - start) as int)),
            acc == digits_value(d.take((i - start) as int)),
            acc <= 0x8000_0000_0000_0000,
        decreases to - i,
    {
        let c = v[i];
        if !('0' <= c && c <= '9') {
            assert(d[(i - start) as int] == c);
            assert(!all_ascii_digits(d));
            return None;
        }
        let ghost k = (i - start) as int;
        assert(d.take(k + 1).drop_last() =~= d.take(k));
        assert(d.take(k + 1).last() == c);
        acc = acc * 10 + (c as u32 - 48) as i128;
        i = i + 1;
        assert(all_ascii_digits(d.take((i - start) as int))) by {
            assert forall|j: int| 0 <= j < k + 1 implies spec_is_ascii_digit(
                #[trigger] d.take(k + 1)[j],
            ) by {
                if j < k {
                    assert(d.take(k + 1)[j] == d.take(k)[j]);
                }
            }
        }
        if acc > 0x8000_0000_0000_0000 {
            proof {
                let kk = (i - start) as int;
                if all_ascii_digits(d) {
                    lemma_digits_value_prefix(d, kk);
                }
            }
            return None;
        }
    }
    assert(d.take((to - start) as int) =~= d);
    if negative {
        Some((-acc) as i64)
    } else if acc <= 0x7FFF_FFFF_FFFF_FFFF {
        Some(acc as i64)
    } else {
        None
    }
}

// ============================================================================
// Floating-point syntax (the grammar of `str::parse::<f64>` for decimals)
// ============================================================================

/// The number of consecutive ASCII digits in `t` starting at `i`.
pub open spec fn leading_digits(t: Seq<char>, i: int) -> nat
    decreases t.len() - i,
{
    if 0 <= i < t.len() && spec_is_ascii_digit(t[i]) {
        1 + leading_digits(t, i + 1)
    } else {
        0
    }
}

/// An exponent `e` or `E`, an optional sign and one or more digits, ending
/// exactly at the end of `t`.
pub open spec fn exponent_syntax(t: Seq<char>, c: int) -> bool {
    &&& 0 <= c < t.len()
    &&& (t[c] == 'e' || t[c] == 'E')
    &&& {
        let e = if c + 1 < t.len() && (t[c + 1] == '+' || t[c + 1] == '-') {
            c + 2
        } else {
            c + 1
        };
        let k = leading_digits(t, e);
        k > 0 && e + k == t.len()
    }
}

/// A decimal floating-point literal as `str::parse::<f64>` reads one:
/// `Sign? (Digit+ | Digit+ '.' Digit* | Digit* '.' Digit+) Exp?`.
pub open spec fn spec_decimal_float_syntax(t: Seq<char>) -> bool {
    let a: int = if t.len() > 0 && (t[0] == '+' || t[0] == '-') {
        1
    } else {
        0
    };
    let d1 = leading_digits(t, a);
    let b = a + d1;
    let has_point = b < t.len() && t[b] == '.';
    let d2: nat = if has_point {
        leading_digits(t, b + 1)
    } else {
        0
    };
    let c = if has_point {
        b + 1 + d2
    } else {
        b
    };
    &&& d1 + d2 > 0
    &&& (c == t.len() || exponent_syntax(t, c))
}

/// Counts the ASCII digits of `v[i..to]` before the first non-digit.
fn count_digits(v: &Vec<char>, from: usize, i: usize, to: usize) -> (r: usize)
    requires
        from <= i <= to <= v.len(),
    ensures
        r == leading_digits(v@.subrange(from as int, to as int), i - from),
        i + r <= to,
{
    let ghost t = v@.subrange(from as int, to as int);
    let mut j = i;
    while j < to && '0' <= v[j] && v[j] <= '9'
        invariant
            from <= i <= j <= to <= v.len(),
            t == v@.subrange(from as int, to as int),
            leading_digits(t, i - from) == (j - i) + leading_digits(t, j - from),
        decreases to - j,
    {
        assert(t[j - from] == v[j as int]);
        j = j + 1;
    }
    if j < to {
        assert(t[j - from] == v[j as int]);
    }
    j - i
}

/// Whether `v[from..to]` is a decimal floating-point literal.
pub fn is_decimal_float(v: &Vec<char>, from: usize, to: usize) -> (r: bool)
    requires
        from <= to <= v.len(),
    ensures
        r == spec_decimal_float_syntax(v@.subrange(from as int, to as int)),
{
    let ghost t = v@.subrange(from as int, to as int);
    assert(from < to ==> t[0] == v@[from as int]);
    let a = if from < to && (v[from] == '+' || v[from] == '-') {
        from + 1
    } else {
        from
    };
    let d1 = count_digits(v, from, a, to);
    let b = a + d1;
    assert(b < to ==> t[b - from] == v@[b as int]);
    let has_point = b < to && v[b] == '.';
    let d2 = if has_point {
        count_digits(v, from, b + 1, to)
    } else {
        0
    };
    let c = if has_point {
        b + 1 + d2
    } else {
        b
    };
    if d1 + d2 == 0 {
        return false;
    }
    if c == to {
        return true;
    }
    assert(t[c - from] == v@[c as int]);
    if !(v[c] == 'e' || v[c] == 'E') {
        return false;
    }
    assert(c + 1 < to ==> t[c + 1 - from] == v@[c + 1]);
    let e = if c + 1 < to && (v[c + 1] == '+' || v[c + 1] == '-') {
        c + 2
    } else {
        c + 1
    };
    let k = count_digits(v, from, e, to);
    k > 0 && e + k == to
}

// ============================================================================
// Ratios
// ============================================================================

/// Greatest common divisor (Euclid).
pub open spec fn gcd(a: nat, b: nat) -> nat
    decreases b,
{
    if b == 0 {
        a
    } else {
        gcd(b, a % b)
    }
}

pub open spec fn abs(n: int) -> nat {
    if n < 0 {
        (-n) as nat
    } else {
        n as nat
    }
}

/// The number `n/d` in lowest terms with a positive denominator: an integer
/// when the denominator reduces to 1; an error for a zero denominator, or
/// when a reduced part leaves the range of `i64`.
pub open spec fn spec_reduce(n: int, d: int) -> Result<NumberModel, Seq<char>> {
    if d == 0 {
        Err("Division by zero"@)
    } else {
        let g = gcd(abs(n), abs(d));
        let mag: int = (abs(n) / g) as int;
        let num: int = if (n < 0) != (d < 0) {
            -mag
        } else {
            mag
        };
        let den: int = (abs(d) / g) as int;
        if !(i64::MIN <= num <= i64::MAX) || den > i64::MAX {
            Err("Ratio overflow"@)
        } else if den == 1 {
            Ok(NumberModel::Int(num as i64))
        } else {
            Ok(NumberModel::Ratio(num as i64, den as i64))
        }
    }
}

/// The ratio `n/d` of two machine integers, reduced.
pub open spec fn spec_make_ratio(n: i64, d: i64) -> Result<NumberModel, Seq<char>> {
    spec_reduce(n as int, d as int)
}

/// An exact number as a fraction with a positive denominator; a float, or
/// a ratio whose denominator is not positive, is none.
pub open spec fn as_fraction(x: NumberModel) -> Option<(int, int)> {
    match x {
        NumberModel::Int(a) => Some((a as int, 1int)),
        NumberModel::Ratio(a, b) => if b >= 1 {
            Some((a as int, b as int))
        } else {
            None
        },
        NumberModel::Float(_) => None,
    }
}

/// `+`, `-`, `*` or (any other operator) `/` on two fractions, reduced.
pub open spec fn spec_fraction_op(op: Seq<char>, p: (int, int), q: (int, int)) -> Result<NumberModel, Seq<char>> {
    let (a, b) = p;
    let (c, d) = q;
    if op == "+"@ {
        spec_reduce(a * d + c * b, b * d)
    } else if op == "-"@ {
        spec_reduce(a * d - c * b, b * d)
    } else if op == "*"@ {
        spec_reduce(a * c, b * d)
    } else {
        spec_reduce(a * d, b * c)
    }
}

/// `<`, `>`, `<=`, `>=` or (any other operator) `=` on two fractions with
/// positive denominators.
pub open spec fn spec_fraction_compare(op: Seq<char>, p: (int, int), q: (int, int)) -> bool {
    let l = p.0 * q.1;
    let r = q.0 * p.1;
    if op == "<"@ {
        l < r
    } else if op == ">"@ {
        l > r
    } else if op == "<="@ {
        l <= r
    } else if op == ">="@ {
        l >= r
    } else {
        l == r
    }
}

proof fn lemma_gcd_positive(a: nat, b: nat)
    requires
        b > 0,
    ensures
        gcd(a, b) > 0,
        gcd(a, b) <= b,
    decreases b,
{
    if a % b == 0 {
        assert(gcd(b, 0) == b);
    } else {
        lemma_gcd_positive(b, a % b);
    }
}

fn gcd_u128(a: u128, b: u128) -> (r: u128)
    ensures
        r == gcd(a as nat, b as nat),
    decreases b,
{
    if b == 0 {
        a
    } else {
        gcd_u128(b, a % b)
    }
}

/// Reduces `n/d`.
pub fn reduce_wide(n: i128, d: i128) -> (r: Result<NumericType, String>)
    requires
        n > i128::MIN,
        d > i128::MIN,
    ensures
        match (r, spec_reduce(n as int, d as int)) {
            (Ok(x), Ok(m)) => x@ == m,
            (Err(e), Err(m)) => e@ == m,
            _ => false,
        },
{
    if d == 0 {
        return Err(String::from_str("Division by zero"));
    }
    let an: u128 = if n < 0 {
        (-n) as u128
    } else {
        n as u128
    };
    let ad: u128 = if d < 0 {
        (-d) as u128
    } else {
        d as u128
    };
    let g = gcd_u128(an, ad);
    proof {
        lemma_gcd_positive(an as nat, ad as nat);
    }
    let mag = an / g;
    let den = ad / g;
    assert(mag <= an) by (nonlinear_arith)
        requires
            g > 0,
            mag == an / g,
    ;
    assert(den <= ad) by (nonlinear_arith)
        requires
            g > 0,
            den == ad / g,
    ;
    if mag > 0x8000_0000_0000_0000 || den > 0x7FFF_FFFF_FFFF_FFFF {
        return Err(String::from_str("Ratio overflow"));
    }
    let num: i128 = if (n < 0) != (d < 0) {
        -(mag as i128)
    } else {
        mag as i128
    };
    if num > 0x7FFF_FFFF_FFFF_FFFF {
        return Err(String::from_str("Ratio overflow"));
    }
    if den == 1 {
        Ok(NumericType::Int(num as i64))
    } else {
        Ok(NumericType::Ratio(num as i64, den as i64))
    }
}

impl NumericType {
    /// Builds the ratio `numerator/denominator` in lowest terms.
    pub fn make_ratio(numerator: i64, denominator: i64) -> (r: Result<NumericType, String>)
        ensures
            match (r, spec_make_ratio(numerator, denominator)) {
                (Ok(x), Ok(m)) => x@ == m,
                (Err(e), Err(m)) => e@ == m,
                _ => false,
            },
    {
        reduce_wide(numerator as i128, denominator as i128)
    }
}

/// A number as a fraction with a positive denominator, where it is exact.
pub fn fraction_of(x: &NumericType) -> (r: Option<(i64, i64)>)
    ensures
        match as_fraction(x@) {
            Some((a, b)) => r matches Some((c, d)) && c as int == a && d as int == b,
            None => r is None,
        },
{
    match x {
        NumericType::Int(a) => Some((*a, 1)),
        NumericType::Ratio(a, b) => if *b >= 1 {
            Some((*a, *b))
        } else {
            None
        },
        NumericType::Float(_) => None,
    }
}

proof fn lemma_product_bound(x: int, y: int)
    requires
        -0x8000_0000_0000_0000 <= x <= 0x7FFF_FFFF_FFFF_FFFF,
        1 <= y <= 0x7FFF_FFFF_FFFF_FFFF,
    ensures
        -0x4000_0000_0000_0000_0000_0000_0000_0000 < x * y < 0x4000_0000_0000_0000_0000_0000_0000_0000,
{
    assert(-0x4000_0000_0000_0000_0000_0000_0000_0000 < x * y < 0x4000_0000_0000_0000_0000_0000_0000_0000) by (nonlinear_arith)
        requires
            -0x8000_0000_0000_0000 <= x <= 0x7FFF_FFFF_FFFF_FFFF,
            1 <= y <= 0x7FFF_FFFF_FFFF_FFFF,
    ;
}

/// Arithmetic on the fractions `a/b` and `c/d`.
pub fn fraction_op(op: &str, a: i64, b: i64, c: i64, d: i64) -> (r: Result<NumericType, String>)
    requires
        b >= 1,
        d >= 1,
    ensures
        match (r, spec_fraction_op(op@, (a as int, b as int), (c as int, d as int))) {
            (Ok(x), Ok(m)) => x@ == m,
            (Err(e), Err(m)) => e@ == m,
            _ => false,
        },
{
    proof {
        lemma_product_bound(a as int, d as int);
        lemma_product_bound(c as int, b as int);
        lemma_product_bound(b as int, d as int);
    }
    let (a, b, c, d) = (a as i128, b as i128, c as i128, d as i128);
    if str_eq(op, "+") {
        reduce_wide(a * d + c * b, b * d)
    } else if str_eq(op, "-") {
        reduce_wide(a * d - c * b, b * d)
    } else if str_eq(op, "*") {
        assert(-0x4000_0000_0000_0000_0000_0000_0000_0001 <= a * c <= 0x4000_0000_0000_0000_0000_0000_0000_0000) by (nonlinear_arith)
            requires
                -0x8000_0000_0000_0000 <= a <= 0x7FFF_FFFF_FFFF_FFFF,
                -0x8000_0000_0000_0000 <= c <= 0x7FFF_FFFF_FFFF_FFFF,
        ;
        reduce_wide(a * c, b * d)
    } else {
        reduce_wide(a * d, b * c)
    }
}

/// Compares the fractions `a/b` and `c/d`.
pub fn fraction_compare(op: &str, a: i64, b: i64, c: i64, d: i64) -> (r: bool)
    requires
        b >= 1,
        d >= 1,
    ensures
        r == spec_fraction_compare(op@, (a as int, b as int), (c as int, d as int)),
{
    proof {
        lemma_product_bound(a as int, d as int);
        lemma_product_bound(c as int, b as int);
    }
    let l = a as i128 * d as i128;
    let r = c as i128 * b as i128;
    if str_eq(op, "<") {
        l < r
    } else if str_eq(op, ">") {
        l > r
    } else if str_eq(op, "<=") {
        l <= r
    } else if str_eq(op, ">=") {
        l >= r
    } else {
        l == r
    }
}

} // verus!
