//! Character classification and string building used by the reader.

use vstd::prelude::*;

verus! {

// ============================================================================
// Character classes
// ============================================================================

/// The Unicode `White_Space` property: exactly the characters for which
/// `char::is_whitespace` holds.
pub open spec fn spec_is_whitespace(c: char) -> bool {
    let v = c as u32;
    ||| 0x09 <= v <= 0x0D
    ||| v == 0x20
    ||| v == 0x85
    ||| v == 0xA0
    ||| v == 0x1680
    ||| 0x2000 <= v <= 0x200A
    ||| v == 0x2028
    ||| v == 0x2029
    ||| v == 0x202F
    ||| v == 0x205F
    ||| v == 0x3000
}

/// Whether `c` has the Unicode `White_Space` property.
pub fn is_whitespace(c: char) -> (r: bool)
    ensures
        r == spec_is_whitespace(c),
{
    let v = c as u32;
    (0x09 <= v && v <= 0x0D) || v == 0x20 || v == 0x85 || v == 0xA0 || v == 0x1680 || (0x2000
        <= v && v <= 0x200A) || v == 0x2028 || v == 0x2029 || v == 0x202F || v == 0x205F || v
        == 0x3000
}

pub open spec fn spec_is_ascii_digit(c: char) -> bool {
    '0' <= c <= '9'
}

pub open spec fn spec_is_ascii_letter(c: char) -> bool {
    ('a' <= c <= 'z') || ('A' <= c <= 'Z')
}

pub open spec fn spec_is_ascii_hexdigit(c: char) -> bool {
    ('0' <= c <= '9') || ('a' <= c <= 'f') || ('A' <= c <= 'F')
}

/// Whether `c` is an ASCII hexadecimal digit.
pub fn is_ascii_hexdigit(c: char) -> (r: bool)
    ensures
        r == spec_is_ascii_hexdigit(c),
{
    ('0' <= c && c <= '9') || ('a' <= c && c <= 'f') || ('A' <= c && c <= 'F')
}

/// The value of a hexadecimal digit.
pub open spec fn spec_hex_digit_value(c: char) -> nat {
    if '0' <= c <= '9' {
        (c as u32 - '0' as u32) as nat
    } else if 'a' <= c <= 'f' {
        (c as u32 - 'a' as u32 + 10) as nat
    } else {
        (c as u32 - 'A' as u32 + 10) as nat
    }
}

pub fn hex_digit_value(c: char) -> (r: u32)
    requires
        spec_is_ascii_hexdigit(c),
    ensures
        r == spec_hex_digit_value(c),
        r < 16,
{
    let v = c as u32;
    if '0' <= c && c <= '9' {
        v - 48
    } else if 'a' <= c && c <= 'f' {
        v - 97 + 10
    } else {
        v - 65 + 10
    }
}

/// What `char::is_numeric` returns for `c` (membership in the Unicode
/// number categories `Nd`, `Nl`, `No`).
pub uninterp spec fn char_numeric(c: char) -> bool;

/// What `char::is_alphanumeric` returns for `c`.
pub uninterp spec fn char_alphanumeric(c: char) -> bool;

/// Calls `char::is_numeric`. Claimed: the result is the named
/// `char_numeric(c)`; among ASCII characters exactly the digits `0`-`9` are
/// numeric; a numeric character is also alphanumeric (the std documentation
/// defines `is_alphanumeric` as `is_alphabetic() || is_numeric()`). Which
/// non-ASCII characters are numeric is left to the Unicode tables.
#[verifier::external_body]
pub(crate) fn is_numeric(c: char) -> (r: bool)
    ensures
        r == char_numeric(c),
        (c as u32) < 128 ==> (r <==> spec_is_ascii_digit(c)),
        r ==> char_alphanumeric(c),
{
    c.is_numeric()
}

/// Calls `char::is_alphanumeric`. Claimed: the result is the named
/// `char_alphanumeric(c)`; among ASCII characters exactly the letters and
/// digits are alphanumeric; no `White_Space` character is alphanumeric.
/// The non-ASCII letters and numbers are left to the Unicode tables.
#[verifier::external_body]
pub(crate) fn is_alphanumeric(c: char) -> (r: bool)
    ensures
        r == char_alphanumeric(c),
        (c as u32) < 128 ==> (r <==> (spec_is_ascii_digit(c) || spec_is_ascii_letter(c))),
        spec_is_whitespace(c) ==> !r,
{
    c.is_alphanumeric()
}

/// Calls `char::from_u32`: `Some` exactly for Unicode scalar values (at most
/// `0x10FFFF` and outside the surrogate range), holding the character with
/// that code point.
#[verifier::external_body]
pub(crate) fn char_from_u32(v: u32) -> (r: Option<char>)
    ensures
        r is Some <==> (v <= 0x10FFFF && !(0xD800 <= v <= 0xDFFF)),
        r matches Some(c) ==> c as u32 == v && c == v as char,
{
    char::from_u32(v)
}

/// The character whose code point is the byte.
pub(crate) fn char_from_u8(b: u8) -> (r: char)
    ensures
        r as u32 == b as u32,
        r == b as char,
{
    b as char
}

// ============================================================================
// Strings
// ============================================================================

/// Calls `String::push`: appends one character.
#[verifier::external_body]
pub(crate) fn push_char(s: &mut String, c: char)
    ensures
        final(s)@ == old(s)@.push(c),
{
    s.push(c);
}

/// The characters of a string slice, in order.
pub fn chars_of(s: &str) -> (v: Vec<char>)
    ensures
        v@ == s@,
{
    let mut v: Vec<char> = Vec::new();
    for c in it: s.chars()
        invariant
            v@ == it.seq().take(it.index() as int),
    {
        v.push(c);
    }
    v
}

/// A string holding the characters `v[from..to]`.
pub fn string_from_chars(v: &Vec<char>, from: usize, to: usize) -> (s: String)
    requires
        from <= to <= v.len(),
    ensures
        s@ == v@.subrange(from as int, to as int),
{
    let mut s = String::new();
    let mut i = from;
    while i < to
        invariant
            from <= i <= to <= v.len(),
            s@ == v@.subrange(from as int, i as int),
        decreases to - i,
    {
        push_char(&mut s, v[i]);
        i = i + 1;
        assert(s@ =~= v@.subrange(from as int, i as int));
    }
    s
}

/// Appends all characters of `t` to `s`.
pub fn push_seq(s: &mut String, t: &Vec<char>)
    ensures
        final(s)@ == old(s)@ + t@,
{
    let mut i: usize = 0;
    while i < t.len()
        invariant
            i <= t.len(),
            s@ == old(s)@ + t@.subrange(0, i as int),
        decreases t.len() - i,
    {
        push_char(s, t[i]);
        i = i + 1;
        assert(s@ =~= old(s)@ + t@.subrange(0, i as int));
    }
    assert(t@.subrange(0, t.len() as int) =~= t@);
}

// ============================================================================
// Decimal numerals
// ============================================================================

pub open spec fn digit_char(d: nat) -> char {
    if d == 0 {
        '0'
    } else if d == 1 {
        '1'
    } else if d == 2 {
        '2'
    } else if d == 3 {
        '3'
    } else if d == 4 {
        '4'
    } else if d == 5 {
        '5'
    } else if d == 6 {
        '6'
    } else if d == 7 {
        '7'
    } else if d == 8 {
        '8'
    } else {
        '9'
    }
}

/// The decimal numeral of `n`, without leading zeros.
pub open spec fn decimal(n: nat) -> Seq<char>
    decreases n,
{
    if n < 10 {
        seq![digit_char(n)]
    } else {
        decimal(n / 10).push(digit_char(n % 10))
    }
}

/// A decimal numeral is non-empty and made of digits only.
pub proof fn lemma_decimal_digits(n: nat)
    ensures
        decimal(n).len() >= 1,
        n >= 10 ==> decimal(n).len() >= 2,
        forall|i: int| 0 <= i < decimal(n).len() ==> '0' <= #[trigger] decimal(n)[i] <= '9',
    decreases n,
{
    if n >= 10 {
        lemma_decimal_digits(n / 10);
        let d = decimal(n / 10);
        assert forall|i: int| 0 <= i < decimal(n).len() implies '0' <= #[trigger] decimal(n)[i]
            <= '9' by {
            if i < d.len() {
                assert(decimal(n)[i] == d[i]);
            }
        }
    }
}

/// Different numbers have different decimal numerals.
pub proof fn lemma_decimal_injective(n: nat, m: nat)
    requires
        decimal(n) == decimal(m),
    ensures
        n == m,
    decreases n,
{
    lemma_decimal_digits(n);
    lemma_decimal_digits(m);
    if n >= 10 && m >= 10 {
        let a = decimal(n);
        assert(a.drop_last() =~= decimal(n / 10));
        assert(decimal(m).drop_last() =~= decimal(m / 10));
        lemma_decimal_injective(n / 10, m / 10);
        assert(a[a.len() - 1] == digit_char(n % 10));
        assert(decimal(m)[decimal(m).len() - 1] == digit_char(m % 10));
        lemma_digit_char_injective(n % 10, m % 10);
    } else if n < 10 && m < 10 {
        assert(decimal(n)[0] == digit_char(n));
        assert(decimal(m)[0] == digit_char(m));
        lemma_digit_char_injective(n, m);
    }
}

proof fn lemma_digit_char_injective(a: nat, b: nat)
    requires
        a < 10,
        b < 10,
        digit_char(a) == digit_char(b),
    ensures
        a == b,
{
}

/// The decimal numeral of a signed integer: a `-` before the magnitude when
/// negative.
pub open spec fn signed_decimal(n: int) -> Seq<char> {
    if n < 0 {
        seq!['-'] + decimal((-n) as nat)
    } else {
        decimal(n as nat)
    }
}

fn digit_to_char(d: u64) -> (c: char)
    requires
        d < 10,
    ensures
        c == digit_char(d as nat),
{
    if d == 0 {
        '0'
    } else if d == 1 {
        '1'
    } else if d == 2 {
        '2'
    } else if d == 3 {
        '3'
    } else if d == 4 {
        '4'
    } else if d == 5 {
        '5'
    } else if d == 6 {
        '6'
    } else if d == 7 {
        '7'
    } else if d == 8 {
        '8'
    } else {
        '9'
    }
}

/// Appends the decimal numeral of `n` to `s`.
pub fn push_decimal(s: &mut String, n: u64)
    ensures
        final(s)@ == old(s)@ + decimal(n as nat),
    decreases n,
{
    if n < 10 {
        push_char(s, digit_to_char(n));
        assert(s@ =~= old(s)@ + decimal(n as nat));
    } else {
        push_decimal(s, n / 10);
        push_char(s, digit_to_char(n % 10));
        assert(s@ =~= old(s)@ + decimal(n as nat));
    }
}

// ============================================================================
// UTF-8 lengths
// ============================================================================

/// The number of bytes in the UTF-8 encoding of `c`.
pub open spec fn utf8_width(c: char) -> nat {
    if (c as u32) < 0x80 {
        1
    } else if (c as u32) < 0x800 {
        2
    } else if (c as u32) < 0x10000 {
        3
    } else {
        4
    }
}

/// The number of bytes in the UTF-8 encoding of `t`.
pub open spec fn utf8_len(t: Seq<char>) -> nat
    decreases t.len(),
{
    if t.len() == 0 {
        0
    } else {
        utf8_len(t.drop_last()) + utf8_width(t.last())
    }
}

/// The number of characters of `t` whose encoding takes exactly `b` bytes,
/// if `b` falls on a character boundary.
pub open spec fn chars_in_bytes(t: Seq<char>, b: int) -> Option<int>
    decreases t.len(),
{
    if b == 0 {
        Some(0)
    } else if t.len() == 0 || b < 0 {
        None
    } else if b < utf8_width(t[0]) {
        None
    } else {
        match chars_in_bytes(t.drop_first(), b - utf8_width(t[0])) {
            Some(k) => Some(k + 1),
            None => None,
        }
    }
}

pub fn char_utf8_width(ch: char) -> (r: u64)
    ensures
        r == utf8_width(ch),
{
    let v = ch as u32;
    if v < 0x80 {
        1
    } else if v < 0x800 {
        2
    } else if v < 0x10000 {
        3
    } else {
        4
    }
}

pub fn utf8_length(c: &Vec<char>) -> (r: u128)
    ensures
        r == utf8_len(c@),
        r <= 4 * c.len(),
{
    let mut acc: u128 = 0;
    let mut i: usize = 0;
    while i < c.len()
        invariant
            i <= c.len(),
            acc == utf8_len(c@.take(i as int)),
            acc <= 4 * i,
        decreases c.len() - i,
    {
        assert(c@.take(i + 1).drop_last() =~= c@.take(i as int));
        acc += char_utf8_width(c[i]) as u128;
        i += 1;
    }
    assert(c@.take(c.len() as int) =~= c@);
    acc
}

pub open spec fn shift(o: Option<int>, k: int) -> Option<int> {
    match o {
        Some(x) => Some(x + k),
        None => None,
    }
}

pub fn char_count_in_bytes(c: &Vec<char>, b: u64) -> (r: Option<usize>)
    ensures
        match chars_in_bytes(c@, b as int) {
            Some(k) => r matches Some(x) && x == k,
            None => r is None,
        },
{
    let ghost s = c@;
    let mut k: usize = 0;
    let mut acc: u64 = 0;
    assert(s.skip(0) =~= s);
    loop
        invariant
            c@ == s,
            k <= s.len(),
            acc <= b,
            chars_in_bytes(s, b as int) == shift(chars_in_bytes(s.skip(k as int), b - acc), k as int),
        decreases s.len() - k,
    {
        if acc == b {
            return Some(k);
        }
        if k >= c.len() {
            return None;
        }
        let w = char_utf8_width(c[k]);
        assert(s.skip(k as int)[0] == c@[k as int]);
        if b - acc < w {
            return None;
        }
        assert(s.skip(k as int).drop_first() =~= s.skip(k + 1));
        acc += w;
        k += 1;
    }
}

pub proof fn lemma_chars_in_bytes_bound(t: Seq<char>, b: int)
    ensures
        chars_in_bytes(t, b) matches Some(k) ==> 0 <= k <= t.len(),
    decreases t.len(),
{
    if b != 0 && t.len() > 0 && b >= 0 && b >= utf8_width(t[0]) {
        lemma_chars_in_bytes_bound(t.drop_first(), b - utf8_width(t[0]));
    }
}


/// Whether `needle` occurs in `hay` as a contiguous stretch.
pub open spec fn spec_contains(hay: Seq<char>, needle: Seq<char>) -> bool {
    exists|i: int|
        0 <= i && i + needle.len() <= hay.len() && #[trigger] hay.subrange(i, i + needle.len())
            == needle
}

/// Whether `needle` occurs in `hay`.
pub fn str_contains(hay: &str, needle: &str) -> (r: bool)
    ensures
        r == spec_contains(hay@, needle@),
{
    let h = chars_of(hay);
    let n = chars_of(needle);
    if n.len() > h.len() {
        return false;
    }
    let last = h.len() - n.len();
    let mut i: usize = 0;
    while i <= last
        invariant
            h@ == hay@,
            n@ == needle@,
            last == h.len() - n.len(),
            n.len() <= h.len(),
            i <= last + 1,
            forall|k: int| 0 <= k < i ==> #[trigger] h@.subrange(k, k + n@.len()) != n@,
        decreases last + 1 - i,
    {
        let mut j: usize = 0;
        while j < n.len()
            invariant
                h@ == hay@,
                n@ == needle@,
                last == h.len() - n.len(),
                i <= last,
                j <= n.len(),
                forall|k: int| 0 <= k < j ==> h@[i + k] == n@[k],
            ensures
                j <= n.len(),
                forall|k: int| 0 <= k < j ==> h@[i + k] == n@[k],
                j < n.len() ==> h@[i + j] != n@[j as int],
            decreases n.len() - j,
        {
            if h[i + j] != n[j] {
                break;
            }
            j = j + 1;
        }
        if j == n.len() {
            assert(h@.subrange(i as int, i + n@.len()) =~= n@);
            return true;
        }
        assert(h@.subrange(i as int, i + n@.len())[j as int] != n@[j as int]);
        i = i + 1;
    }
    assert forall|k: int| 0 <= k && k + needle@.len() <= hay@.len() implies #[trigger] hay@.subrange(
        k,
        k + needle@.len(),
    ) != needle@ by {
        assert(k < i);
    }
    false
}

/// Whether two string slices hold the same characters.
pub fn str_eq(a: &str, b: &str) -> (r: bool)
    ensures
        r == (a@ == b@),
{
    String::from_str(a).eq(&String::from_str(b))
}

} // verus!
