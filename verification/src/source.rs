//! Source text as the command-line reader sees it: whether an entry is
//! complete, and how a file splits into top-level expressions.

use vstd::prelude::*;

use crate::language::{AtomType, SymbolType, Value, ValueModel};
use crate::lexer::skip_ws;
use crate::parser::{ParseOutcome, parse, read_stalls, spec_read};
use crate::text::{str_eq, char_count_in_bytes, chars_in_bytes, chars_of, lemma_chars_in_bytes_bound, utf8_length, is_whitespace, spec_is_whitespace, string_from_chars, utf8_len, utf8_width};

verus! {

// ============================================================================
// Complete entries
// ============================================================================

/// The state after scanning `s` for parentheses: depth, inside a string,
/// just after a backslash inside a string.
pub open spec fn balance(s: Seq<char>) -> (int, bool, bool)
    decreases s.len(),
{
    if s.len() == 0 {
        (0, false, false)
    } else {
        let (depth, in_string, escape_next) = balance(s.drop_last());
        let ch = s.last();
        if in_string {
            if escape_next {
                (depth, true, false)
            } else if ch == '\\' {
                (depth, true, true)
            } else if ch == '"' {
                (depth, false, false)
            } else {
                (depth, true, false)
            }
        } else if ch == '"' {
            (depth, true, escape_next)
        } else if ch == '(' {
            (depth + 1, false, escape_next)
        } else if ch == ')' {
            (depth - 1, false, escape_next)
        } else {
            (depth, false, escape_next)
        }
    }
}

proof fn lemma_balance_bounds(s: Seq<char>)
    ensures
        -s.len() <= balance(s).0 <= s.len(),
    decreases s.len(),
{
    if s.len() > 0 {
        lemma_balance_bounds(s.drop_last());
    }
}

/// An entry is complete when its parentheses balance (outside strings) and
/// no string is left open.
pub open spec fn spec_is_complete(s: Seq<char>) -> bool {
    balance(s).0 == 0 && !balance(s).1
}

/// Check if an expression has balanced parentheses and is complete
pub fn is_complete_expression(input: &str) -> (r: bool)
    requires
        input@.len() <= i32::MAX,
    ensures
        r == spec_is_complete(input@),
{
    let ghost s = input@;
    let chars = chars_of(input);
    let mut depth: i32 = 0;
    let mut in_string = false;
    let mut escape_next = false;
    let mut i: usize = 0;
    while i < chars.len()
        invariant
            chars@ == s,
            s.len() <= i32::MAX,
            i <= chars.len(),
            (depth as int, in_string, escape_next) == balance(s.take(i as int)),
        decreases chars.len() - i,
    {
        let ch = chars[i];
        proof {
            lemma_balance_bounds(s.take(i as int));
            assert(s.take(i + 1).drop_last() =~= s.take(i as int));
        }
        if in_string {
            if escape_next {
                escape_next = false;
            } else if ch == '\\' {
                escape_next = true;
            } else if ch == '"' {
                in_string = false;
            }
        } else if ch == '"' {
            in_string = true;
        } else if ch == '(' {
            depth += 1;
        } else if ch == ')' {
            depth -= 1;
        }
        i = i + 1;
    }
    assert(s.take(chars.len() as int) =~= s);
    depth == 0 && !in_string
}

// ============================================================================
// Blank text between expressions
// ============================================================================

/// What is left of `input` after the white space and `;` comments before its
/// first expression.
pub fn skip_whitespace_and_comments(input: &str) -> (r: String)
    ensures
        r@ == input@.subrange(skip_ws(input@, 0), input@.len() as int),
{
    let chars = chars_of(input);
    let start = skip_blank(&chars, 0);
    string_from_chars(&chars, start, chars.len())
}

/// The first position at or after `from` that is neither white space nor
/// inside a comment.
fn skip_blank(chars: &Vec<char>, from: usize) -> (r: usize)
    requires
        from <= chars.len(),
    ensures
        r == skip_ws(chars@, from as int),
        from <= r <= chars.len(),
{
    let ghost s = chars@;
    let mut i = from;
    proof {
        crate::lexer::lemma_skip_ws(s, from as int);
    }
    loop
        invariant
            from <= i <= chars.len(),
            chars@ == s,
            skip_ws(s, i as int) == skip_ws(s, from as int),
            skip_ws(s, from as int) <= s.len(),
        ensures
            i == skip_ws(s, from as int),
        decreases chars.len() - i,
    {
        if i < chars.len() && is_whitespace(chars[i]) {
            i = i + 1;
        } else if i < chars.len() && chars[i] == ';' {
            proof {
                crate::lexer::lemma_comment_end(s, i as int);
            }
            let mut j = i;
            while j < chars.len() && chars[j] != '\n'
                invariant
                    i <= j <= chars.len(),
                    chars@ == s,
                    crate::lexer::comment_end(s, j as int) == crate::lexer::comment_end(
                        s,
                        i as int,
                    ),
                decreases chars.len() - j,
            {
                j = j + 1;
            }
            if j < chars.len() {
                j = j + 1;
            }
            i = j;
        } else {
            break;
        }
    }
    i
}

// ============================================================================
// Splitting a file into expressions
// ============================================================================

/// The scanner's state in a list, vector or string.
pub struct ScanState {
    pub depth: int,
    pub vec_depth: int,
    pub in_string: bool,
    pub in_raw: bool,
    pub raw_hashes: int,
    pub escape: bool,
}

/// Where the scan of a compound expression ends.
pub enum ScanEnd {
    /// The expression ends at this offset.
    At(int),
    Fail(Seq<char>),
    Exhausted(ScanState),
}

/// The number of `#` characters from `i`.
pub open spec fn hash_run(c: Seq<char>, i: int) -> nat
    decreases c.len() - i,
{
    if 0 <= i < c.len() && c[i] == '#' {
        1 + hash_run(c, i + 1)
    } else {
        0
    }
}

/// `#` at each of the `k` characters after `i`.
pub open spec fn hashes_follow(c: Seq<char>, i: int, k: int) -> bool {
    forall|j: int| 1 <= j <= k ==> #[trigger] c[i + j] == '#'
}

/// The end of a top-level quoted expression scanned from `i`; 0 when the
/// text ends first.
pub open spec fn scan_quote(c: Seq<char>, i: int, qd: int, qvd: int, qin: bool, qesc: bool) -> int
    decreases c.len() - i,
{
    if i < 0 || i >= c.len() {
        0
    } else {
        let q = c[i];
        if qin {
            if qesc {
                scan_quote(c, i + 1, qd, qvd, qin, false)
            } else if q == '\\' {
                scan_quote(c, i + 1, qd, qvd, qin, true)
            } else if q == '"' {
                scan_quote(c, i + 1, qd, qvd, false, qesc)
            } else {
                scan_quote(c, i + 1, qd, qvd, qin, qesc)
            }
        } else if q == '"' {
            scan_quote(c, i + 1, qd, qvd, true, qesc)
        } else if q == '(' {
            scan_quote(c, i + 1, qd + 1, qvd, qin, qesc)
        } else if q == ')' {
            if qd - 1 == 0 && qvd == 0 {
                i + 1
            } else {
                scan_quote(c, i + 1, qd - 1, qvd, qin, qesc)
            }
        } else if q == '<' && i + 1 < c.len() && c[i + 1] == '<' {
            scan_quote(c, i + 2, qd, qvd + 1, qin, qesc)
        } else if q == '>' && i + 1 < c.len() && c[i + 1] == '>' {
            if qvd - 1 == 0 && qd == 0 {
                i + 2
            } else {
                scan_quote(c, i + 2, qd, qvd - 1, qin, qesc)
            }
        } else if spec_is_whitespace(q) && qd == 0 && qvd == 0 {
            i
        } else {
            scan_quote(c, i + 1, qd, qvd, qin, qesc)
        }
    }
}

/// The scan of an expression that starts with `(`, `'`, `<` or `"`, from
/// index `i` in state `st`.
pub open spec fn scan_compound(c: Seq<char>, i: int, st: ScanState) -> ScanEnd
    decreases c.len() - i,
{
    if i < 0 || i >= c.len() {
        ScanEnd::Exhausted(st)
    } else {
        let ch = c[i];
        let n = c.len();
        if st.in_string && !st.in_raw {
            if st.escape {
                scan_compound(c, i + 1, ScanState { escape: false, ..st })
            } else if ch == '\\' {
                scan_compound(c, i + 1, ScanState { escape: true, ..st })
            } else if ch == '"' {
                scan_compound(c, i + 1, ScanState { in_string: false, ..st })
            } else {
                scan_compound(c, i + 1, st)
            }
        } else if st.in_raw {
            if ch == '"' && i + st.raw_hashes < n && hashes_follow(c, i, st.raw_hashes) {
                let i2 = i + st.raw_hashes + 1;
                if st.depth == 0 && st.vec_depth == 0 {
                    ScanEnd::At(i2)
                } else if i2 > i {
                    scan_compound(c, i2, ScanState { in_raw: false, ..st })
                } else {
                    ScanEnd::Exhausted(st)
                }
            } else {
                scan_compound(c, i + 1, st)
            }
        } else if ch == 'r' && i + 1 < n {
            let j = i + 1 + hash_run(c, i + 1);
            if j < n && c[j] == '"' {
                scan_compound(
                    c,
                    j + 1,
                    ScanState { in_raw: true, raw_hashes: j - (i + 1), ..st },
                )
            } else {
                scan_compound(c, i + 1, st)
            }
        } else if ch == '"' {
            scan_compound(c, i + 1, ScanState { in_string: true, ..st })
        } else if ch == '(' {
            scan_compound(c, i + 1, ScanState { depth: st.depth + 1, ..st })
        } else if ch == ')' {
            if st.depth - 1 == 0 && st.vec_depth == 0 {
                ScanEnd::At(i + 1)
            } else if st.depth - 1 < 0 {
                ScanEnd::Fail("Unmatched closing parenthesis"@)
            } else {
                scan_compound(c, i + 1, ScanState { depth: st.depth - 1, ..st })
            }
        } else if ch == '<' && i + 1 < n && c[i + 1] == '<' {
            scan_compound(c, i + 2, ScanState { vec_depth: st.vec_depth + 1, ..st })
        } else if ch == '>' && i + 1 < n && c[i + 1] == '>' {
            if st.vec_depth - 1 == 0 && st.depth == 0 {
                ScanEnd::At(i + 2)
            } else if st.vec_depth - 1 < 0 {
                ScanEnd::Fail("Unmatched closing vector delimiter"@)
            } else {
                scan_compound(c, i + 2, ScanState { vec_depth: st.vec_depth - 1, ..st })
            }
        } else if ch == '\'' && st.depth == 0 && st.vec_depth == 0 {
            let e = scan_quote(c, i + 1, 0, 0, false, false);
            ScanEnd::At(
                if e == 0 {
                    n as int
                } else {
                    e
                },
            )
        } else {
            scan_compound(c, i + 1, st)
        }
    }
}

/// The first delimiter of an atom at or after `i`.
pub open spec fn atom_delimiter(c: Seq<char>, i: int) -> Option<int>
    decreases c.len() - i,
{
    if i < 0 || i >= c.len() {
        None
    } else {
        let ch = c[i];
        if spec_is_whitespace(ch) || ch == '(' || ch == ')' || ch == '<' || ch == '>' || ch
            == ';' {
            Some(i)
        } else {
            atom_delimiter(c, i + 1)
        }
    }
}

/// Where the first expression of the blank-stripped text `t` ends, as the
/// offset at which the text is then cut (see `spec_split`), or the error.
pub open spec fn expr_end(t: Seq<char>) -> Result<int, Seq<char>> {
    if t.len() == 0 {
        Err("No expression found"@)
    } else if t[0] != '(' && t[0] != '\'' && t[0] != '<' && t[0] != '"' {
        match atom_delimiter(t, 0) {
            Some(k) => if k != 0 {
                Ok(k)
            } else {
                Ok(utf8_len(t) as int)
            },
            None => Ok(utf8_len(t) as int),
        }
    } else {
        let st0 = ScanState {
            depth: 0,
            vec_depth: 0,
            in_string: false,
            in_raw: false,
            raw_hashes: 0,
            escape: false,
        };
        match scan_compound(t, 0, st0) {
            ScanEnd::At(e) => Ok(e),
            ScanEnd::Fail(m) => Err(m),
            ScanEnd::Exhausted(st) => Err(
                if st.depth > 0 {
                    "Unclosed opening parenthesis"@
                } else if st.vec_depth > 0 {
                    "Unclosed vector delimiter"@
                } else if st.in_string {
                    "Unclosed string literal"@
                } else {
                    "Incomplete expression"@
                },
            ),
        }
    }
}

/// How the text splits before its first expression is read: an error, or
/// the expression's text and the rest; `None` when the cut offset (a count
/// of characters, used as a count of bytes) falls inside a character.
pub open spec fn spec_split(s: Seq<char>) -> Option<Result<(Seq<char>, Seq<char>), Seq<char>>> {
    let t = s.subrange(skip_ws(s, 0), s.len() as int);
    match expr_end(t) {
        Err(m) => Some(Err(m)),
        Ok(e) => match chars_in_bytes(t, e) {
            Some(k) => Some(Ok((t.take(k), t.skip(k)))),
            None => None,
        },
    }
}

/// Reading the first expression of `s` and the text after it is defined:
/// the cut falls on a character boundary and reading the expression's text
/// finishes.
pub open spec fn next_expr_defined(s: Seq<char>) -> bool {
    match spec_split(s) {
        None => false,
        Some(Err(_)) => true,
        Some(Ok((e, _))) => !(spec_read(e) is Stalls),
    }
}


// ----------------------------------------------------------------------------
// Executable scanning
// ----------------------------------------------------------------------------

fn scan_quote_end(c: &Vec<char>, start: usize) -> (r: usize)
    requires
        start <= c.len() <= i32::MAX,
    ensures
        r == scan_quote(c@, start as int, 0, 0, false, false),
{
    let ghost s = c@;
    let n = c.len();
    let mut i = start;
    let mut qd: i32 = 0;
    let mut qvd: i32 = 0;
    let mut qin = false;
    let mut qesc = false;
    while i < n
        invariant
            c@ == s,
            n == c.len() <= i32::MAX,
            start <= i,
            -(i as int) <= qd <= i,
            -(i as int) <= qvd <= i,
            scan_quote(s, i as int, qd as int, qvd as int, qin, qesc) == scan_quote(
                s,
                start as int,
                0,
                0,
                false,
                false,
            ),
        decreases n - i,
    {
        let q = c[i];
        if qin {
            if qesc {
                qesc = false;
            } else if q == '\\' {
                qesc = true;
            } else if q == '"' {
                qin = false;
            }
            i += 1;
            continue ;
        }
        if q == '"' {
            qin = true;
        } else if q == '(' {
            qd += 1;
        } else if q == ')' {
            qd -= 1;
            if qd == 0 && qvd == 0 {
                return i + 1;
            }
        } else if q == '<' && i + 1 < n && c[i + 1] == '<' {
            qvd += 1;
            i += 1;
        } else if q == '>' && i + 1 < n && c[i + 1] == '>' {
            qvd -= 1;
            if qvd == 0 && qd == 0 {
                return i + 2;
            }
            i += 1;
        } else if is_whitespace(q) && qd == 0 && qvd == 0 {
            return i;
        }
        i += 1;
    }
    0
}

/// The end of a compound expression's scan.
enum CompoundEnd {
    At(usize),
    Fail(String),
    Exhausted(i32, i32, bool),
}

pub open spec fn mk_state(depth: i32, vec_depth: i32, in_string: bool, in_raw: bool, raw_hashes: usize, escape: bool) -> ScanState {
    ScanState {
        depth: depth as int,
        vec_depth: vec_depth as int,
        in_string,
        in_raw,
        raw_hashes: raw_hashes as int,
        escape,
    }
}

fn scan_compound_end(c: &Vec<char>) -> (r: CompoundEnd)
    requires
        c.len() <= i32::MAX,
    ensures
        match scan_compound(c@, 0, ScanState { depth: 0, vec_depth: 0, in_string: false, in_raw: false, raw_hashes: 0, escape: false }) {
            ScanEnd::At(e) => r matches CompoundEnd::At(x) && x == e,
            ScanEnd::Fail(m) => r matches CompoundEnd::Fail(x) && x@ == m,
            ScanEnd::Exhausted(st) => r matches CompoundEnd::Exhausted(d, v, ins) && d == st.depth
                && v == st.vec_depth && ins == st.in_string,
        },
{
    let ghost s = c@;
    let ghost st0 = ScanState { depth: 0, vec_depth: 0, in_string: false, in_raw: false, raw_hashes: 0, escape: false };
    let ghost whole = scan_compound(s, 0, st0);
    let n = c.len();
    let mut depth: i32 = 0;
    let mut vec_depth: i32 = 0;
    let mut in_string = false;
    let mut in_raw_string = false;
    let mut raw_hash_count: usize = 0;
    let mut escape_next = false;
    let mut i: usize = 0;
    while i < n
        invariant
            c@ == s,
            n == c.len() <= i32::MAX,
            i <= n,
            -(i as int) <= depth <= i,
            -(i as int) <= vec_depth <= i,
            raw_hash_count <= i,
            whole == scan_compound(s, 0, st0),
            st0 == (ScanState { depth: 0, vec_depth: 0, in_string: false, in_raw: false, raw_hashes: 0, escape: false }),
            scan_compound(s, i as int, mk_state(depth, vec_depth, in_string, in_raw_string, raw_hash_count, escape_next)) == whole,
        decreases n - i,
    {
        let ch = c[i];
        if in_string && !in_raw_string {
            if escape_next {
                escape_next = false;
                i += 1;
                continue ;
            }
            if ch == '\\' {
                escape_next = true;
                i += 1;
                continue ;
            }
            if ch == '"' {
                in_string = false;
                i += 1;
                continue ;
            }
            i += 1;
            continue ;
        }
        if in_raw_string {
            if ch == '"' && raw_hash_count < n - i {
                let mut hash_match = true;
                let mut j: usize = 1;
                while j <= raw_hash_count
                    invariant
                        c@ == s,
                        n == c.len(),
                        i + raw_hash_count < n,
                        1 <= j <= raw_hash_count + 1,
                        hash_match == (forall|k: int| 1 <= k < j ==> #[trigger] s[i + k] == '#'),
                    decreases raw_hash_count + 1 - j,
                {
                    if c[i + j] != '#' {
                        hash_match = false;
                    }
                    j += 1;
                }
                if hash_match {
                    in_raw_string = false;
                    i += raw_hash_count + 1;
                    if depth == 0 && vec_depth == 0 {
                        return CompoundEnd::At(i);
                    }
                    continue ;
                }
            }
            i += 1;
            continue ;
        }
        if ch == 'r' && i + 1 < n {
            let mut j = i + 1;
            let mut hashes: usize = 0;
            while j < n && c[j] == '#'
                invariant
                    c@ == s,
                    n == c.len(),
                    i + 1 <= j <= n,
                    hashes == j - (i + 1),
                    hash_run(s, i + 1) == hashes + hash_run(s, j as int),
                decreases n - j,
            {
                hashes += 1;
                j += 1;
            }
            if j < n && c[j] == '"' {
                in_raw_string = true;
                raw_hash_count = hashes;
                i = j + 1;
                continue ;
            }
            i += 1;
        } else if ch == '"' {
            in_string = true;
            i += 1;
        } else if ch == '(' {
            depth += 1;
            i += 1;
        } else if ch == ')' {
            depth -= 1;
            if depth == 0 && vec_depth == 0 {
                return CompoundEnd::At(i + 1);
            }
            if depth < 0 {
                return CompoundEnd::Fail(String::from_str("Unmatched closing parenthesis"));
            }
            i += 1;
        } else if ch == '<' && i + 1 < n && c[i + 1] == '<' {
            vec_depth += 1;
            i += 2;
        } else if ch == '>' && i + 1 < n && c[i + 1] == '>' {
            vec_depth -= 1;
            if vec_depth == 0 && depth == 0 {
                return CompoundEnd::At(i + 2);
            }
            if vec_depth < 0 {
                return CompoundEnd::Fail(String::from_str("Unmatched closing vector delimiter"));
            }
            i += 2;
        } else if ch == '\'' && depth == 0 && vec_depth == 0 {
            let e = scan_quote_end(c, i + 1);
            return CompoundEnd::At(
                if e == 0 {
                    n
                } else {
                    e
                },
            );
        } else {
            i += 1;
        }
    }
    CompoundEnd::Exhausted(depth, vec_depth, in_string)
}

fn atom_end(c: &Vec<char>) -> (r: Option<usize>)
    ensures
        match atom_delimiter(c@, 0) {
            Some(k) => r matches Some(x) && x == k,
            None => r is None,
        },
{
    let mut i: usize = 0;
    while i < c.len()
        invariant
            i <= c.len(),
            atom_delimiter(c@, i as int) == atom_delimiter(c@, 0),
        decreases c.len() - i,
    {
        let ch = c[i];
        if is_whitespace(ch) || ch == '(' || ch == ')' || ch == '<' || ch == '>' || ch == ';' {
            return Some(i);
        }
        i += 1;
    }
    None
}

/// The blank-stripped text's first expression end offset, as `expr_end`.
fn expression_end(t: &Vec<char>) -> (r: Result<u64, String>)
    requires
        t.len() <= i32::MAX,
    ensures
        match expr_end(t@) {
            Ok(e) => r matches Ok(x) && x == e,
            Err(m) => r matches Err(x) && x@ == m,
        },
{
    if t.len() == 0 {
        return Err(String::from_str("No expression found"));
    }
    let first = t[0];
    if first != '(' && first != '\'' && first != '<' && first != '"' {
        match atom_end(t) {
            Some(k) => {
                if k != 0 {
                    Ok(k as u64)
                } else {
                    let l = utf8_length(t) as u64;
                    Ok(l)
                }
            },
            None => {
                let l = utf8_length(t) as u64;
                Ok(l)
            },
        }
    } else {
        match scan_compound_end(t) {
            CompoundEnd::At(e) => {
                Ok(e as u64)
            },
            CompoundEnd::Fail(m) => Err(m),
            CompoundEnd::Exhausted(depth, vec_depth, in_string) => {
                if depth > 0 {
                    Err(String::from_str("Unclosed opening parenthesis"))
                } else if vec_depth > 0 {
                    Err(String::from_str("Unclosed vector delimiter"))
                } else if in_string {
                    Err(String::from_str("Unclosed string literal"))
                } else {
                    Err(String::from_str("Incomplete expression"))
                }
            },
        }
    }
}

/// Splits `input` before reading its first expression: the expression's
/// text and the text after it, or the error; `None` when the cut would fall
/// inside a character.
pub fn split_next_expr(input: &str) -> (r: Option<Result<(String, String), String>>)
    requires
        input@.len() <= i32::MAX,
    ensures
        match spec_split(input@) {
            None => r is None,
            Some(Err(m)) => r matches Some(Err(x)) && x@ == m,
            Some(Ok((e, rest))) => r matches Some(Ok((x, y))) && x@ == e && y@ == rest,
        },
{
    let chars = chars_of(input);
    let start = skip_blank(&chars, 0);
    let mut t: Vec<char> = Vec::new();
    let mut i = start;
    while i < chars.len()
        invariant
            start <= i <= chars.len(),
            t@ == chars@.subrange(start as int, i as int),
        decreases chars.len() - i,
    {
        t.push(chars[i]);
        i += 1;
        assert(t@ =~= chars@.subrange(start as int, i as int));
    }
    match expression_end(&t) {
        Err(m) => Some(Err(m)),
        Ok(e) => match char_count_in_bytes(&t, e) {
            Some(k) => {
                proof {
                    lemma_chars_in_bytes_bound(t@, e as int);
                }
                Some(Ok((string_from_chars(&t, 0, k), string_from_chars(&t, k, t.len()))))
            },
            None => None,
        },
    }
}

/// Reads the first expression of `input`, returning it with the text after
/// it.
pub fn parse_next_expr(input: &str) -> (r: Result<(Value, String), String>)
    requires
        input@.len() <= i32::MAX,
        next_expr_defined(input@),
    ensures
        match spec_split(input@) {
            Some(Err(m)) => r matches Err(x) && x@ == m,
            Some(Ok((e, rest))) => match spec_read(e) {
                ParseOutcome::Done(Ok((v, _, _))) => r matches Ok((x, y)) && x@ == v && y@ == rest,
                ParseOutcome::Done(Err(m)) => r matches Err(x) && x@ == m,
                ParseOutcome::Stalls => false,
            },
            None => false,
        },
{
    match split_next_expr(input) {
        Some(Ok((expr, rest))) => match parse(expr.as_str()) {
            Ok(v) => Ok((v, rest)),
            Err(m) => Err(m),
        },
        Some(Err(m)) => Err(m),
        None => Err(String::new()),
    }
}

/// Whether `parse_next_expr` is defined on `input`.
pub fn next_expr_is_defined(input: &str) -> (r: bool)
    requires
        input@.len() <= i32::MAX,
    ensures
        r == next_expr_defined(input@),
{
    match split_next_expr(input) {
        None => false,
        Some(Err(_)) => true,
        Some(Ok((expr, _))) => !read_stalls(expr.as_str()),
    }
}

/// Reads the first expression of `input` with the text after it; `None`
/// where `parse_next_expr` is not defined (the cut would fall inside a
/// character, or reading the expression would never finish).
pub fn parse_next_expr_checked(input: &str) -> (r: Option<Result<(Value, String), String>>)
    requires
        input@.len() <= i32::MAX,
    ensures
        match spec_split(input@) {
            Some(Err(m)) => r matches Some(Err(x)) && x@ == m,
            Some(Ok((e, rest))) => match spec_read(e) {
                ParseOutcome::Done(Ok((v, _, _))) => r matches Some(Ok((x, y))) && x@ == v && y@ == rest,
                ParseOutcome::Done(Err(m)) => r matches Some(Err(x)) && x@ == m,
                ParseOutcome::Stalls => r is None,
            },
            None => r is None,
        },
{
    if next_expr_is_defined(input) {
        Some(parse_next_expr(input))
    } else {
        None
    }
}

// ============================================================================
// Definitions
// ============================================================================

/// A form `(label ...)` or `(defmacro ...)`, which defines a name.
pub open spec fn spec_is_definition(v: ValueModel) -> bool {
    v matches ValueModel::Cons(head, _) && (*head == ValueModel::Symbol("label"@) || *head
        == ValueModel::Symbol("defmacro"@))
}

/// Whether an expression is a definition (`label` or `defmacro`).
pub fn is_definition_expr(expr: &Value) -> (r: bool)
    ensures
        r == spec_is_definition(expr@),
{
    if let Value::Cons(cell) = expr {
        assert(expr@ == ValueModel::Cons(Box::new(cell.car@), Box::new(cell.cdr@)));
        if let Value::Atom(AtomType::Symbol(SymbolType::Symbol(sym))) = &cell.car {
            return str_eq(sym.as_str(), "label") || str_eq(sym.as_str(), "defmacro");
        }
    }
    false
}

} // verus!
