//! The tokenizer: turns source text into tokens one at a time.

use vstd::prelude::*;

use crate::language::StringType;
use crate::numeric::{
    NumberModel, NumericType, is_decimal_float, parse_i64, spec_decimal_float_syntax,
    spec_make_ratio, spec_parse_i64,
};
use crate::text::{
    char_alphanumeric, char_from_u32, char_from_u8, char_numeric, chars_of, hex_digit_value,
    is_alphanumeric, is_ascii_hexdigit, is_numeric, is_whitespace, push_char, push_decimal,
    spec_hex_digit_value, spec_is_ascii_hexdigit, spec_is_whitespace, string_from_chars, decimal,
};

verus! {

// ============================================================================
// Token Types
// ============================================================================

#[derive(Debug, Clone, PartialEq)]
pub enum Token {
    LParen,
    RParen,
    VectorOpen,
    VectorClose,
    Quote,
    Quasiquote,
    Unquote,
    UnquoteSplicing,
    Symbol(String),
    Number(NumericType),
    String(StringType),
    Eof,
}

/// The content of a token.
pub enum TokenModel {
    LParen,
    RParen,
    VectorOpen,
    VectorClose,
    Quote,
    Quasiquote,
    Unquote,
    UnquoteSplicing,
    Symbol(Seq<char>),
    Number(NumberModel),
    Str(Seq<char>),
    Eof,
}

impl View for Token {
    type V = TokenModel;

    open spec fn view(&self) -> TokenModel {
        match self {
            Token::LParen => TokenModel::LParen,
            Token::RParen => TokenModel::RParen,
            Token::VectorOpen => TokenModel::VectorOpen,
            Token::VectorClose => TokenModel::VectorClose,
            Token::Quote => TokenModel::Quote,
            Token::Quasiquote => TokenModel::Quasiquote,
            Token::Unquote => TokenModel::Unquote,
            Token::UnquoteSplicing => TokenModel::UnquoteSplicing,
            Token::Symbol(s) => TokenModel::Symbol(s@),
            Token::Number(n) => TokenModel::Number(n@),
            Token::String(StringType::Basic(s)) => TokenModel::Str(s@),
            Token::Eof => TokenModel::Eof,
        }
    }
}

impl Token {
    /// A copy of this token.
    pub fn copy(&self) -> (r: Token)
        ensures
            r@ == self@,
    {
        match self {
            Token::LParen => Token::LParen,
            Token::RParen => Token::RParen,
            Token::VectorOpen => Token::VectorOpen,
            Token::VectorClose => Token::VectorClose,
            Token::Quote => Token::Quote,
            Token::Quasiquote => Token::Quasiquote,
            Token::Unquote => Token::Unquote,
            Token::UnquoteSplicing => Token::UnquoteSplicing,
            Token::Symbol(s) => Token::Symbol(s.clone()),
            Token::Number(n) => Token::Number(n.copy()),
            Token::String(StringType::Basic(s)) => Token::String(StringType::Basic(s.clone())),
            Token::Eof => Token::Eof,
        }
    }

    /// Whether this is the end-of-input token.
    pub fn is_eof(&self) -> (r: bool)
        ensures
            r == (self@ is Eof),
    {
        match self {
            Token::Eof => true,
            _ => false,
        }
    }
}

/// The outcome of reading from a position: a result and the position after.
pub type LexOutcome<T> = (Result<T, Seq<char>>, int);

// ============================================================================
// The lexical grammar
// ============================================================================

/// The character at `p`, or `'\0'` past the end.
pub open spec fn cur(s: Seq<char>, p: int) -> char {
    if 0 <= p < s.len() {
        s[p]
    } else {
        '\0'
    }
}

/// One step forward, never past the end.
pub open spec fn adv(s: Seq<char>, p: int) -> int {
    if p < s.len() {
        p + 1
    } else {
        p
    }
}

/// The position after a comment that runs from `p`: just past the next
/// newline, or the end of the input.
pub open spec fn comment_end(s: Seq<char>, p: int) -> int
    decreases s.len() - p,
{
    if p < 0 || p >= s.len() {
        s.len() as int
    } else if s[p] == '\n' {
        p + 1
    } else {
        comment_end(s, p + 1)
    }
}

pub proof fn lemma_comment_end(s: Seq<char>, p: int)
    requires
        0 <= p <= s.len(),
    ensures
        p <= comment_end(s, p) <= s.len(),
        p < s.len() ==> p < comment_end(s, p),
    decreases s.len() - p,
{
    if p < s.len() && s[p] != '\n' {
        lemma_comment_end(s, p + 1);
    }
}

/// The first position at or after `p` that is neither white space nor inside
/// a `;` comment.
pub open spec fn skip_ws(s: Seq<char>, p: int) -> int
    decreases s.len() - p,
{
    if 0 <= p < s.len() && spec_is_whitespace(s[p]) {
        skip_ws(s, p + 1)
    } else if 0 <= p < s.len() && s[p] == ';' {
        proof {
            lemma_comment_end(s, p);
        }
        skip_ws(s, comment_end(s, p))
    } else {
        p
    }
}

pub proof fn lemma_skip_ws(s: Seq<char>, p: int)
    requires
        0 <= p <= s.len(),
    ensures
        p <= skip_ws(s, p) <= s.len(),
        skip_ws(s, p) < s.len() ==> !spec_is_whitespace(s[skip_ws(s, p)]) && s[skip_ws(s, p)]
            != ';',
    decreases s.len() - p,
{
    if p < s.len() && spec_is_whitespace(s[p]) {
        lemma_skip_ws(s, p + 1);
    } else if p < s.len() && s[p] == ';' {
        lemma_comment_end(s, p);
        lemma_skip_ws(s, comment_end(s, p));
    }
}

/// The message of a failed expectation.
pub open spec fn expected_message(expected: char, found: char) -> Seq<char> {
    "Expected '"@ + seq![expected] + "', found '"@ + seq![found] + "'"@
}

/// The number of consecutive ASCII hex digits from `i`.
pub open spec fn hex_run(s: Seq<char>, i: int) -> nat
    decreases s.len() - i,
{
    if 0 <= i < s.len() && spec_is_ascii_hexdigit(s[i]) {
        1 + hex_run(s, i + 1)
    } else {
        0
    }
}

/// The value of a string of hex digits.
pub open spec fn hex_value(t: Seq<char>) -> nat
    decreases t.len(),
{
    if t.len() == 0 {
        0
    } else {
        hex_value(t.drop_last()) * 16 + spec_hex_digit_value(t.last())
    }
}

/// `\u{...}` after the `u`: braces around hex digits naming a Unicode scalar
/// value.
pub open spec fn spec_unicode_escape(s: Seq<char>, k: int) -> LexOutcome<char> {
    if cur(s, k) != '{' {
        (Err(expected_message('{', cur(s, k))), k)
    } else {
        let m = k + 1;
        let e = m + hex_run(s, m);
        if e < s.len() && s[e] != '}' {
            (Err("Invalid hex digit in unicode escape"@), e)
        } else if e >= s.len() {
            (Err(expected_message('}', '\0')), e)
        } else {
            let hex = s.subrange(m, e);
            let v = hex_value(hex);
            if hex.len() == 0 {
                (
                    Err(
                        "Invalid unicode code point: "@
                            + "cannot parse integer from empty string"@,
                    ),
                    e + 1,
                )
            } else if v > u32::MAX {
                (
                    Err(
                        "Invalid unicode code point: "@
                            + "number too large to fit in target type"@,
                    ),
                    e + 1,
                )
            } else if v > 0x10FFFF || (0xD800 <= v <= 0xDFFF) {
                (Err("Invalid unicode code point: "@ + decimal(v)), e + 1)
            } else {
                (Ok(v as char), e + 1)
            }
        }
    }
}

/// `\xHH` after the `x`: exactly two hex digits, read as a byte.
pub open spec fn spec_hex_escape(s: Seq<char>, k: int) -> LexOutcome<char> {
    if !spec_is_ascii_hexdigit(cur(s, k)) {
        (Err("Invalid hex digit in escape sequence"@), k)
    } else if !spec_is_ascii_hexdigit(cur(s, k + 1)) {
        (Err("Invalid hex digit in escape sequence"@), k + 1)
    } else {
        (
            Ok(
                (spec_hex_digit_value(cur(s, k)) * 16 + spec_hex_digit_value(
                    cur(s, k + 1),
                )) as char,
            ),
            k + 2,
        )
    }
}

/// The escape sequence whose letter is at `k` (just after a backslash).
pub open spec fn spec_escape(s: Seq<char>, k: int) -> LexOutcome<char> {
    let c = cur(s, k);
    let k1 = adv(s, k);
    if c == 'n' {
        (Ok('\n'), k1)
    } else if c == 't' {
        (Ok('\t'), k1)
    } else if c == 'r' {
        (Ok('\r'), k1)
    } else if c == '\\' {
        (Ok('\\'), k1)
    } else if c == '"' {
        (Ok('"'), k1)
    } else if c == '\'' {
        (Ok('\''), k1)
    } else if c == '0' {
        (Ok('\0'), k1)
    } else if c == 'u' {
        spec_unicode_escape(s, k1)
    } else if c == 'x' {
        spec_hex_escape(s, k1)
    } else {
        (Err("Unknown escape sequence: \\"@ + seq![c]), k1)
    }
}

pub proof fn lemma_escape_advances(s: Seq<char>, k: int)
    requires
        0 <= k <= s.len(),
    ensures
        k <= spec_escape(s, k).1 <= s.len(),
{
    lemma_hex_run(s, adv(s, k) + 1);
}

pub proof fn lemma_hex_run(s: Seq<char>, i: int)
    requires
        0 <= i,
    ensures
        i + hex_run(s, i) <= s.len() || hex_run(s, i) == 0,
    decreases s.len() - i,
{
    if 0 <= i < s.len() && spec_is_ascii_hexdigit(s[i]) {
        lemma_hex_run(s, i + 1);
    }
}

/// The rest of a string literal from `i`, with `acc` read so far.
pub open spec fn spec_string_body(s: Seq<char>, i: int, acc: Seq<char>) -> LexOutcome<
    TokenModel,
>
    decreases s.len() - i,
{
    if i < 0 || i >= s.len() {
        (Err("Unterminated string"@), i)
    } else if s[i] == '"' {
        (Ok(TokenModel::Str(acc)), i + 1)
    } else if s[i] == '\\' {
        let (e, j) = spec_escape(s, i + 1);
        proof {
            lemma_escape_advances(s, i + 1);
        }
        match e {
            Ok(c) => spec_string_body(s, j, acc.push(c)),
            Err(m) => (Err(m), j),
        }
    } else {
        spec_string_body(s, i + 1, acc.push(s[i]))
    }
}

/// A string literal starting at its opening quote `q`.
pub open spec fn spec_read_string(s: Seq<char>, q: int) -> LexOutcome<TokenModel> {
    if cur(s, q) != '"' {
        (Err("Not a string"@), q)
    } else {
        spec_string_body(s, q + 1, Seq::empty())
    }
}

/// Characters that may continue a number: digits, one `.` or one `/`, and an
/// exponent marker (with an optional sign after it).
pub open spec fn spec_number_scan(s: Seq<char>, i: int, dot: bool, slash: Option<int>) -> (
    int,
    bool,
    Option<int>,
)
    decreases s.len() - i,
{
    if i < 0 || i >= s.len() {
        (i, dot, slash)
    } else {
        let ch = s[i];
        if char_numeric(ch) {
            spec_number_scan(s, i + 1, dot, slash)
        } else if ch == '.' && !dot && slash is None {
            spec_number_scan(s, i + 1, true, slash)
        } else if ch == '/' && !dot && slash is None {
            spec_number_scan(s, i + 1, dot, Some(i))
        } else if (ch == 'e' || ch == 'E') && slash is None {
            let j = if i + 1 < s.len() && (s[i + 1] == '+' || s[i + 1] == '-') {
                i + 2
            } else {
                i + 1
            };
            spec_number_scan(s, j, true, slash)
        } else {
            (i, dot, slash)
        }
    }
}

/// A number, or a symbol that merely starts like one, beginning at `q`.
pub open spec fn spec_read_number(s: Seq<char>, q: int) -> LexOutcome<TokenModel> {
    let start = if cur(s, q) == '-' {
        q + 1
    } else {
        q
    };
    let (end, dot, slash) = spec_number_scan(s, start, false, None);
    let text = s.subrange(q, end);
    let tok = match slash {
        Some(k) => match (
            spec_parse_i64(s.subrange(q, k)),
            spec_parse_i64(s.subrange(k + 1, end)),
        ) {
            (Some(n), Some(d)) => match spec_make_ratio(n, d) {
                Ok(r) => TokenModel::Number(r),
                Err(_) => TokenModel::Symbol(text),
            },
            _ => TokenModel::Symbol(text),
        },
        None => if dot {
            if spec_decimal_float_syntax(text) {
                TokenModel::Number(NumberModel::Float(text))
            } else {
                TokenModel::Symbol(text)
            }
        } else {
            match spec_parse_i64(text) {
                Some(n) => TokenModel::Number(NumberModel::Int(n)),
                None => TokenModel::Symbol(text),
            }
        },
    };
    (Ok(tok), end)
}

/// Characters that may appear in a symbol (besides the `/` separator).
pub open spec fn spec_is_symbol_char(c: char) -> bool {
    char_alphanumeric(c) || c == '-' || c == '_' || c == '+' || c == '*' || c == '!' || c
        == '?' || c == '<' || c == '>' || c == '=' || c == '%'
}

/// Characters that end a symbol whatever else holds of them.
pub open spec fn spec_is_delimiter(c: char) -> bool {
    spec_is_whitespace(c) || c == '(' || c == ')' || c == '\'' || c == '<' || c == '>' || c
        == '[' || c == ']' || c == ':'
}

pub open spec fn spec_symbol_continues(c: char) -> bool {
    !spec_is_delimiter(c) && (spec_is_symbol_char(c) || c == '/')
}

/// The number of characters from `i` that continue a symbol.
pub open spec fn symbol_run(s: Seq<char>, i: int) -> nat
    decreases s.len() - i,
{
    if 0 <= i < s.len() && spec_symbol_continues(s[i]) {
        1 + symbol_run(s, i + 1)
    } else {
        0
    }
}

/// A symbol from `q`: the longest run of symbol characters (possibly empty).
pub open spec fn spec_read_symbol(s: Seq<char>, q: int) -> LexOutcome<TokenModel> {
    let end = q + symbol_run(s, q);
    (Ok(TokenModel::Symbol(s.subrange(q, end))), end)
}

/// The next token at or after `p`, and the position after it.
pub open spec fn spec_next_token(s: Seq<char>, p: int) -> LexOutcome<TokenModel> {
    let q = skip_ws(s, p);
    if q >= s.len() {
        (Ok(TokenModel::Eof), q)
    } else {
        let ch = s[q];
        let next = cur(s, q + 1);
        if ch == '(' {
            (Ok(TokenModel::LParen), q + 1)
        } else if ch == ')' {
            (Ok(TokenModel::RParen), q + 1)
        } else if ch == '\'' {
            (Ok(TokenModel::Quote), q + 1)
        } else if ch == '`' {
            (Ok(TokenModel::Quasiquote), q + 1)
        } else if ch == ',' {
            if next == '@' {
                (Ok(TokenModel::UnquoteSplicing), q + 2)
            } else {
                (Ok(TokenModel::Unquote), q + 1)
            }
        } else if ch == '<' {
            if next == '<' {
                (Ok(TokenModel::VectorOpen), q + 2)
            } else if next == '=' {
                (Ok(TokenModel::Symbol("<="@)), q + 2)
            } else {
                (Ok(TokenModel::Symbol("<"@)), q + 1)
            }
        } else if ch == '>' {
            if next == '>' {
                (Ok(TokenModel::VectorClose), q + 2)
            } else if next == '=' {
                (Ok(TokenModel::Symbol(">="@)), q + 2)
            } else {
                (Ok(TokenModel::Symbol(">"@)), q + 1)
            }
        } else if ch == '"' || ch == '$' || ch == '#' || ch == '~' {
            spec_read_string(s, q)
        } else if char_numeric(ch) {
            spec_read_number(s, q)
        } else if ch == '-' {
            if char_numeric(next) {
                spec_read_number(s, q)
            } else {
                spec_read_symbol(s, q)
            }
        } else {
            spec_read_symbol(s, q)
        }
    }
}

/// An executable token result agrees with a model outcome's result.
pub open spec fn token_result_matches(r: Result<Token, String>, m: Result<TokenModel, Seq<char>>) -> bool {
    match (r, m) {
        (Ok(t), Ok(tm)) => t@ == tm,
        (Err(e), Err(em)) => e@ == em,
        _ => false,
    }
}

pub open spec fn char_result_matches(r: Result<char, String>, m: Result<char, Seq<char>>) -> bool {
    match (r, m) {
        (Ok(c), Ok(cm)) => c == cm,
        (Err(e), Err(em)) => e@ == em,
        _ => false,
    }
}

pub open spec fn opt_pos(o: Option<usize>) -> Option<int> {
    match o {
        Some(k) => Some(k as int),
        None => None,
    }
}

proof fn lemma_hex_value_grows(t: Seq<char>, c: char)
    requires
        spec_is_ascii_hexdigit(c),
    ensures
        hex_value(t.push(c)) == hex_value(t) * 16 + spec_hex_digit_value(c),
        hex_value(t.push(c)) >= hex_value(t),
{
    assert(t.push(c).drop_last() =~= t);
}

// ============================================================================
// Lexer
// ============================================================================

pub struct Lexer {
    input: Vec<char>,
    position: usize,
}

impl Lexer {
    #[verifier::type_invariant]
    spec fn inv(self) -> bool {
        self.position <= self.input.len()
    }

    /// The characters being read.
    pub closed spec fn chars(self) -> Seq<char> {
        self.input@
    }

    /// The current reading position.
    pub closed spec fn pos(self) -> int {
        self.position as int
    }

    pub fn new(input: &str) -> (r: Self)
        ensures
            r.chars() == input@,
            r.pos() == 0,
    {
        Lexer { input: chars_of(input), position: 0 }
    }

    /// The current reading position.
    pub fn position(&self) -> (r: usize)
        ensures
            r == self.pos(),
    {
        self.position
    }

    fn current_char(&self) -> (c: char)
        ensures
            c == cur(self.chars(), self.pos()),
    {
        if self.position < self.input.len() {
            self.input[self.position]
        } else {
            '\0'
        }
    }

    fn peek_ahead(&self, n: usize) -> (c: char)
        ensures
            c == cur(self.chars(), self.pos() + n),
    {
        proof {
            use_type_invariant(self);
        }
        if n < self.input.len() - self.position {
            self.input[self.position + n]
        } else {
            '\0'
        }
    }

    fn advance(&mut self)
        ensures
            final(self).chars() == old(self).chars(),
            final(self).pos() == adv(old(self).chars(), old(self).pos()),
    {
        if self.position < self.input.len() {
            self.position += 1;
        }
    }

    fn is_eof(&self) -> (r: bool)
        ensures
            r == (self.pos() >= self.chars().len()),
    {
        self.position >= self.input.len()
    }

    fn skip_whitespace(&mut self)
        ensures
            final(self).chars() == old(self).chars(),
            final(self).pos() == skip_ws(old(self).chars(), old(self).pos()),
    {
        let ghost s = self.chars();
        let ghost p0 = self.pos();
        proof {
            use_type_invariant(&*self);
        }
        loop
            invariant
                self.chars() == s,
                0 <= self.pos() <= s.len(),
                skip_ws(s, self.pos()) == skip_ws(s, p0),
            ensures
                self.chars() == s,
                self.pos() == skip_ws(s, p0),
            decreases s.len() - self.pos(),
        {
            let ghost before = self.pos();
            while !self.is_eof() && is_whitespace(self.current_char())
                invariant
                    self.chars() == s,
                    before <= self.pos() <= s.len(),
                    skip_ws(s, self.pos()) == skip_ws(s, p0),
                decreases s.len() - self.pos(),
            {
                self.advance();
            }
            if self.current_char() == ';' {
                proof {
                    use_type_invariant(&*self);
                    lemma_comment_end(s, self.pos());
                }
                self.skip_comment();
            } else {
                proof {
                    use_type_invariant(&*self);
                }
                break;
            }
        }
    }

    fn skip_comment(&mut self)
        ensures
            final(self).chars() == old(self).chars(),
            final(self).pos() == comment_end(old(self).chars(), old(self).pos()),
    {
        let ghost s = self.chars();
        let ghost p0 = self.pos();
        proof {
            use_type_invariant(&*self);
        }
        while !self.is_eof() && self.current_char() != '\n'
            invariant
                self.chars() == s,
                comment_end(s, self.pos()) == comment_end(s, p0),
            decreases s.len() - self.pos(),
        {
            proof {
                use_type_invariant(&*self);
            }
            self.advance();
        }
        proof {
            use_type_invariant(&*self);
        }
        if self.current_char() == '\n' {
            self.advance();
        }
    }

    fn expect_char(&mut self, expected: char) -> (r: Result<(), String>)
        ensures
            final(self).chars() == old(self).chars(),
            cur(old(self).chars(), old(self).pos()) == expected ==> (r is Ok && final(self).pos()
                == adv(old(self).chars(), old(self).pos())),
            cur(old(self).chars(), old(self).pos()) != expected ==> (final(self).pos() == old(
                self,
            ).pos() && (r matches Err(m) && m@ == expected_message(
                expected,
                cur(old(self).chars(), old(self).pos()),
            ))),
    {
        let c = self.current_char();
        if c == expected {
            self.advance();
            Ok(())
        } else {
            let mut m = String::from_str("Expected '");
            push_char(&mut m, expected);
            m.append("', found '");
            push_char(&mut m, c);
            m.append("'");
            Err(m)
        }
    }

    // ========================================================================
    // String Parsing
    // ========================================================================

    /// Main entry point for string parsing - only basic strings supported
    fn read_string_or_sigil(&mut self) -> (r: Result<Token, String>)
        ensures
            final(self).chars() == old(self).chars(),
            token_result_matches(r, spec_read_string(old(self).chars(), old(self).pos()).0),
            final(self).pos() == spec_read_string(old(self).chars(), old(self).pos()).1,
    {
        if self.current_char() == '"' {
            self.read_basic_string()
        } else {
            Err(String::from_str("Not a string"))
        }
    }

    /// Read basic string with escape sequences
    fn read_basic_string(&mut self) -> (r: Result<Token, String>)
        requires
            cur(old(self).chars(), old(self).pos()) == '"',
        ensures
            final(self).chars() == old(self).chars(),
            token_result_matches(r, spec_read_string(old(self).chars(), old(self).pos()).0),
            final(self).pos() == spec_read_string(old(self).chars(), old(self).pos()).1,
    {
        let ghost s = self.chars();
        let ghost p0 = self.pos();
        proof {
            use_type_invariant(&*self);
        }
        let _ = self.expect_char('"');
        let ghost start = self.pos();
        let mut content = String::new();
        while self.current_char() != '"' && !self.is_eof()
            invariant
                self.chars() == s,
                start <= self.pos() <= s.len(),
                spec_string_body(s, self.pos(), content@) == spec_string_body(
                    s,
                    start,
                    Seq::empty(),
                ),
                spec_read_string(s, p0) == spec_string_body(s, start, Seq::empty()),
                s == old(self).chars(),
                p0 == old(self).pos(),
            decreases s.len() - self.pos(),
        {
            let ghost i = self.pos();
            if self.current_char() == '\\' {
                self.advance();
                proof {
                    lemma_escape_advances(s, i + 1);
                }
                let e = self.read_escape_sequence();
                proof {
                    use_type_invariant(&*self);
                }
                match e {
                    Ok(c) => {
                        push_char(&mut content, c);
                    },
                    Err(m) => {
                        return Err(m);
                    },
                }
            } else {
                let c = self.current_char();
                push_char(&mut content, c);
                self.advance();
            }
        }
        if self.is_eof() {
            return Err(String::from_str("Unterminated string"));
        }
        let _ = self.expect_char('"');
        Ok(Token::String(StringType::Basic(content)))
    }

    /// Read escape sequence after backslash
    fn read_escape_sequence(&mut self) -> (r: Result<char, String>)
        ensures
            final(self).chars() == old(self).chars(),
            char_result_matches(r, spec_escape(old(self).chars(), old(self).pos()).0),
            final(self).pos() == spec_escape(old(self).chars(), old(self).pos()).1,
    {
        let c = self.current_char();
        self.advance();
        if c == 'n' {
            Ok('\n')
        } else if c == 't' {
            Ok('\t')
        } else if c == 'r' {
            Ok('\r')
        } else if c == '\\' {
            Ok('\\')
        } else if c == '"' {
            Ok('"')
        } else if c == '\'' {
            Ok('\'')
        } else if c == '0' {
            Ok('\0')
        } else if c == 'u' {
            self.read_unicode_escape()
        } else if c == 'x' {
            self.read_hex_escape()
        } else {
            let mut m = String::from_str("Unknown escape sequence: \\");
            push_char(&mut m, c);
            assert(m@ =~= "Unknown escape sequence: \\"@ + seq![c]);
            Err(m)
        }
    }

    /// Read Unicode escape: \u{1F600}
    fn read_unicode_escape(&mut self) -> (r: Result<char, String>)
        ensures
            final(self).chars() == old(self).chars(),
            char_result_matches(r, spec_unicode_escape(old(self).chars(), old(self).pos()).0),
            final(self).pos() == spec_unicode_escape(old(self).chars(), old(self).pos()).1,
    {
        let ghost s = self.chars();
        let ghost k = self.pos();
        proof {
            use_type_invariant(&*self);
        }
        match self.expect_char('{') {
            Err(e) => {
                return Err(e);
            },
            Ok(()) => {},
        }
        let ghost m = self.pos();
        assert(m == k + 1);
        // the value read so far, capped just above the range of u32
        let mut acc: u64 = 0;
        let mut count: usize = 0;
        assert(s.subrange(m, m) =~= Seq::<char>::empty());
        while self.current_char() != '}' && !self.is_eof()
            invariant
                self.chars() == s,
                m <= self.pos() <= s.len(),
                count == self.pos() - m,
                hex_run(s, m) == count + hex_run(s, self.pos()),
                s == old(self).chars(),
                k == old(self).pos(),
                m == k + 1,
                cur(s, k) == '{',
                acc as nat == if hex_value(s.subrange(m, self.pos())) < 0x1_0000_0000 {
                    hex_value(s.subrange(m, self.pos()))
                } else {
                    0x1_0000_0000
                },
            decreases s.len() - self.pos(),
        {
            let c = self.current_char();
            if !is_ascii_hexdigit(c) {
                return Err(String::from_str("Invalid hex digit in unicode escape"));
            }
            let ghost i = self.pos();
            proof {
                lemma_hex_value_grows(s.subrange(m, i), c);
                assert(s.subrange(m, i + 1) =~= s.subrange(m, i).push(c));
            }
            let d = hex_digit_value(c) as u64;
            if acc < 0x1_0000_0000 {
                let next = acc * 16 + d;
                acc = if next < 0x1_0000_0000 {
                    next
                } else {
                    0x1_0000_0000
                };
            }
            count = count + 1;
            self.advance();
        }
        let ghost e = self.pos();
        proof {
            if e < s.len() {
                assert(!spec_is_ascii_hexdigit(s[e]));
            }
        }
        match self.expect_char('}') {
            Err(err) => {
                return Err(err);
            },
            Ok(()) => {},
        }
        if count == 0 {
            let mut msg = String::from_str("Invalid unicode code point: ");
            msg.append("cannot parse integer from empty string");
            return Err(msg);
        }
        if acc >= 0x1_0000_0000 {
            let mut msg = String::from_str("Invalid unicode code point: ");
            msg.append("number too large to fit in target type");
            return Err(msg);
        }
        let code_point = acc as u32;
        assert(s.subrange(m, e) =~= s.subrange(m, e));
        assert(acc == hex_value(s.subrange(m, e)));
        match char_from_u32(code_point) {
            Some(c) => {
                assert(c == (hex_value(s.subrange(m, e)) as char));
                Ok(c)
            },
            None => {
                let mut msg = String::from_str("Invalid unicode code point: ");
                push_decimal(&mut msg, acc);
                Err(msg)
            },
        }
    }

    /// Read hex escape: \xFF
    fn read_hex_escape(&mut self) -> (r: Result<char, String>)
        ensures
            final(self).chars() == old(self).chars(),
            char_result_matches(r, spec_hex_escape(old(self).chars(), old(self).pos()).0),
            final(self).pos() == spec_hex_escape(old(self).chars(), old(self).pos()).1,
    {
        let hi = self.current_char();
        if !is_ascii_hexdigit(hi) {
            return Err(String::from_str("Invalid hex digit in escape sequence"));
        }
        self.advance();
        let lo = self.current_char();
        if !is_ascii_hexdigit(lo) {
            return Err(String::from_str("Invalid hex digit in escape sequence"));
        }
        self.advance();
        let byte = (hex_digit_value(hi) * 16 + hex_digit_value(lo)) as u8;
        Ok(char_from_u8(byte))
    }

    /// Check if character is valid in symbol (excluding '/' for namespace separator)
    fn is_symbol_char(&self, c: char) -> (r: bool)
        ensures
            r == spec_is_symbol_char(c),
    {
        is_alphanumeric(c) || c == '-' || c == '_' || c == '+' || c == '*' || c == '!' || c
            == '?' || c == '<' || c == '>' || c == '=' || c == '%'
    }

    /// Check if character is valid in symbol (including '/')
    fn is_symbol_char_with_slash(&self, c: char) -> (r: bool)
        ensures
            r == (spec_is_symbol_char(c) || c == '/'),
    {
        self.is_symbol_char(c) || c == '/'
    }

    // ========================================================================
    // Number and Symbol Parsing
    // ========================================================================

    fn read_number_or_symbol(&mut self) -> (r: Token)
        ensures
            final(self).chars() == old(self).chars(),
            spec_read_number(old(self).chars(), old(self).pos()).0 == Ok::<TokenModel, Seq<char>>(
                r@,
            ),
            final(self).pos() == spec_read_number(old(self).chars(), old(self).pos()).1,
    {
        let ghost s = self.chars();
        proof {
            use_type_invariant(&*self);
        }
        let q = self.position;
        if self.current_char() == '-' {
            self.advance();
        }
        let ghost start = self.pos();
        let mut has_dot = false;
        let mut slash: Option<usize> = None;
        loop
            invariant
                self.chars() == s,
                self.input@ == s,
                q <= start <= self.pos() <= s.len(),
                slash matches Some(k) ==> q <= k < self.pos(),
                spec_number_scan(s, self.pos(), has_dot, opt_pos(slash))
                    == spec_number_scan(s, start, false, None),
            ensures
                self.chars() == s,
                self.input@ == s,
                q <= start <= self.pos() <= s.len(),
                slash matches Some(k) ==> q <= k < self.pos(),
                spec_number_scan(s, start, false, None) == (
                    self.pos(),
                    has_dot,
                    opt_pos(slash),
                ),
            decreases s.len() - self.pos(),
        {
            proof {
                use_type_invariant(&*self);
            }
            if self.is_eof() {
                break;
            }
            let ch = self.current_char();
            if is_numeric(ch) {
                self.advance();
            } else if ch == '.' && !has_dot && slash.is_none() {
                has_dot = true;
                self.advance();
            } else if ch == '/' && !has_dot && slash.is_none() {
                slash = Some(self.position);
                self.advance();
            } else if (ch == 'e' || ch == 'E') && slash.is_none() {
                self.advance();
                if self.position < self.input.len() && (self.input[self.position] == '+'
                    || self.input[self.position] == '-') {
                    self.advance();
                }
                has_dot = true;
            } else {
                break;
            }
        }
        let end = self.position;
        match slash {
            Some(k) => {
                let numerator = parse_i64(&self.input, q, k);
                let denominator = parse_i64(&self.input, k + 1, end);
                match (numerator, denominator) {
                    (Some(n), Some(d)) => match NumericType::make_ratio(n, d) {
                        Ok(ratio) => {
                            return Token::Number(ratio);
                        },
                        Err(_) => {},
                    },
                    _ => {},
                }
                Token::Symbol(string_from_chars(&self.input, q, end))
            },
            None => {
                if has_dot {
                    if is_decimal_float(&self.input, q, end) {
                        Token::Number(NumericType::Float(string_from_chars(&self.input, q, end)))
                    } else {
                        Token::Symbol(string_from_chars(&self.input, q, end))
                    }
                } else {
                    match parse_i64(&self.input, q, end) {
                        Some(n) => Token::Number(NumericType::Int(n)),
                        None => Token::Symbol(string_from_chars(&self.input, q, end)),
                    }
                }
            },
        }
    }

    fn read_symbol(&mut self) -> (r: Token)
        ensures
            final(self).chars() == old(self).chars(),
            spec_read_symbol(old(self).chars(), old(self).pos()).0 == Ok::<TokenModel, Seq<char>>(
                r@,
            ),
            final(self).pos() == spec_read_symbol(old(self).chars(), old(self).pos()).1,
    {
        let ghost s = self.chars();
        proof {
            use_type_invariant(&*self);
        }
        let start = self.position;
        loop
            invariant
                self.chars() == s,
                self.input@ == s,
                start <= self.pos() <= s.len(),
                symbol_run(s, start as int) == (self.pos() - start) + symbol_run(s, self.pos()),
            ensures
                self.chars() == s,
                self.input@ == s,
                start <= self.pos() <= s.len(),
                symbol_run(s, start as int) == self.pos() - start,
            decreases s.len() - self.pos(),
        {
            proof {
                use_type_invariant(&*self);
            }
            if self.is_eof() {
                break;
            }
            let ch = self.current_char();
            if is_whitespace(ch) || ch == '(' || ch == ')' || ch == '\'' || ch == '<' || ch
                == '>' || ch == '[' || ch == ']' || ch == ':' {
                break;
            }
            if self.is_symbol_char_with_slash(ch) {
                self.advance();
            } else {
                break;
            }
        }
        Token::Symbol(string_from_chars(&self.input, start, self.position))
    }

    // ========================================================================
    // Main Tokenization
    // ========================================================================

    /// Reads the next token, skipping white space and comments before it.
    pub fn next_token(&mut self) -> (r: Result<Token, String>)
        ensures
            0 <= old(self).pos() <= old(self).chars().len(),
            final(self).chars() == old(self).chars(),
            token_result_matches(r, spec_next_token(old(self).chars(), old(self).pos()).0),
            final(self).pos() == spec_next_token(old(self).chars(), old(self).pos()).1,
    {
        proof {
            use_type_invariant(&*self);
            lemma_skip_ws(self.chars(), self.pos());
        }
        self.skip_whitespace();
        if self.is_eof() {
            return Ok(Token::Eof);
        }
        let ch = self.current_char();
        if ch == '(' {
            self.advance();
            Ok(Token::LParen)
        } else if ch == ')' {
            self.advance();
            Ok(Token::RParen)
        } else if ch == '\'' {
            self.advance();
            Ok(Token::Quote)
        } else if ch == '`' {
            self.advance();
            Ok(Token::Quasiquote)
        } else if ch == ',' {
            if self.peek_ahead(1) == '@' {
                self.advance();
                self.advance();
                Ok(Token::UnquoteSplicing)
            } else {
                self.advance();
                Ok(Token::Unquote)
            }
        } else if ch == '<' {
            if self.peek_ahead(1) == '<' {
                self.advance();
                self.advance();
                Ok(Token::VectorOpen)
            } else if self.peek_ahead(1) == '=' {
                self.advance();
                self.advance();
                Ok(Token::Symbol(String::from_str("<=")))
            } else {
                self.advance();
                Ok(Token::Symbol(String::from_str("<")))
            }
        } else if ch == '>' {
            if self.peek_ahead(1) == '>' {
                self.advance();
                self.advance();
                Ok(Token::VectorClose)
            } else if self.peek_ahead(1) == '=' {
                self.advance();
                self.advance();
                Ok(Token::Symbol(String::from_str(">=")))
            } else {
                self.advance();
                Ok(Token::Symbol(String::from_str(">")))
            }
        } else if ch == '"' || ch == '$' || ch == '#' || ch == '~' {
            self.read_string_or_sigil()
        } else if is_numeric(ch) {
            Ok(self.read_number_or_symbol())
        } else if ch == '-' {
            if is_numeric(self.peek_ahead(1)) {
                Ok(self.read_number_or_symbol())
            } else {
                Ok(self.read_symbol())
            }
        } else {
            Ok(self.read_symbol())
        }
    }
}


// ============================================================================
// Laws of the tokenizer
// ============================================================================

proof fn lemma_string_body_bounds(s: Seq<char>, i: int, acc: Seq<char>)
    requires
        0 <= i <= s.len(),
    ensures
        i <= spec_string_body(s, i, acc).1 <= s.len(),
        spec_string_body(s, i, acc).0 is Ok ==> i < spec_string_body(s, i, acc).1,
    decreases s.len() - i,
{
    if i < s.len() && s[i] != '"' && s[i] == '\\' {
        lemma_escape_advances(s, i + 1);
        let (e, j) = spec_escape(s, i + 1);
        if e is Ok {
            lemma_string_body_bounds(s, j, acc.push(e->Ok_0));
        }
    } else if i < s.len() && s[i] != '"' {
        lemma_string_body_bounds(s, i + 1, acc.push(s[i]));
    }
}

proof fn lemma_number_scan_bounds(s: Seq<char>, i: int, dot: bool, slash: Option<int>)
    requires
        0 <= i <= s.len(),
    ensures
        i <= spec_number_scan(s, i, dot, slash).0 <= s.len(),
        0 <= i < s.len() && char_numeric(s[i]) ==> i < spec_number_scan(s, i, dot, slash).0,
    decreases s.len() - i,
{
    if i < s.len() {
        let ch = s[i];
        if char_numeric(ch) {
            lemma_number_scan_bounds(s, i + 1, dot, slash);
        } else if ch == '.' && !dot && slash is None {
            lemma_number_scan_bounds(s, i + 1, true, slash);
        } else if ch == '/' && !dot && slash is None {
            lemma_number_scan_bounds(s, i + 1, dot, Some(i));
        } else if (ch == 'e' || ch == 'E') && slash is None {
            let j = if i + 1 < s.len() && (s[i + 1] == '+' || s[i + 1] == '-') {
                i + 2
            } else {
                i + 1
            };
            lemma_number_scan_bounds(s, j, true, slash);
        }
    }
}

proof fn lemma_symbol_run_bounds(s: Seq<char>, i: int)
    requires
        0 <= i <= s.len(),
    ensures
        i + symbol_run(s, i) <= s.len(),
    decreases s.len() - i,
{
    if i < s.len() && spec_symbol_continues(s[i]) {
        lemma_symbol_run_bounds(s, i + 1);
    }
}

/// Reading a token never moves backwards and never leaves the input; a
/// token other than the end of input, read successfully, consumes at least
/// one character unless it is the empty symbol (a character that can start
/// no token).
pub proof fn law_next_token_progress(s: Seq<char>, p: int)
    requires
        0 <= p <= s.len(),
    ensures
        p <= spec_next_token(s, p).1 <= s.len(),
        ({
            let (r, p2) = spec_next_token(s, p);
            r matches Ok(t) && !(t is Eof) && t != TokenModel::Symbol(Seq::<char>::empty())
                ==> p < p2
        }),
{
    lemma_skip_ws(s, p);
    let q = skip_ws(s, p);
    if q < s.len() {
        let ch = s[q];
        if ch == '"' {
            lemma_string_body_bounds(s, q + 1, Seq::empty());
        } else if char_numeric(ch) || (ch == '-' && char_numeric(cur(s, q + 1))) {
            let start = if cur(s, q) == '-' {
                q + 1
            } else {
                q
            };
            lemma_number_scan_bounds(s, start, false, None);
        } else {
            lemma_symbol_run_bounds(s, q);
            let end = q + symbol_run(s, q);
            if end == q {
                assert(s.subrange(q, end) =~= Seq::<char>::empty());
            }
        }
    }
}

/// Characters with which a token can begin: the punctuation the reader
/// knows, the openings of strings, digits, and the characters of symbols.
pub open spec fn spec_token_start(c: char) -> bool {
    c == '(' || c == ')' || c == '\'' || c == '`' || c == ',' || c == '<' || c == '>' || c == '"'
        || c == '$' || c == '#' || c == '~' || char_numeric(c) || spec_symbol_continues(c)
}

/// The empty symbol is read only where the first character after white
/// space and comments can begin no token; so where it can, a token read
/// successfully that is not the end of input consumes at least one
/// character.
pub proof fn law_no_empty_symbol_at_a_token_start(s: Seq<char>, p: int)
    requires
        0 <= p <= s.len(),
        skip_ws(s, p) < s.len() ==> spec_token_start(s[skip_ws(s, p)]),
    ensures
        spec_next_token(s, p).0 != Ok::<TokenModel, Seq<char>>(TokenModel::Symbol(Seq::<char>::empty())),
        ({
            let (r, p2) = spec_next_token(s, p);
            r matches Ok(t) && !(t is Eof) ==> p < p2
        }),
{
    law_next_token_progress(s, p);
    lemma_skip_ws(s, p);
    let q = skip_ws(s, p);
    if q < s.len() {
        let ch = s[q];
        reveal_strlit("<=");
        reveal_strlit(">=");
        reveal_strlit("<");
        reveal_strlit(">");
        if ch == '"' || ch == '$' || ch == '#' || ch == '~' {
            lemma_string_body_not_symbol(s, q + 1, Seq::empty());
        } else if char_numeric(ch) || (ch == '-' && char_numeric(cur(s, q + 1))) {
            let start = if cur(s, q) == '-' {
                q + 1
            } else {
                q
            };
            lemma_number_scan_bounds(s, start, false, None);
        } else if !(ch == '(' || ch == ')' || ch == '\'' || ch == '`' || ch == ',' || ch == '<'
            || ch == '>') {
            assert(spec_symbol_continues(ch));
            assert(symbol_run(s, q) >= 1);
            assert(s.subrange(q, q + symbol_run(s, q)).len() >= 1);
        }
    }
}

/// The end of input is reported exactly when nothing but white space and
/// comments is left, and it is reported at the end of the input.
pub proof fn law_eof_iff_only_blank_left(s: Seq<char>, p: int)
    requires
        0 <= p <= s.len(),
    ensures
        (spec_next_token(s, p).0 == Ok::<TokenModel, Seq<char>>(TokenModel::Eof)) <==> skip_ws(
            s,
            p,
        ) == s.len(),
        skip_ws(s, p) == s.len() ==> spec_next_token(s, p).1 == s.len(),
{
    lemma_skip_ws(s, p);
    let q = skip_ws(s, p);
    if q < s.len() {
        let ch = s[q];
        if ch == '"' {
            lemma_string_body_bounds(s, q + 1, Seq::empty());
            lemma_string_body_never_eof(s, q + 1, Seq::empty());
        }
    }
}

proof fn lemma_string_body_never_eof(s: Seq<char>, i: int, acc: Seq<char>)
    requires
        0 <= i <= s.len(),
    ensures
        !(spec_string_body(s, i, acc).0 matches Ok(t) && t is Eof),
    decreases s.len() - i,
{
    if i < s.len() && s[i] != '"' && s[i] == '\\' {
        lemma_escape_advances(s, i + 1);
        let (e, j) = spec_escape(s, i + 1);
        if e is Ok {
            lemma_string_body_never_eof(s, j, acc.push(e->Ok_0));
        }
    } else if i < s.len() && s[i] != '"' {
        lemma_string_body_never_eof(s, i + 1, acc.push(s[i]));
    }
}

/// Once the end of input is reached, reading again reports the end of input
/// again, at the same position.
pub proof fn law_eof_is_stable(s: Seq<char>, p: int)
    requires
        0 <= p <= s.len(),
        spec_next_token(s, p).0 == Ok::<TokenModel, Seq<char>>(TokenModel::Eof),
    ensures
        spec_next_token(s, spec_next_token(s, p).1) == spec_next_token(s, p),
{
    law_eof_iff_only_blank_left(s, p);
}

/// A symbol read from the input is a stretch of the input itself, taken
/// verbatim and ending where the reading stopped.
pub proof fn law_symbol_is_verbatim(s: Seq<char>, p: int)
    requires
        0 <= p <= s.len(),
        spec_next_token(s, p).0 matches Ok(t) && t is Symbol,
    ensures
        ({
            let (r, p2) = spec_next_token(s, p);
            let q = skip_ws(s, p);
            r matches Ok(TokenModel::Symbol(text)) && text == s.subrange(q, p2)
        }),
{
    lemma_skip_ws(s, p);
    let q = skip_ws(s, p);
    let (r, p2) = spec_next_token(s, p);
    if q < s.len() {
        let ch = s[q];
        if ch == '<' || ch == '>' {
            reveal_strlit("<=");
            reveal_strlit(">=");
            reveal_strlit("<");
            reveal_strlit(">");
            assert(s.subrange(q, p2) =~= r->Ok_0->Symbol_0);
        } else if ch == '"' || ch == '$' || ch == '#' || ch == '~' {
            lemma_string_body_not_symbol(s, q + 1, Seq::empty());
        } else if char_numeric(ch) || (ch == '-' && char_numeric(cur(s, q + 1))) {
            assert(spec_next_token(s, p) == spec_read_number(s, q));
            let start = if cur(s, q) == '-' {
                q + 1
            } else {
                q
            };
            let (end, dot, slash) = spec_number_scan(s, start, false, None);
            assert(p2 == end);
        }
    }
}

proof fn lemma_string_body_not_symbol(s: Seq<char>, i: int, acc: Seq<char>)
    requires
        0 <= i <= s.len(),
    ensures
        !(spec_string_body(s, i, acc).0 matches Ok(t) && t is Symbol),
    decreases s.len() - i,
{
    if i < s.len() && s[i] != '"' && s[i] == '\\' {
        lemma_escape_advances(s, i + 1);
        let (e, j) = spec_escape(s, i + 1);
        if e is Ok {
            lemma_string_body_not_symbol(s, j, acc.push(e->Ok_0));
        }
    } else if i < s.len() && s[i] != '"' {
        lemma_string_body_not_symbol(s, i + 1, acc.push(s[i]));
    }
}

/// Where a lexer stands after some calls of `next_token` from the start of
/// the input: still reading at a position; ended, by the end of input or an
/// error; or stuck, having read the empty symbol at a position, which every
/// later call reads again.
pub enum LexRun {
    Reading(int),
    Ended,
    Stuck(int),
}

/// The lexer over `s` after `k` calls of `next_token`.
pub open spec fn lex_steps(s: Seq<char>, k: nat) -> LexRun
    decreases k,
{
    if k == 0 {
        LexRun::Reading(0)
    } else {
        match lex_steps(s, (k - 1) as nat) {
            LexRun::Reading(p) => {
                let (r, p2) = spec_next_token(s, p);
                match r {
                    Err(_) => LexRun::Ended,
                    Ok(t) => if t is Eof {
                        LexRun::Ended
                    } else if t == TokenModel::Symbol(Seq::<char>::empty()) {
                        LexRun::Stuck(p)
                    } else {
                        LexRun::Reading(p2)
                    },
                }
            },
            other => other,
        }
    }
}

proof fn lemma_lex_steps(s: Seq<char>, k: nat)
    ensures
        lex_steps(s, k) matches LexRun::Reading(p) ==> k <= p <= s.len() || (k == 0 && p == 0),
        lex_steps(s, k) matches LexRun::Stuck(q) ==> 0 <= q <= s.len() && spec_next_token(s, q).0
            == Ok::<TokenModel, Seq<char>>(TokenModel::Symbol(Seq::<char>::empty())),
    decreases k,
{
    if k > 0 {
        lemma_lex_steps(s, (k - 1) as nat);
        if let LexRun::Reading(p) = lex_steps(s, (k - 1) as nat) {
            law_next_token_progress(s, p);
        }
    }
}

/// Reading tokens one after another from the start of `s` ends, with the
/// end of input or an error, within `s.len() + 1` calls, unless some call
/// stands before a character that can begin no token (there it reads the
/// empty symbol, and reads it again on every later call).
pub proof fn law_lexing_reaches_the_end(s: Seq<char>)
    ensures
        !(lex_steps(s, s.len() + 1) is Reading),
        lex_steps(s, s.len() + 1) matches LexRun::Stuck(q) ==> skip_ws(s, q) < s.len()
            && !spec_token_start(s[skip_ws(s, q)]),
{
    lemma_lex_steps(s, s.len() + 1);
    if let LexRun::Stuck(q) = lex_steps(s, s.len() + 1) {
        if skip_ws(s, q) >= s.len() || spec_token_start(s[skip_ws(s, q)]) {
            law_no_empty_symbol_at_a_token_start(s, q);
        }
    }
}

} // verus!
