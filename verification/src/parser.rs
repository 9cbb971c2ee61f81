//! The reader: turns tokens into values.

use vstd::prelude::*;

use crate::language::{
    AtomType, StringType, SymbolType, Value, ValueModel, VectorValue, cons, list_model,
    values_model,
};
use crate::lexer::{
    Lexer, Token, TokenModel, law_next_token_progress, spec_next_token, token_result_matches,
};

verus! {

// ============================================================================
// The grammar of expressions
// ============================================================================

/// The outcome of reading an expression: a result (with, on success, the
/// value, the token after it and the reading position after that token), or
/// `Stalls` when reading never finishes (a list or vector that holds a
/// character that can start no token, which is read as the empty symbol over
/// and over without moving).
pub enum ParseOutcome {
    Done(Result<(ValueModel, TokenModel, int), Seq<char>>),
    Stalls,
}

/// Tokens that open a nested read.
pub open spec fn tok_rank(t: TokenModel) -> nat {
    match t {
        TokenModel::LParen | TokenModel::VectorOpen | TokenModel::Quote | TokenModel::Quasiquote
        | TokenModel::Unquote | TokenModel::UnquoteSplicing => 1,
        _ => 0,
    }
}

/// The value of a symbol token: `nil` is the empty list, `t` is true.
pub open spec fn symbol_value(name: Seq<char>) -> ValueModel {
    if name == "nil"@ {
        ValueModel::Nil
    } else if name == "t"@ {
        ValueModel::Bool(true)
    } else {
        ValueModel::Symbol(name)
    }
}

/// `(name x)`.
pub open spec fn wrapped(name: Seq<char>, x: ValueModel) -> ValueModel {
    list_model(seq![ValueModel::Symbol(name), x])
}

/// The name a prefix token stands for.
pub open spec fn prefix_name(t: TokenModel) -> Seq<char> {
    match t {
        TokenModel::Quote => "quote"@,
        TokenModel::Quasiquote => "quasiquote"@,
        TokenModel::Unquote => "unquote"@,
        _ => "unquote-splicing"@,
    }
}

/// A value followed by the next token.
pub open spec fn then_next(s: Seq<char>, p: int, v: ValueModel) -> ParseOutcome {
    let (r, p2) = spec_next_token(s, p);
    match r {
        Err(m) => ParseOutcome::Done(Err(m)),
        Ok(t2) => ParseOutcome::Done(Ok((v, t2, p2))),
    }
}

/// The expression whose first token is `t`, the lexer standing at `p`.
pub open spec fn spec_parse_expr(s: Seq<char>, t: TokenModel, p: int) -> ParseOutcome
    decreases s.len() - p, tok_rank(t), 0nat,
{
    if p < 0 || p > s.len() {
        ParseOutcome::Stalls
    } else {
        match t {
            TokenModel::Number(n) => then_next(s, p, ValueModel::Number(n)),
            TokenModel::Str(x) => then_next(s, p, ValueModel::Str(x)),
            TokenModel::Symbol(x) => then_next(s, p, symbol_value(x)),
            TokenModel::Quote | TokenModel::Quasiquote | TokenModel::Unquote
            | TokenModel::UnquoteSplicing => {
                let (r, p2) = spec_next_token(s, p);
                proof {
                    law_next_token_progress(s, p);
                }
                match r {
                    Err(m) => ParseOutcome::Done(Err(m)),
                    Ok(t2) => match spec_parse_expr(s, t2, p2) {
                        ParseOutcome::Done(Ok((x, t3, p3))) => ParseOutcome::Done(
                            Ok((wrapped(prefix_name(t), x), t3, p3)),
                        ),
                        other => other,
                    },
                }
            },
            TokenModel::LParen | TokenModel::VectorOpen => {
                let (r, p2) = spec_next_token(s, p);
                proof {
                    law_next_token_progress(s, p);
                }
                match r {
                    Err(m) => ParseOutcome::Done(Err(m)),
                    Ok(t2) => spec_parse_seq(s, t2, p2, t is VectorOpen, Seq::empty()),
                }
            },
            TokenModel::RParen => ParseOutcome::Done(Err("Unexpected )"@)),
            TokenModel::VectorClose => ParseOutcome::Done(Err("Unexpected >>"@)),
            TokenModel::Eof => ParseOutcome::Done(Err("Unexpected end of input"@)),
        }
    }
}

/// Whether `t` closes a list (or, when `vec`, a vector).
pub open spec fn is_closer(t: TokenModel, vec: bool) -> bool {
    if vec {
        t is VectorClose
    } else {
        t is RParen
    }
}

pub open spec fn unclosed_message(vec: bool) -> Seq<char> {
    if vec {
        "Unclosed vector literal"@
    } else {
        "Unclosed parenthesis"@
    }
}

/// The elements of a list (or vector) after `acc`, the current token being
/// `t` and the lexer standing at `p`.
pub open spec fn spec_parse_seq(
    s: Seq<char>,
    t: TokenModel,
    p: int,
    vec: bool,
    acc: Seq<ValueModel>,
) -> ParseOutcome
    decreases s.len() - p, tok_rank(t), 1nat,
{
    if p < 0 || p > s.len() {
        ParseOutcome::Stalls
    } else if is_closer(t, vec) {
        then_next(
            s,
            p,
            if vec {
                ValueModel::Vector(acc)
            } else {
                list_model(acc)
            },
        )
    } else if t is Eof {
        ParseOutcome::Done(Err(unclosed_message(vec)))
    } else {
        match spec_parse_expr(s, t, p) {
            ParseOutcome::Done(Ok((x, t3, p3))) => if p < p3 && p3 <= s.len() {
                spec_parse_seq(s, t3, p3, vec, acc.push(x))
            } else if t3 is Eof {
                ParseOutcome::Done(Err(unclosed_message(vec)))
            } else {
                ParseOutcome::Stalls
            },
            other => other,
        }
    }
}

// ============================================================================
// Parser
// ============================================================================

pub struct Parser<'a> {
    lexer: &'a mut Lexer,
    current_token: Token,
}

impl<'a> Parser<'a> {
    /// The characters being read.
    pub closed spec fn chars(&self) -> Seq<char> {
        self.lexer.chars()
    }

    /// The lexer's position (just after the current token).
    pub closed spec fn pos(&self) -> int {
        self.lexer.pos()
    }

    /// The token under the reader.
    pub closed spec fn current(&self) -> TokenModel {
        self.current_token@
    }

    /// Starts reading from the lexer's position; a lexical error in the first
    /// token reads as the end of input.
    pub fn new(lexer: &'a mut Lexer) -> (r: Self)
        ensures
            r.chars() == old(lexer).chars(),
            r.pos() == spec_next_token(old(lexer).chars(), old(lexer).pos()).1,
            r.current() == match spec_next_token(old(lexer).chars(), old(lexer).pos()).0 {
                Ok(t) => t,
                Err(_) => TokenModel::Eof,
            },
    {
        let current_token = match lexer.next_token() {
            Ok(t) => t,
            Err(_) => Token::Eof,
        };
        Parser { lexer, current_token }
    }

    fn advance(&mut self) -> (r: Result<(), String>)
        ensures
            final(self).chars() == old(self).chars(),
            final(self).pos() == spec_next_token(old(self).chars(), old(self).pos()).1,
            match spec_next_token(old(self).chars(), old(self).pos()).0 {
                Ok(t) => r is Ok && final(self).current() == t,
                Err(m) => r matches Err(e) && e@ == m,
            },
    {
        match self.lexer.next_token() {
            Ok(t) => {
                self.current_token = t;
                Ok(())
            },
            Err(e) => Err(e),
        }
    }

    /// Reads one expression.
    pub fn parse_expression(&mut self) -> (r: Result<Value, String>)
        requires
            !(spec_parse_expr(old(self).chars(), old(self).current(), old(self).pos()) is Stalls),
        ensures
            final(self).chars() == old(self).chars(),
            match spec_parse_expr(old(self).chars(), old(self).current(), old(self).pos()) {
                ParseOutcome::Done(Ok((v, t, p))) => r matches Ok(x) && x@ == v
                    && final(self).current() == t && final(self).pos() == p,
                ParseOutcome::Done(Err(m)) => r matches Err(e) && e@ == m,
                ParseOutcome::Stalls => false,
            },
        decreases old(self).chars().len() - old(self).pos(), tok_rank(old(self).current()), 1nat,
    {
        let ghost s = self.chars();
        let ghost p0 = self.pos();
        let ghost t0 = self.current();
        proof {
            law_next_token_progress(s, p0);
        }
        match self.current_token.copy() {
            Token::Number(n) => {
                let value = Value::Atom(AtomType::Number(n));
                match self.advance() {
                    Ok(()) => Ok(value),
                    Err(e) => Err(e),
                }
            },
            Token::String(st) => {
                let value = Value::Atom(AtomType::String(st));
                match self.advance() {
                    Ok(()) => Ok(value),
                    Err(e) => Err(e),
                }
            },
            Token::Symbol(name) => {
                let value = if name.eq(&String::from_str("nil")) {
                    Value::Nil
                } else if name.eq(&String::from_str("t")) {
                    Value::Atom(AtomType::Bool(true))
                } else {
                    Value::Atom(AtomType::Symbol(SymbolType::Symbol(name)))
                };
                match self.advance() {
                    Ok(()) => Ok(value),
                    Err(e) => Err(e),
                }
            },
            Token::Quote => self.parse_prefixed(String::from_str("quote")),
            Token::Quasiquote => self.parse_prefixed(String::from_str("quasiquote")),
            Token::Unquote => self.parse_prefixed(String::from_str("unquote")),
            Token::UnquoteSplicing => self.parse_prefixed(String::from_str("unquote-splicing")),
            Token::LParen => {
                match self.advance() {
                    Ok(()) => {},
                    Err(e) => {
                        return Err(e);
                    },
                }
                match self.parse_elements(false) {
                    Ok(elements) => Ok(list_from(elements)),
                    Err(e) => Err(e),
                }
            },
            Token::VectorOpen => {
                match self.advance() {
                    Ok(()) => {},
                    Err(e) => {
                        return Err(e);
                    },
                }
                match self.parse_elements(true) {
                    Ok(elements) => Ok(Value::Vector(Box::new(VectorValue { elements }))),
                    Err(e) => Err(e),
                }
            },
            Token::RParen => Err(String::from_str("Unexpected )")),
            Token::VectorClose => Err(String::from_str("Unexpected >>")),
            Token::Eof => Err(String::from_str("Unexpected end of input")),
        }
    }

    /// Whether the current token ends a list (or vector, when `vec`): its
    /// closing token or the end of input.
    fn at_sequence_end(&self, vec: bool) -> (r: bool)
        ensures
            r == (is_closer(self.current(), vec) || self.current() is Eof),
    {
        match self.current_token {
            Token::VectorClose => vec,
            Token::RParen => !vec,
            Token::Eof => true,
            _ => false,
        }
    }

    /// The elements of a list (or vector, when `vec`) up to its closing
    /// token, which is consumed.
    fn parse_elements(&mut self, vec: bool) -> (r: Result<Vec<Value>, String>)
        requires
            !(spec_parse_seq(old(self).chars(), old(self).current(), old(self).pos(), vec, Seq::empty())
                is Stalls),
        ensures
            final(self).chars() == old(self).chars(),
            match spec_parse_seq(old(self).chars(), old(self).current(), old(self).pos(), vec, Seq::empty()) {
                ParseOutcome::Done(Ok((v, t, p))) => r matches Ok(els) && v == (if vec {
                    ValueModel::Vector(values_model(els@))
                } else {
                    list_model(values_model(els@))
                }) && final(self).current() == t && final(self).pos() == p,
                ParseOutcome::Done(Err(m)) => r matches Err(e) && e@ == m,
                ParseOutcome::Stalls => false,
            },
        decreases old(self).chars().len() - old(self).pos(), tok_rank(old(self).current()), 2nat,
    {
        let ghost s = self.chars();
        let ghost pe = self.pos();
        let ghost te = self.current();
        let ghost whole = spec_parse_seq(s, te, pe, vec, Seq::empty());
        let mut elements: Vec<Value> = Vec::new();
        assert(values_model(elements@) =~= Seq::<ValueModel>::empty());
        while !self.at_sequence_end(vec)
            invariant
                self.chars() == s,
                s == old(self).chars(),
                pe == old(self).pos(),
                te == old(self).current(),
                0 <= pe <= self.pos() <= s.len(),
                self.pos() > pe || self.current() == te || self.current() is Eof,
                spec_parse_seq(s, self.current(), self.pos(), vec, values_model(elements@)) == whole,
                whole == spec_parse_seq(s, te, pe, vec, Seq::empty()),
                !(whole is Stalls),
            decreases 2 * (s.len() - self.pos()) + if self.current() is Eof {
                0int
            } else {
                1int
            },
        {
            let ghost p = self.pos();
            let ghost t = self.current();
            let ghost acc = values_model(elements@);
            proof {
                law_next_token_progress(s, p);
            }
            match self.parse_expression() {
                Ok(x) => {
                    proof {
                        lemma_parse_expr_bounds(s, t, p);
                        assert(elements@.push(x).drop_last() =~= elements@);
                        assert(values_model(elements@.push(x)).drop_last() =~= values_model(elements@));
                    }
                    elements.push(x);
                    assert(values_model(elements@) == acc.push(x@));
                },
                Err(e) => {
                    return Err(e);
                },
            }
        }
        if matches!(self.current_token, Token::Eof) {
            return if vec {
                Err(String::from_str("Unclosed vector literal"))
            } else {
                Err(String::from_str("Unclosed parenthesis"))
            };
        }
        match self.advance() {
            Ok(()) => Ok(elements),
            Err(e) => Err(e),
        }
    }

    /// `'x`, `` `x ``, `,x`, `,@x`: the prefix token is current.
    fn parse_prefixed(&mut self, name: String) -> (r: Result<Value, String>)
        requires
            tok_rank(old(self).current()) == 1,
            !(old(self).current() is LParen),
            !(old(self).current() is VectorOpen),
            name@ == prefix_name(old(self).current()),
            !(spec_parse_expr(old(self).chars(), old(self).current(), old(self).pos()) is Stalls),
        ensures
            final(self).chars() == old(self).chars(),
            match spec_parse_expr(old(self).chars(), old(self).current(), old(self).pos()) {
                ParseOutcome::Done(Ok((v, t, p))) => r matches Ok(x) && x@ == v
                    && final(self).current() == t && final(self).pos() == p,
                ParseOutcome::Done(Err(m)) => r matches Err(e) && e@ == m,
                ParseOutcome::Stalls => false,
            },
        decreases old(self).chars().len() - old(self).pos(), tok_rank(old(self).current()), 0nat,
    {
        proof {
            law_next_token_progress(self.chars(), self.pos());
        }
        match self.advance() {
            Ok(()) => {},
            Err(e) => {
                return Err(e);
            },
        }
        match self.parse_expression() {
            Ok(x) => {
                let sym = Value::Atom(AtomType::Symbol(SymbolType::Symbol(name)));
                let r = cons(sym, cons(x, Value::Nil));
                proof {
                    let xm = x@;
                    let two = seq![ValueModel::Symbol(name@), xm];
                    assert(two.drop_first() =~= seq![xm]);
                    assert(seq![xm].drop_first() =~= Seq::<ValueModel>::empty());
                    assert(list_model(Seq::<ValueModel>::empty()) == ValueModel::Nil);
                    assert(list_model(seq![xm]) == ValueModel::Cons(
                        Box::new(xm),
                        Box::new(ValueModel::Nil),
                    ));
                    assert(list_model(two) == r@);
                }
                Ok(r)
            },
            Err(e) => Err(e),
        }
    }
}

/// A successful read ends no earlier than it started and within the input.
pub proof fn lemma_parse_expr_bounds(s: Seq<char>, t: TokenModel, p: int)
    ensures
        spec_parse_expr(s, t, p) matches ParseOutcome::Done(Ok((_, _, p2))) ==> p <= p2 <= s.len(),
    decreases s.len() - p, tok_rank(t), 0nat,
{
    if 0 <= p <= s.len() {
        law_next_token_progress(s, p);
        let (r, p2) = spec_next_token(s, p);
        match t {
            TokenModel::Quote | TokenModel::Quasiquote | TokenModel::Unquote
            | TokenModel::UnquoteSplicing => {
                if let Ok(t2) = r {
                    lemma_parse_expr_bounds(s, t2, p2);
                }
            },
            TokenModel::LParen | TokenModel::VectorOpen => {
                if let Ok(t2) = r {
                    lemma_parse_seq_bounds(s, t2, p2, t is VectorOpen, Seq::empty());
                }
            },
            _ => {},
        }
    }
}

pub proof fn lemma_parse_seq_bounds(s: Seq<char>, t: TokenModel, p: int, vec: bool, acc: Seq<ValueModel>)
    ensures
        spec_parse_seq(s, t, p, vec, acc) matches ParseOutcome::Done(Ok((_, _, p2))) ==> p <= p2
            <= s.len(),
    decreases s.len() - p, tok_rank(t), 1nat,
{
    if 0 <= p <= s.len() {
        law_next_token_progress(s, p);
        if !is_closer(t, vec) && !(t is Eof) {
            lemma_parse_expr_bounds(s, t, p);
            if let ParseOutcome::Done(Ok((x, t3, p3))) = spec_parse_expr(s, t, p) {
                if p < p3 && p3 <= s.len() {
                    lemma_parse_seq_bounds(s, t3, p3, vec, acc.push(x));
                }
            }
        }
    }
}

/// The list holding `elements` in order.
pub fn list_from(elements: Vec<Value>) -> (r: Value)
    ensures
        r@ == list_model(values_model(elements@)),
{
    let ghost all = elements@;
    let ghost models = values_model(all);
    let mut elements = elements;
    let mut list = Value::Nil;
    proof {
        crate::language::lemma_values_model(all);
        assert(models.subrange(all.len() as int, all.len() as int) =~= Seq::<ValueModel>::empty());
    }
    while elements.len() > 0
        invariant
            elements@ == all.take(elements.len() as int),
            elements.len() <= all.len(),
            models == values_model(all),
            models.len() == all.len(),
            forall|j: int| 0 <= j < all.len() ==> models[j] == crate::language::value_model(#[trigger] all[j]),
            list@ == list_model(models.subrange(elements.len() as int, all.len() as int)),
        decreases elements.len(),
    {
        let ghost k = elements.len() - 1;
        let e = elements.pop().unwrap();
        assert(e == all[k]);
        assert(models.subrange(k, all.len() as int).drop_first() =~= models.subrange(k + 1, all.len() as int));
        list = cons(e, list);
        assert(elements@ =~= all.take(elements.len() as int));
    }
    assert(models.subrange(0, all.len() as int) =~= models);
    list
}


// ============================================================================
// Reading a whole string
// ============================================================================

/// The first token of `s` (a lexical error there reads as the end of input)
/// and the position after it.
pub open spec fn first_token(s: Seq<char>) -> (TokenModel, int) {
    let (r, p) = spec_next_token(s, 0);
    (
        match r {
            Ok(t) => t,
            Err(_) => TokenModel::Eof,
        },
        p,
    )
}

/// Reading the first expression of `s`.
pub open spec fn spec_read(s: Seq<char>) -> ParseOutcome {
    spec_parse_expr(s, first_token(s).0, first_token(s).1)
}

/// Reads the first expression of `input`.
pub fn parse(input: &str) -> (r: Result<Value, String>)
    requires
        !(spec_read(input@) is Stalls),
    ensures
        match spec_read(input@) {
            ParseOutcome::Done(Ok((v, _, _))) => r matches Ok(x) && x@ == v,
            ParseOutcome::Done(Err(m)) => r matches Err(e) && e@ == m,
            ParseOutcome::Stalls => false,
        },
{
    let mut lexer = Lexer::new(input);
    let mut parser = Parser::new(&mut lexer);
    parser.parse_expression()
}

/// What remains of a read once values are set aside.
pub enum ReadCheck {
    Finishes,
    Fails,
    Stalls,
}

/// Whether reading the expression whose first token is `t` (the lexer
/// standing after it) finishes, fails, or never finishes; on finishing, the
/// lexer is left where the read leaves it and the token after the
/// expression is returned.
pub(crate) fn check_expr(lexer: &mut Lexer, t: Token) -> (r: (ReadCheck, Token))
    requires
        0 <= old(lexer).pos() <= old(lexer).chars().len(),
    ensures
        final(lexer).chars() == old(lexer).chars(),
        match spec_parse_expr(old(lexer).chars(), t@, old(lexer).pos()) {
            ParseOutcome::Done(Ok((_, t2, p2))) => r.0 is Finishes && r.1@ == t2
                && final(lexer).pos() == p2,
            ParseOutcome::Done(Err(_)) => r.0 is Fails,
            ParseOutcome::Stalls => r.0 is Stalls,
        },
    decreases old(lexer).chars().len() - old(lexer).pos(), tok_rank(t@), 1nat,
{
    let ghost s = lexer.chars();
    let ghost p = lexer.pos();
    proof {
        law_next_token_progress(s, p);
    }
    match t {
        Token::Number(_) | Token::String(_) | Token::Symbol(_) => {
            match lexer.next_token() {
                Ok(t2) => (ReadCheck::Finishes, t2),
                Err(_) => (ReadCheck::Fails, Token::Eof),
            }
        },
        Token::Quote | Token::Quasiquote | Token::Unquote | Token::UnquoteSplicing => {
            match lexer.next_token() {
                Ok(t2) => check_expr(lexer, t2),
                Err(_) => (ReadCheck::Fails, Token::Eof),
            }
        },
        Token::LParen => {
            match lexer.next_token() {
                Ok(t2) => check_seq(lexer, t2, false),
                Err(_) => (ReadCheck::Fails, Token::Eof),
            }
        },
        Token::VectorOpen => {
            match lexer.next_token() {
                Ok(t2) => check_seq(lexer, t2, true),
                Err(_) => (ReadCheck::Fails, Token::Eof),
            }
        },
        _ => (ReadCheck::Fails, Token::Eof),
    }
}

fn is_sequence_end(t: &Token, vec: bool) -> (r: bool)
    ensures
        r == (is_closer(t@, vec) || t@ is Eof),
{
    match t {
        Token::VectorClose => vec,
        Token::RParen => !vec,
        Token::Eof => true,
        _ => false,
    }
}

/// `check_expr` for the elements of a list or vector.
fn check_seq(lexer: &mut Lexer, t: Token, vec: bool) -> (r: (ReadCheck, Token))
    requires
        0 <= old(lexer).pos() <= old(lexer).chars().len(),
    ensures
        final(lexer).chars() == old(lexer).chars(),
        match spec_parse_seq(old(lexer).chars(), t@, old(lexer).pos(), vec, Seq::empty()) {
            ParseOutcome::Done(Ok((_, t2, p2))) => r.0 is Finishes && r.1@ == t2
                && final(lexer).pos() == p2,
            ParseOutcome::Done(Err(_)) => r.0 is Fails,
            ParseOutcome::Stalls => r.0 is Stalls,
        },
    decreases old(lexer).chars().len() - old(lexer).pos(), tok_rank(t@), 2nat,
{
    let ghost s = lexer.chars();
    let ghost pe = lexer.pos();
    let ghost te = t@;
    let ghost whole = spec_parse_seq(s, te, pe, vec, Seq::empty());
    let mut cur = t;
    loop
        invariant
            lexer.chars() == s,
            s == old(lexer).chars(),
            pe == old(lexer).pos(),
            te == t@,
            0 <= pe <= lexer.pos() <= s.len(),
            lexer.pos() > pe || cur@ == te,
            whole == spec_parse_seq(s, te, pe, vec, Seq::empty()),
            same_shape(whole, spec_parse_seq(s, cur@, lexer.pos(), vec, Seq::empty())),
        decreases s.len() - lexer.pos(),
    {
        let ghost p = lexer.pos();
        let before = lexer.position();
        let ghost tc = cur@;
        proof {
            law_next_token_progress(s, p);
        }
        if is_sequence_end(&cur, vec) {
            if matches!(cur, Token::Eof) {
                return (ReadCheck::Fails, Token::Eof);
            }
            return match lexer.next_token() {
                Ok(t2) => (ReadCheck::Finishes, t2),
                Err(_) => (ReadCheck::Fails, Token::Eof),
            };
        }
        let (c, t3) = check_expr(lexer, cur);
        match c {
            ReadCheck::Finishes => {
                proof {
                    lemma_parse_expr_bounds(s, tc, p);
                }
                if lexer.position() <= before {
                    return if matches!(t3, Token::Eof) {
                        (ReadCheck::Fails, Token::Eof)
                    } else {
                        (ReadCheck::Stalls, Token::Eof)
                    };
                }
                proof {
                    if let ParseOutcome::Done(Ok((x, _, _))) = spec_parse_expr(s, tc, p) {
                        lemma_seq_shape(s, t3@, lexer.pos(), vec, Seq::empty().push(x), Seq::empty());
                    }
                }
                cur = t3;
            },
            ReadCheck::Fails => {
                return (ReadCheck::Fails, Token::Eof);
            },
            ReadCheck::Stalls => {
                return (ReadCheck::Stalls, Token::Eof);
            },
        }
    }
}

/// How reading a list or vector ends does not depend on the elements read
/// before.
proof fn lemma_seq_shape(s: Seq<char>, t: TokenModel, p: int, vec: bool, a1: Seq<ValueModel>, a2: Seq<ValueModel>)
    ensures
        same_shape(spec_parse_seq(s, t, p, vec, a1), spec_parse_seq(s, t, p, vec, a2)),
    decreases s.len() - p, tok_rank(t), 1nat,
{
    if 0 <= p <= s.len() && !is_closer(t, vec) && !(t is Eof) {
        if let ParseOutcome::Done(Ok((x, t3, p3))) = spec_parse_expr(s, t, p) {
            if p < p3 && p3 <= s.len() {
                lemma_seq_shape(s, t3, p3, vec, a1.push(x), a2.push(x));
            }
        }
    }
}

/// Whether reading the first expression of `input` never finishes.
pub fn read_stalls(input: &str) -> (r: bool)
    ensures
        r == (spec_read(input@) is Stalls),
{
    let mut lexer = Lexer::new(input);
    proof {
        law_next_token_progress(input@, 0);
    }
    let first = match lexer.next_token() {
        Ok(t) => t,
        Err(_) => Token::Eof,
    };
    let (c, _) = check_expr(&mut lexer, first);
    matches!(c, ReadCheck::Stalls)
}

/// Reads the first expression of `input`; `None` when reading it would
/// never finish.
pub fn parse_checked(input: &str) -> (r: Option<Result<Value, String>>)
    ensures
        match spec_read(input@) {
            ParseOutcome::Done(Ok((v, _, _))) => r matches Some(Ok(x)) && x@ == v,
            ParseOutcome::Done(Err(m)) => r matches Some(Err(e)) && e@ == m,
            ParseOutcome::Stalls => r is None,
        },
{
    if read_stalls(input) {
        None
    } else {
        Some(parse(input))
    }
}

/// Two outcomes that agree but for the values they hold.
pub open spec fn same_shape(a: ParseOutcome, b: ParseOutcome) -> bool {
    match (a, b) {
        (ParseOutcome::Done(Ok((_, t1, p1))), ParseOutcome::Done(Ok((_, t2, p2)))) => t1 == t2
            && p1 == p2,
        (ParseOutcome::Done(Err(_)), ParseOutcome::Done(Err(_))) => true,
        (ParseOutcome::Stalls, ParseOutcome::Stalls) => true,
        _ => false,
    }
}

} // verus!
