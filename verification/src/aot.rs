//! The ahead-of-time compiler's front matter: its options and errors, and
//! how it reads a program and takes its forms apart.

use vstd::prelude::*;

use crate::jit::JitError;
use crate::language::{AtomType, SymbolType, Value, ValueModel, list_elements, values_model};
use crate::lexer::{Lexer, Token, TokenModel, law_next_token_progress, spec_next_token};
use crate::native::{is_proper_list, list_to_vec};
use crate::parser::{
    ParseOutcome, Parser, ReadCheck, check_expr, first_token, lemma_parse_expr_bounds, spec_parse_expr,
};
use crate::text::{spec_contains, str_contains, str_eq};

verus! {

/// Declares `std::io::Error` so that an error can carry one; nothing is
/// claimed of what it holds.
#[verifier::external_type_specification]
#[verifier::external_body]
pub struct ExIoError(std::io::Error);

/// Error type for AOT compilation.
#[derive(Debug)]
pub enum AotError {
    /// Parse error in source code
    ParseError(String),
    /// Code generation error
    CodegenError(String),
    /// IO error
    IoError(std::io::Error),
    /// JIT compilation error (for reusing compile_value)
    JitError(JitError),
}

impl From<std::io::Error> for AotError {
    fn from(err: std::io::Error) -> (r: Self) {
        AotError::IoError(err)
    }
}

impl vstd::std_specs::convert::FromSpecImpl<std::io::Error> for AotError {
    open spec fn obeys_from_spec() -> bool {
        true
    }

    open spec fn from_spec(v: std::io::Error) -> AotError {
        AotError::IoError(v)
    }
}

impl From<JitError> for AotError {
    fn from(err: JitError) -> (r: Self) {
        AotError::JitError(err)
    }
}

impl vstd::std_specs::convert::FromSpecImpl<JitError> for AotError {
    open spec fn obeys_from_spec() -> bool {
        true
    }

    open spec fn from_spec(v: JitError) -> AotError {
        AotError::JitError(v)
    }
}

/// AOT compiler for Consair.
///
/// Compiles Consair source code to LLVM IR that can be compiled
/// to native code using clang or llc.
pub struct AotCompiler {
    /// Whether to include debug comments in the output
    pub debug: bool,
}

impl Default for AotCompiler {
    fn default() -> (r: Self)
        ensures
            !r.debug,
    {
        Self::new()
    }
}

impl AotCompiler {
    /// Create a new AOT compiler.
    pub fn new() -> (r: Self)
        ensures
            !r.debug,
    {
        AotCompiler { debug: false }
    }
}

// ============================================================================
// Reading a whole program
// ============================================================================

/// The outcome of reading every expression of a program: the values read, an
/// error message, or `Stalls` when reading never finishes.
pub enum ReadAllOutcome {
    Done(Result<Seq<ValueModel>, Seq<char>>),
    Stalls,
}

/// Whether a read error means the input ran out.
pub open spec fn is_end_of_input(m: Seq<char>) -> bool {
    spec_contains(m, "end of input"@)
}

/// The measure that reading a program decreases: what is left of the input,
/// then whether the end of input has been seen.
pub open spec fn token_weight(t: TokenModel) -> int {
    if t is Eof {
        0
    } else {
        1
    }
}

/// Reading expressions one after another, `acc` read so far, the current
/// token `t` and the lexer at `p`: reading stops at the first error; an
/// error about the end of input ends the program (which must hold at least
/// one expression); a read that consumes nothing and is not followed by the
/// end of input repeats forever.
pub open spec fn read_all_from(s: Seq<char>, t: TokenModel, p: int, acc: Seq<ValueModel>) -> ReadAllOutcome
    decreases s.len() - p, token_weight(t),
{
    if p < 0 || p > s.len() {
        ReadAllOutcome::Stalls
    } else {
        match spec_parse_expr(s, t, p) {
            ParseOutcome::Stalls => ReadAllOutcome::Stalls,
            ParseOutcome::Done(Err(m)) => if is_end_of_input(m) {
                if acc.len() == 0 {
                    ReadAllOutcome::Done(Err("No expressions to compile"@))
                } else {
                    ReadAllOutcome::Done(Ok(acc))
                }
            } else {
                ReadAllOutcome::Done(Err(m))
            },
            ParseOutcome::Done(Ok((x, t2, p2))) => if p < p2 <= s.len() || (p2 == p && t2 is Eof
                && !(t is Eof)) {
                read_all_from(s, t2, p2, acc.push(x))
            } else {
                ReadAllOutcome::Stalls
            },
        }
    }
}

/// Reading every expression of `s`.
pub open spec fn spec_parse_all(s: Seq<char>) -> ReadAllOutcome {
    read_all_from(s, first_token(s).0, first_token(s).1, Seq::empty())
}

/// Whether reading stalls does not depend on what was read before.
proof fn lemma_read_all_shape(s: Seq<char>, t: TokenModel, p: int, a1: Seq<ValueModel>, a2: Seq<ValueModel>)
    ensures
        (read_all_from(s, t, p, a1) is Stalls) == (read_all_from(s, t, p, a2) is Stalls),
    decreases s.len() - p, token_weight(t),
{
    if 0 <= p <= s.len() {
        if let ParseOutcome::Done(Ok((x, t2, p2))) = spec_parse_expr(s, t, p) {
            if p < p2 <= s.len() || (p2 == p && t2 is Eof && !(t is Eof)) {
                lemma_read_all_shape(s, t2, p2, a1.push(x), a2.push(x));
            }
        }
    }
}

/// Whether reading every expression of `source` never finishes.
pub fn read_all_stalls(source: &str) -> (r: bool)
    ensures
        r == (spec_parse_all(source@) is Stalls),
{
    let ghost s = source@;
    let mut lexer = Lexer::new(source);
    proof {
        law_next_token_progress(s, 0);
    }
    let mut cur = match lexer.next_token() {
        Ok(t) => t,
        Err(_) => Token::Eof,
    };
    loop
        invariant
            lexer.chars() == s,
            s == source@,
            0 <= lexer.pos() <= s.len(),
            (spec_parse_all(s) is Stalls) == (read_all_from(s, cur@, lexer.pos(), Seq::empty()) is Stalls),
        decreases s.len() - lexer.pos(), token_weight(cur@),
    {
        let ghost p = lexer.pos();
        let ghost t = cur@;
        let before = lexer.position();
        let was_eof = matches!(cur, Token::Eof);
        proof {
            lemma_parse_expr_bounds(s, t, p);
        }
        let (c, t2) = check_expr(&mut lexer, cur);
        match c {
            ReadCheck::Stalls => {
                return true;
            },
            ReadCheck::Fails => {
                return false;
            },
            ReadCheck::Finishes => {
                let after = lexer.position();
                let moved = before < after || (after == before && matches!(t2, Token::Eof) && !was_eof);
                if !moved {
                    return true;
                }
                proof {
                    if let ParseOutcome::Done(Ok((x, _, _))) = spec_parse_expr(s, t, p) {
                        lemma_read_all_shape(s, t2@, lexer.pos(), Seq::empty().push(x), Seq::empty());
                    }
                }
                cur = t2;
            },
        }
    }
}

// ============================================================================
// Forms
// ============================================================================

/// Check if a value is the 'lambda' symbol.
pub fn is_lambda(value: &Value) -> (r: bool)
    ensures
        r == (value@ == ValueModel::Symbol("lambda"@)),
{
    match value {
        Value::Atom(AtomType::Symbol(SymbolType::Symbol(sym))) => str_eq(sym.as_str(), "lambda"),
        _ => false,
    }
}

/// Check if a value is the 'label' symbol.
pub fn is_label(value: &Value) -> (r: bool)
    ensures
        r == (value@ == ValueModel::Symbol("label"@)),
{
    match value {
        Value::Atom(AtomType::Symbol(SymbolType::Symbol(sym))) => str_eq(sym.as_str(), "label"),
        _ => false,
    }
}

/// A top-level definition `(label name (lambda ...) ...)`: its name and the
/// lambda expression.
pub open spec fn spec_toplevel_label(v: ValueModel) -> Option<(Seq<char>, ValueModel)> {
    match v {
        ValueModel::Cons(head, rest) => if *head == ValueModel::Symbol("label"@) {
            match *rest {
                ValueModel::Cons(name, more) => match (*name, *more) {
                    (ValueModel::Symbol(n), ValueModel::Cons(lam, _)) => match *lam {
                        ValueModel::Cons(kw, _) => if *kw == ValueModel::Symbol("lambda"@) {
                            Some((n, *lam))
                        } else {
                            None
                        },
                        _ => None,
                    },
                    _ => None,
                },
                _ => None,
            }
        } else {
            None
        },
        _ => None,
    }
}

/// Check if an expression is a top-level label definition: (label name (lambda ...))
/// Returns Some((name, lambda_expr)) if it is, None otherwise.
pub fn extract_toplevel_label(expr: &Value) -> (r: Option<(String, Value)>)
    ensures
        match spec_toplevel_label(expr@) {
            Some((n, lam)) => r matches Some((name, l)) && name@ == n && l@ == lam,
            None => r is None,
        },
{
    if let Value::Cons(cell) = expr {
        assert(expr@ == ValueModel::Cons(Box::new(cell.car@), Box::new(cell.cdr@)));
        if is_label(&cell.car) {
            if let Value::Cons(name_cell) = &cell.cdr {
                assert(cell.cdr@ == ValueModel::Cons(
                    Box::new(name_cell.car@),
                    Box::new(name_cell.cdr@),
                ));
                if let Value::Atom(AtomType::Symbol(SymbolType::Symbol(name))) = &name_cell.car {
                    if let Value::Cons(lambda_cell) = &name_cell.cdr {
                        assert(name_cell.cdr@ == ValueModel::Cons(
                            Box::new(lambda_cell.car@),
                            Box::new(lambda_cell.cdr@),
                        ));
                        if let Value::Cons(lambda_inner) = &lambda_cell.car {
                            assert(lambda_cell.car@ == ValueModel::Cons(
                                Box::new(lambda_inner.car@),
                                Box::new(lambda_inner.cdr@),
                            ));
                            if is_lambda(&lambda_inner.car) {
                                return Some((name.clone(), lambda_cell.car.copy()));
                            }
                        }
                    }
                }
            }
        }
    }
    None
}

/// The number of parameters of a lambda expression `(lambda (params ...) ...)`,
/// or the message for what is wrong with it.
pub open spec fn spec_lambda_param_count(v: ValueModel) -> Result<nat, Seq<char>> {
    match v {
        ValueModel::Cons(head, rest) => if *head == ValueModel::Symbol("lambda"@) {
            if !is_proper_list(*rest) {
                Err(malformed_args_message())
            } else if list_elements(*rest).len() == 0 {
                Err("lambda requires parameters"@)
            } else if !is_proper_list(list_elements(*rest)[0]) {
                Err(malformed_args_message())
            } else {
                Ok(list_elements(list_elements(*rest)[0]).len())
            }
        } else {
            Err("Expected lambda expression"@)
        },
        _ => Err("Expected lambda expression"@),
    }
}

pub open spec fn malformed_args_message() -> Seq<char> {
    "Malformed argument list"@
}

/// A code generation error with the given message.
pub open spec fn is_codegen_error(e: AotError, m: Seq<char>) -> bool {
    e matches AotError::CodegenError(x) && x@ == m
}

impl AotCompiler {
    /// Get the parameter count from a lambda expression.
    pub fn get_lambda_param_count(&self, lambda_expr: &Value) -> (r: Result<usize, AotError>)
        ensures
            match (r, spec_lambda_param_count(lambda_expr@)) {
                (Ok(n), Ok(k)) => n == k,
                (Err(e), Err(m)) => is_codegen_error(e, m),
                _ => false,
            },
    {
        if let Value::Cons(lambda_cell) = lambda_expr {
            if is_lambda(&lambda_cell.car) {
                let lambda_parts = match self.collect_args(&lambda_cell.cdr) {
                    Ok(p) => p,
                    Err(e) => return Err(e),
                };
                proof {
                    crate::language::lemma_values_model(lambda_parts@);
                }
                if lambda_parts.len() == 0 {
                    return Err(AotError::CodegenError(String::from_str("lambda requires parameters")));
                }
                let params = &lambda_parts[0];
                let param_names = match self.collect_args(params) {
                    Ok(p) => p,
                    Err(e) => return Err(e),
                };
                proof {
                    crate::language::lemma_values_model(param_names@);
                }
                return Ok(param_names.len());
            }
        }
        Err(AotError::CodegenError(String::from_str("Expected lambda expression")))
    }

    /// The first element of an argument list.
    pub fn get_first_arg<'a>(&self, args: &'a Value) -> (r: Result<&'a Value, AotError>)
        ensures
            match args@ {
                ValueModel::Cons(a, _) => r matches Ok(v) && v@ == *a,
                ValueModel::Nil => r matches Err(e) && is_codegen_error(e, "Expected argument"@),
                _ => r matches Err(e) && is_codegen_error(e, "Invalid argument list"@),
            },
    {
        match args {
            Value::Cons(cell) => Ok(&cell.car),
            Value::Nil => Err(AotError::CodegenError(String::from_str("Expected argument"))),
            _ => Err(AotError::CodegenError(String::from_str("Invalid argument list"))),
        }
    }

    /// The first element of an argument list and the rest of it.
    pub fn get_car_cdr<'a>(&self, args: &'a Value) -> (r: Result<(&'a Value, &'a Value), AotError>)
        ensures
            match args@ {
                ValueModel::Cons(a, d) => r matches Ok((x, y)) && x@ == *a && y@ == *d,
                ValueModel::Nil => r matches Err(e) && is_codegen_error(e, "Expected argument"@),
                _ => r matches Err(e) && is_codegen_error(e, "Invalid argument list"@),
            },
    {
        match args {
            Value::Cons(cell) => Ok((&cell.car, &cell.cdr)),
            Value::Nil => Err(AotError::CodegenError(String::from_str("Expected argument"))),
            _ => Err(AotError::CodegenError(String::from_str("Invalid argument list"))),
        }
    }

    /// Collect all arguments from a list into a Vec.
    pub fn collect_args(&self, args: &Value) -> (r: Result<Vec<Value>, AotError>)
        ensures
            if is_proper_list(args@) {
                r matches Ok(v) && values_model(v@) == list_elements(args@)
            } else {
                r matches Err(e) && is_codegen_error(e, malformed_args_message())
            },
    {
        match list_to_vec(args) {
            Ok(v) => Ok(v),
            Err(_) => Err(AotError::CodegenError(String::from_str("Malformed argument list"))),
        }
    }

    /// Reads every expression of `source`; `None` when reading would never
    /// finish.
    pub fn parse_all_checked(&self, source: &str) -> (r: Option<Result<Vec<Value>, AotError>>)
        ensures
            match spec_parse_all(source@) {
                ReadAllOutcome::Done(Ok(vs)) => r matches Some(Ok(v)) && values_model(v@) == vs,
                ReadAllOutcome::Done(Err(m)) => r matches Some(Err(AotError::ParseError(e))) && e@ == m,
                ReadAllOutcome::Stalls => r is None,
            },
    {
        if read_all_stalls(source) {
            None
        } else {
            Some(self.parse_all(source))
        }
    }

    /// Parse all expressions from source code.
    pub fn parse_all(&self, source: &str) -> (r: Result<Vec<Value>, AotError>)
        requires
            !(spec_parse_all(source@) is Stalls),
        ensures
            match spec_parse_all(source@) {
                ReadAllOutcome::Done(Ok(vs)) => r matches Ok(v) && values_model(v@) == vs,
                ReadAllOutcome::Done(Err(m)) => r matches Err(AotError::ParseError(e)) && e@ == m,
                ReadAllOutcome::Stalls => false,
            },
    {
        let ghost s = source@;
        let mut lexer = Lexer::new(source);
        proof {
            law_next_token_progress(s, 0);
        }
        let mut parser = Parser::new(&mut lexer);
        let mut exprs: Vec<Value> = Vec::new();
        let ghost whole = spec_parse_all(s);
        loop
            invariant
                s == source@,
                parser.chars() == s,
                0 <= parser.pos() <= s.len(),
                whole == spec_parse_all(s),
                !(whole is Stalls),
                whole == read_all_from(s, parser.current(), parser.pos(), values_model(exprs@)),
            decreases s.len() - parser.pos(), token_weight(parser.current()),
        {
            let ghost p = parser.pos();
            let ghost t = parser.current();
            proof {
                lemma_parse_expr_bounds(s, t, p);
            }
            match parser.parse_expression() {
                Ok(expr) => {
                    proof {
                        assert(exprs@.push(expr).drop_last() =~= exprs@);
                    }
                    exprs.push(expr);
                },
                Err(e) => {
                    proof {
                        crate::language::lemma_values_model(exprs@);
                    }
                    if str_contains(e.as_str(), "end of input") {
                        if exprs.len() == 0 {
                            return Err(AotError::ParseError(String::from_str("No expressions to compile")));
                        }
                        return Ok(exprs);
                    }
                    return Err(AotError::ParseError(e));
                },
            }
        }
    }
}

} // verus!
