//! Reading back what was printed: the printed form of a value made of
//! integers, strings, plain symbols, `nil`, `t`, proper lists and vectors
//! reads back as the same value.

use vstd::prelude::*;

use crate::language::{ValueModel, display, display_items, display_tail, escape_char, escaped, list_elements, list_model};
use crate::lexer::{
    TokenModel, cur, skip_ws, spec_escape, spec_next_token, spec_number_scan, spec_read_number,
    spec_read_string, spec_read_symbol, spec_string_body, spec_symbol_continues, symbol_run,
};
use crate::parser::{ParseOutcome, first_token, spec_parse_expr, spec_parse_seq, spec_read, symbol_value, then_next};
use crate::numeric::{NumberModel, all_ascii_digits, digit_value, digits_value, spec_parse_i64};
use crate::text::{
    char_alphanumeric, char_numeric, decimal, digit_char, signed_decimal, spec_is_ascii_digit,
    spec_is_ascii_letter, spec_is_whitespace,
};

verus! {

/// What std documents of the character classes on ASCII characters (and
/// what the library's calls of `char::is_numeric` and
/// `char::is_alphanumeric` state): the numeric ones are exactly the digits,
/// the alphanumeric ones exactly the letters and digits.
pub open spec fn ascii_classes() -> bool {
    &&& forall|c: char| (c as u32) < 128 ==> (#[trigger] char_numeric(c) <==> spec_is_ascii_digit(c))
    &&& forall|c: char|
        (c as u32) < 128 ==> (#[trigger] char_alphanumeric(c) <==> (spec_is_ascii_digit(c)
            || spec_is_ascii_letter(c)))
}

// ============================================================================
// Integers
// ============================================================================

proof fn lemma_digit_char(d: nat)
    requires
        d < 10,
    ensures
        digit_value(digit_char(d)) == d,
        spec_is_ascii_digit(digit_char(d)),
{
}

/// A decimal numeral reads back as its number.
proof fn lemma_digits_of_decimal(n: nat)
    ensures
        digits_value(decimal(n)) == n,
        all_ascii_digits(decimal(n)),
        decimal(n).len() > 0,
    decreases n,
{
    if n < 10 {
        lemma_digit_char(n);
        assert(decimal(n).drop_last() =~= Seq::<char>::empty());
        assert(digits_value(decimal(n)) == digits_value(Seq::<char>::empty()) * 10 + digit_value(digit_char(n)));
    } else {
        lemma_digits_of_decimal(n / 10);
        lemma_digit_char(n % 10);
        assert(decimal(n).drop_last() =~= decimal(n / 10));
        assert(decimal(n).last() == digit_char(n % 10));
        assert((n / 10) * 10 + n % 10 == n) by (nonlinear_arith);
        assert(digits_value(decimal(n)) == digits_value(decimal(n / 10)) * 10 + digit_value(digit_char(n % 10)));
        assert forall|i: int| 0 <= i < decimal(n).len() implies spec_is_ascii_digit(#[trigger] decimal(n)[i]) by {
            if i < decimal(n / 10).len() {
                assert(decimal(n)[i] == decimal(n / 10)[i]);
            }
        }
    }
}

/// The printed form of an integer reads back as the integer.
proof fn lemma_parse_signed(n: i64)
    ensures
        spec_parse_i64(signed_decimal(n as int)) == Some(n),
{
    if n < 0 {
        let m = (-(n as int)) as nat;
        lemma_digits_of_decimal(m);
        let t = signed_decimal(n as int);
        assert(t.drop_first() =~= decimal(m));
    } else {
        lemma_digits_of_decimal(n as nat);
        let t = decimal(n as nat);
        assert(spec_is_ascii_digit(t[0]));
    }
}

/// Digits from `i` up to `e`, where a number's text stops, scan as a number
/// without a point or a slash.
proof fn lemma_scan_digits(s: Seq<char>, i: int, e: int)
    requires
        ascii_classes(),
        0 <= i <= e <= s.len(),
        forall|k: int| i <= k < e ==> spec_is_ascii_digit(#[trigger] s[k]),
        e == s.len() || s[e] == ' ' || s[e] == ')' || s[e] == '>',
    ensures
        spec_number_scan(s, i, false, None) == (e, false, None::<int>),
    decreases e - i,
{
    if i < e {
        assert(spec_is_ascii_digit(s[i]));
        assert(char_numeric(s[i]));
        lemma_scan_digits(s, i + 1, e);
    } else if e < s.len() {
        assert(!char_numeric(s[e]));
    }
}

// ============================================================================
// Symbols
// ============================================================================

/// A character that a plain symbol may hold.
pub open spec fn plain_char(c: char) -> bool {
    spec_is_ascii_letter(c) || spec_is_ascii_digit(c) || c == '-' || c == '_' || c == '+' || c == '*'
        || c == '!' || c == '?' || c == '=' || c == '%' || c == '/'
}

/// A symbol whose printed name reads back as the same symbol: one of the
/// comparison names `<`, `>`, `<=`, `>=`, or a non-empty name of plain
/// characters that starts neither with a digit nor with `-` and a digit,
/// and is neither `nil` nor `t`.
pub open spec fn plain_symbol(x: Seq<char>) -> bool {
    ||| x == "<"@
    ||| x == ">"@
    ||| x == "<="@
    ||| x == ">="@
    ||| {
        &&& x.len() > 0
        &&& forall|i: int| 0 <= i < x.len() ==> plain_char(#[trigger] x[i])
        &&& !spec_is_ascii_digit(x[0])
        &&& !(x[0] == '-' && x.len() > 1 && spec_is_ascii_digit(x[1]))
        &&& x != "nil"@
        &&& x != "t"@
    }
}

proof fn lemma_symbol_run(s: Seq<char>, i: int, e: int)
    requires
        ascii_classes(),
        0 <= i <= e <= s.len(),
        forall|k: int| i <= k < e ==> plain_char(#[trigger] s[k]),
        e == s.len() || s[e] == ' ' || s[e] == ')' || s[e] == '>',
    ensures
        symbol_run(s, i) == e - i,
    decreases e - i,
{
    if i < e {
        let c = s[i];
        assert(plain_char(c));
        assert(char_alphanumeric(c) <==> (spec_is_ascii_digit(c) || spec_is_ascii_letter(c)));
        assert(!spec_is_whitespace(c));
        assert(spec_symbol_continues(c));
        lemma_symbol_run(s, i + 1, e);
    } else if e < s.len() {
        assert(spec_is_whitespace(' '));
        assert(!spec_symbol_continues(s[e]));
    }
}

// ============================================================================
// Strings
// ============================================================================

proof fn lemma_escaped_front(x: Seq<char>)
    requires
        x.len() > 0,
    ensures
        escaped(x) == escape_char(x[0]) + escaped(x.drop_first()),
    decreases x.len(),
{
    if x.len() == 1 {
        assert(x.drop_last() =~= Seq::<char>::empty());
        assert(x.drop_first() =~= Seq::<char>::empty());
        assert(escaped(Seq::<char>::empty()) == Seq::<char>::empty());
        assert(x.last() == x[0]);
        assert(escaped(x) =~= escape_char(x[0]));
        assert(escape_char(x[0]) + escaped(x.drop_first()) =~= escape_char(x[0]));
    } else {
        lemma_escaped_front(x.drop_last());
        assert(x.drop_last().drop_first() =~= x.drop_first().drop_last());
        assert(x.drop_first().last() == x.last());
        assert(escaped(x) =~= escape_char(x[0]) + escaped(x.drop_first()));
    }
}

/// The body of a printed string literal reads back as the string.
proof fn lemma_string_body(s: Seq<char>, i: int, x: Seq<char>, acc: Seq<char>)
    requires
        0 <= i,
        i + escaped(x).len() + 1 <= s.len(),
        s.subrange(i, i + escaped(x).len() + 1) == escaped(x) + seq!['"'],
    ensures
        spec_string_body(s, i, acc) == (
            Ok::<TokenModel, Seq<char>>(TokenModel::Str(acc + x)),
            i + escaped(x).len() + 1,
        ),
    decreases x.len(),
{
    let t = escaped(x) + seq!['"'];
    assert(s[i] == s.subrange(i, i + escaped(x).len() + 1)[0]);
    if x.len() == 0 {
        assert(acc + x =~= acc);
    } else {
        lemma_escaped_front(x);
        let c = x[0];
        let ec = escape_char(c);
        let rest = x.drop_first();
        let k = ec.len() as int;
        assert(t =~= ec + (escaped(rest) + seq!['"']));
        assert(s.subrange(i + k, i + k + escaped(rest).len() + 1) =~= escaped(rest) + seq!['"']) by {
            assert forall|j: int| 0 <= j < escaped(rest).len() + 1 implies #[trigger] s.subrange(
                i + k,
                i + k + escaped(rest).len() + 1,
            )[j] == (escaped(rest) + seq!['"'])[j] by {
                assert(s.subrange(i, i + escaped(x).len() + 1)[k + j] == t[k + j]);
            }
        }
        assert(acc.push(c) + rest =~= acc + x);
        if c == '\n' || c == '\t' || c == '\r' || c == '\\' || c == '"' {
            assert(s.subrange(i, i + escaped(x).len() + 1)[1] == t[1]);
            assert(s[i + 1] == ec[1]);
            assert(spec_escape(s, i + 1) == (Ok::<char, Seq<char>>(c), i + 2));
            lemma_string_body(s, i + 2, rest, acc.push(c));
        } else {
            lemma_string_body(s, i + 1, rest, acc.push(c));
        }
    }
}

// ============================================================================
// Atoms
// ============================================================================

/// A value printed as a single token that reads back as the value.
pub open spec fn readable_atom(v: ValueModel) -> bool {
    match v {
        ValueModel::Nil => true,
        ValueModel::Bool(b) => b,
        ValueModel::Number(NumberModel::Int(_)) => true,
        ValueModel::Str(_) => true,
        ValueModel::Symbol(x) => plain_symbol(x),
        _ => false,
    }
}

/// The token a printed atom reads as.
pub open spec fn atom_token(v: ValueModel) -> TokenModel {
    match v {
        ValueModel::Nil => TokenModel::Symbol("nil"@),
        ValueModel::Bool(_) => TokenModel::Symbol("t"@),
        ValueModel::Number(n) => TokenModel::Number(n),
        ValueModel::Str(x) => TokenModel::Str(x),
        ValueModel::Symbol(x) => TokenModel::Symbol(x),
        _ => TokenModel::Eof,
    }
}

/// Where a printed value may end: the end of the text, a space, a closing
/// parenthesis, or the `>` of a vector's `>>` (but after the symbol `>`,
/// which would run into it).
pub open spec fn ends_printed(s: Seq<char>, e: int, v: ValueModel) -> bool {
    e == s.len() || (0 <= e < s.len() && (s[e] == ' ' || s[e] == ')' || (s[e] == '>' && v
        != ValueModel::Symbol(">"@))))
}

/// The text `t` stands in `s` from `q`.
pub open spec fn stands_at(s: Seq<char>, q: int, t: Seq<char>) -> bool {
    0 <= q && q + t.len() <= s.len() && s.subrange(q, q + t.len()) == t
}

proof fn lemma_stands_at(s: Seq<char>, q: int, t: Seq<char>, k: int)
    requires
        stands_at(s, q, t),
        0 <= k < t.len(),
    ensures
        s[q + k] == t[k],
{
    assert(s.subrange(q, q + t.len())[k] == s[q + k]);
}

/// A printed atom is read as its token, ending where its text ends.
proof fn lemma_atom_token(s: Seq<char>, q: int, v: ValueModel)
    requires
        ascii_classes(),
        readable_atom(v),
        stands_at(s, q, display(v)),
        ends_printed(s, q + display(v).len(), v),
    ensures
        spec_next_token(s, q) == (Ok::<TokenModel, Seq<char>>(atom_token(v)), q + display(v).len()),
{
    reveal_strlit("<");
    reveal_strlit(">");
    reveal_strlit("<=");
    reveal_strlit(">=");
    reveal_strlit("nil");
    reveal_strlit("t");
    let t = display(v);
    let n = t.len() as int;
    let e = q + n;
    assert(spec_is_whitespace(' '));
    match v {
        ValueModel::Number(NumberModel::Int(i)) => {
            if i >= 0 {
                lemma_digits_of_decimal(i as nat);
                assert(t == decimal(i as nat));
                lemma_stands_at(s, q, t, 0);
                assert(spec_is_ascii_digit(t[0]));
                assert(char_numeric(s[q]));
                assert(skip_ws(s, q) == q);
                assert forall|k: int| q <= k < e implies spec_is_ascii_digit(#[trigger] s[k]) by {
                    lemma_stands_at(s, q, t, k - q);
                    assert(spec_is_ascii_digit(t[k - q]));
                }
                lemma_scan_digits(s, q, e);
                lemma_parse_signed(i);
                assert(cur(s, q) != '-');
                assert(s.subrange(q, e) == t);
                assert(spec_parse_i64(s.subrange(q, e)) == Some(i));
                assert(spec_read_number(s, q) == (Ok::<TokenModel, Seq<char>>(TokenModel::Number(NumberModel::Int(i))), e));
                assert(spec_next_token(s, q) == spec_read_number(s, q));
                assert(atom_token(v) == TokenModel::Number(NumberModel::Int(i)));
                assert(spec_next_token(s, q) == (Ok::<TokenModel, Seq<char>>(atom_token(v)), q + display(v).len()));
            } else {
                let m = (-(i as int)) as nat;
                lemma_digits_of_decimal(m);
                assert(t == seq!['-'] + decimal(m));
                lemma_stands_at(s, q, t, 0);
                lemma_stands_at(s, q, t, 1);
                assert(s[q] == '-');
                assert(spec_is_ascii_digit(decimal(m)[0]));
                assert(char_numeric(s[q + 1]));
                assert(!char_numeric(s[q]));
                assert(skip_ws(s, q) == q);
                assert forall|k: int| q + 1 <= k < e implies spec_is_ascii_digit(#[trigger] s[k]) by {
                    lemma_stands_at(s, q, t, k - q);
                    assert(t[k - q] == decimal(m)[k - q - 1]);
                }
                lemma_scan_digits(s, q + 1, e);
                lemma_parse_signed(i);
                assert(cur(s, q) == '-');
                assert(cur(s, q + 1) == s[q + 1]);
                assert(s.subrange(q, e) == t);
                assert(spec_parse_i64(s.subrange(q, e)) == Some(i));
                assert(spec_read_number(s, q) == (Ok::<TokenModel, Seq<char>>(TokenModel::Number(NumberModel::Int(i))), e));
                assert(spec_next_token(s, q) == spec_read_number(s, q));
                assert(atom_token(v) == TokenModel::Number(NumberModel::Int(i)));
                assert(spec_next_token(s, q) == (Ok::<TokenModel, Seq<char>>(atom_token(v)), q + display(v).len()));
            }
        },
        ValueModel::Str(x) => {
            lemma_stands_at(s, q, t, 0);
            assert(s[q] == '"');
            assert(skip_ws(s, q) == q);
            assert(stands_at(s, q + 1, escaped(x) + seq!['"'])) by {
                assert forall|j: int| 0 <= j < escaped(x).len() + 1 implies #[trigger] s.subrange(
                    q + 1,
                    q + 1 + escaped(x).len() + 1,
                )[j] == (escaped(x) + seq!['"'])[j] by {
                    lemma_stands_at(s, q, t, j + 1);
                }
                assert(s.subrange(q + 1, q + 1 + escaped(x).len() + 1) =~= escaped(x) + seq!['"']);
            }
            lemma_string_body(s, q + 1, x, Seq::empty());
            assert(Seq::<char>::empty() + x =~= x);
            assert(spec_next_token(s, q) == spec_read_string(s, q));
        },
        ValueModel::Nil | ValueModel::Bool(_) => {
            // Printed as the plain names `nil` and `t`.
            lemma_stands_at(s, q, t, 0);
            assert(plain_char(t[0]));
            assert(!char_numeric(s[q]));
            assert(skip_ws(s, q) == q);
            assert forall|k: int| q <= k < e implies plain_char(#[trigger] s[k]) by {
                lemma_stands_at(s, q, t, k - q);
            }
            lemma_symbol_run(s, q, e);
            assert(s.subrange(q, e) == t);
            assert(spec_next_token(s, q) == spec_read_symbol(s, q));
            assert(t =~= atom_token(v)->Symbol_0);
        },
        _ => {
            // A symbol: its name is the printed text.
            let x = t;
            lemma_stands_at(s, q, t, 0);
            assert(skip_ws(s, q) == q) by {
                if x == "<"@ || x == ">"@ || x == "<="@ || x == ">="@ {
                } else {
                    assert(plain_char(x[0]));
                }
            }
            if x == "<"@ || x == ">"@ || x == "<="@ || x == ">="@ {
                if n == 2 {
                    lemma_stands_at(s, q, t, 1);
                }
            } else {
                assert(plain_char(x[0]));
                assert(!char_numeric(s[q]));
                if x[0] == '-' {
                    if n > 1 {
                        lemma_stands_at(s, q, t, 1);
                        assert(plain_char(x[1]));
                        assert(!char_numeric(cur(s, q + 1)));
                    } else {
                        assert(!char_numeric(cur(s, q + 1)));
                    }
                }
                assert forall|k: int| q <= k < e implies plain_char(#[trigger] s[k]) by {
                    lemma_stands_at(s, q, t, k - q);
                    assert(plain_char(x[k - q]));
                }
                lemma_symbol_run(s, q, e);
                assert(spec_next_token(s, q) == spec_read_symbol(s, q));
            }
        },
    }
}

/// A printed atom's token reads as the atom.
proof fn lemma_parse_atom(s: Seq<char>, p: int, v: ValueModel)
    requires
        readable_atom(v),
        0 <= p <= s.len(),
    ensures
        spec_parse_expr(s, atom_token(v), p) == then_next(s, p, v),
{
    reveal_strlit("<");
    reveal_strlit(">");
    reveal_strlit("<=");
    reveal_strlit(">=");
    reveal_strlit("nil");
    reveal_strlit("t");
    match v {
        ValueModel::Nil => {
            assert(symbol_value("nil"@) == ValueModel::Nil);
        },
        ValueModel::Bool(_) => {
            assert("t"@.len() == 1 && "nil"@.len() == 3);
            assert(symbol_value("t"@) == ValueModel::Bool(true));
        },
        ValueModel::Symbol(x) => {
            assert(x != "nil"@ && x != "t"@) by {
                if x == "<"@ || x == ">"@ || x == "<="@ || x == ">="@ {
                    assert(x.len() <= 2 && x[0] != 'n' && x[0] != 't');
                }
            }
            assert(symbol_value(x) == ValueModel::Symbol(x));
        },
        _ => {},
    }
}

// ============================================================================
// Lists and vectors
// ============================================================================

/// A value whose printed form reads back as itself: an atom as above, a
/// proper list of such values, or a vector of them whose last element is
/// not the symbol `>` (its printed form would end in `>>>`, read as the
/// end of the vector and then `>`).
pub open spec fn readable(v: ValueModel) -> bool
    decreases v, 1nat,
{
    match v {
        ValueModel::Cons(a, d) => readable(*a) && readable_tail(*d),
        ValueModel::Vector(items) => readable_items(items) && !(items.len() > 0 && items.last()
            == ValueModel::Symbol(">"@)),
        _ => readable_atom(v),
    }
}

/// The rest of a proper list of readable values.
pub open spec fn readable_tail(d: ValueModel) -> bool
    decreases d, 0nat,
{
    match d {
        ValueModel::Nil => true,
        ValueModel::Cons(a, r) => readable(*a) && readable_tail(*r),
        _ => false,
    }
}

/// Readable values, each of them.
pub open spec fn readable_items(items: Seq<ValueModel>) -> bool
    decreases items, 0nat,
{
    if items.len() == 0 {
        true
    } else {
        readable(items[0]) && readable_items(items.subrange(1, items.len() as int))
    }
}

/// The printed elements of a list, before its closing parenthesis.
pub open spec fn list_text(c: ValueModel) -> Seq<char> {
    match c {
        ValueModel::Cons(a, d) => display(*a) + display_tail(*d),
        _ => Seq::empty(),
    }
}

proof fn lemma_display_items_front(items: Seq<ValueModel>)
    requires
        items.len() >= 1,
    ensures
        items.len() == 1 ==> display_items(items) == display(items[0]),
        items.len() >= 2 ==> display_items(items) == display(items[0]) + seq![' '] + display_items(
            items.subrange(1, items.len() as int),
        ),
    decreases items.len(),
{
    if items.len() >= 2 {
        let rest = items.subrange(1, items.len() as int);
        if items.len() == 2 {
            assert(items.drop_last() =~= seq![items[0]]);
            assert(rest =~= seq![items[1]]);
            assert(display_items(items.drop_last()) == display(items[0]));
            assert(display_items(rest) == display(rest[0]));
        } else {
            let init = items.drop_last();
            lemma_display_items_front(init);
            assert(init.subrange(1, init.len() as int) =~= rest.drop_last());
            assert(rest.last() == items.last());
            assert(display_items(rest) == display_items(rest.drop_last()) + seq![' '] + display(rest.last()));
            assert(display_items(items) =~= display(items[0]) + seq![' '] + display_items(rest));
        }
    }
}

proof fn lemma_list_model_elements(c: ValueModel)
    requires
        readable_tail(c),
    ensures
        list_model(list_elements(c)) == c,
    decreases c,
{
    if let ValueModel::Cons(a, d) = c {
        lemma_list_model_elements(*d);
        let xs = list_elements(c);
        assert(xs.drop_first() =~= list_elements(*d));
    }
}

/// Reading a list's elements and its closing parenthesis.
#[verifier::spinoff_prover]
#[verifier::rlimit(60)]
proof fn lemma_list_read_back(s: Seq<char>, i: int, c: ValueModel, acc: Seq<ValueModel>)
    requires
        ascii_classes(),
        c is Cons,
        readable_tail(c),
        stands_at(s, i, list_text(c) + seq![')']),
    ensures
        spec_next_token(s, i).0 is Ok,
        i < spec_next_token(s, i).1 <= s.len(),
        spec_parse_seq(s, spec_next_token(s, i).0->Ok_0, spec_next_token(s, i).1, false, acc) == then_next(
            s,
            i + list_text(c).len() + 1,
            list_model(acc + list_elements(c)),
        ),
    decreases c, 0nat,
{
    let a = c->Cons_0;
    let d = *c->Cons_1;
    let a = *a;
    assert(readable(a) && readable_tail(d));
    let full = list_text(c) + seq![')'];
    let e = i + display(a).len();
    assert(stands_at(s, i, display(a))) by {
        assert forall|k: int| 0 <= k < display(a).len() implies #[trigger] s.subrange(i, e)[k] == display(a)[k] by {
            lemma_stands_at(s, i, full, k);
        }
        assert(s.subrange(i, e) =~= display(a));
    }
    lemma_stands_at(s, i, full, display(a).len() as int);
    assert(list_elements(c) == seq![a] + list_elements(d));
    if d is Cons {
        assert(display_tail(d) == seq![' '] + list_text(d));
        assert(s[e] == ' ');
        lemma_read_back(s, i, a);
        let rest = list_text(d) + seq![')'];
        assert(stands_at(s, e + 1, rest)) by {
            assert forall|k: int| 0 <= k < rest.len() implies #[trigger] s.subrange(e + 1, e + 1 + rest.len())[k] == rest[k] by {
                lemma_stands_at(s, i, full, display(a).len() + 1 + k);
            }
            assert(s.subrange(e + 1, e + 1 + rest.len()) =~= rest);
        }
        lemma_list_read_back(s, e + 1, d, acc.push(a));
        assert(skip_ws(s, e) == skip_ws(s, e + 1)) by {
            assert(spec_is_whitespace(' '));
        }
        assert(spec_next_token(s, e) == spec_next_token(s, e + 1));
        assert(acc + list_elements(c) =~= acc.push(a) + list_elements(d));
        assert(list_text(c).len() == display(a).len() + 1 + list_text(d).len());
        let (t, p) = spec_next_token(s, i);
        let (t3, p3) = spec_next_token(s, e + 1);
        assert(spec_parse_expr(s, t->Ok_0, p) == then_next(s, e, a));
        assert(then_next(s, e, a) == ParseOutcome::Done(Ok((a, t3->Ok_0, p3))));
        assert(spec_parse_seq(s, t->Ok_0, p, false, acc) == spec_parse_seq(s, t3->Ok_0, p3, false, acc.push(a)));
        assert(spec_parse_seq(s, t->Ok_0, p, false, acc) == then_next(s, i + list_text(c).len() + 1, list_model(acc + list_elements(c))));
    } else {
        assert(d is Nil);
        assert(display_tail(d) =~= Seq::<char>::empty());
        assert(s[e] == ')');
        lemma_read_back(s, i, a);
        assert(skip_ws(s, e) == e);
        assert(spec_next_token(s, e) == (Ok::<TokenModel, Seq<char>>(TokenModel::RParen), e + 1));
        assert(list_elements(d) =~= Seq::<ValueModel>::empty());
        assert(acc + list_elements(c) =~= acc.push(a));
        assert(list_text(c) =~= display(a));
        let (t, p) = spec_next_token(s, i);
        assert(spec_parse_expr(s, t->Ok_0, p) == then_next(s, e, a));
        assert(then_next(s, e, a) == ParseOutcome::Done(Ok((a, TokenModel::RParen, e + 1))));
        assert(spec_parse_seq(s, TokenModel::RParen, e + 1, false, acc.push(a)) == then_next(s, e + 1, list_model(acc.push(a))));
        assert(spec_parse_seq(s, t->Ok_0, p, false, acc) == spec_parse_seq(s, TokenModel::RParen, e + 1, false, acc.push(a)));
    }
}

/// Reading a vector's elements and its closing `>>`.
proof fn lemma_items_read_back(s: Seq<char>, i: int, items: Seq<ValueModel>, acc: Seq<ValueModel>)
    requires
        ascii_classes(),
        readable_items(items),
        !(items.len() > 0 && items.last() == ValueModel::Symbol(">"@)),
        stands_at(s, i, display_items(items) + seq!['>', '>']),
    ensures
        spec_next_token(s, i).0 is Ok,
        i < spec_next_token(s, i).1 <= s.len(),
        spec_parse_seq(s, spec_next_token(s, i).0->Ok_0, spec_next_token(s, i).1, true, acc) == then_next(
            s,
            i + display_items(items).len() + 2,
            ValueModel::Vector(acc + items),
        ),
    decreases items, 0nat,
{
    let full = display_items(items) + seq!['>', '>'];
    if items.len() == 0 {
        assert(display_items(items) =~= Seq::<char>::empty());
        lemma_stands_at(s, i, full, 0);
        lemma_stands_at(s, i, full, 1);
        assert(skip_ws(s, i) == i);
        assert(spec_next_token(s, i) == (Ok::<TokenModel, Seq<char>>(TokenModel::VectorClose), i + 2));
        assert(acc + items =~= acc);
    } else {
        let a = items[0];
        let rest = items.subrange(1, items.len() as int);
        lemma_display_items_front(items);
        let e = i + display(a).len();
        assert(stands_at(s, i, display(a))) by {
            assert forall|k: int| 0 <= k < display(a).len() implies #[trigger] s.subrange(i, e)[k] == display(a)[k] by {
                lemma_stands_at(s, i, full, k);
            }
            assert(s.subrange(i, e) =~= display(a));
        }
        lemma_stands_at(s, i, full, display(a).len() as int);
        if items.len() == 1 {
            assert(s[e] == '>');
            assert(a == items.last());
            lemma_read_back(s, i, a);
            lemma_stands_at(s, i, full, display(a).len() + 1int);
            assert(skip_ws(s, e) == e);
            assert(cur(s, e + 1) == '>');
            assert(spec_next_token(s, e) == (Ok::<TokenModel, Seq<char>>(TokenModel::VectorClose), e + 2));
            assert(acc + items =~= acc.push(a));
            let (t, p) = spec_next_token(s, i);
            assert(spec_parse_expr(s, t->Ok_0, p) == then_next(s, e, a));
            assert(then_next(s, e, a) == ParseOutcome::Done(Ok((a, TokenModel::VectorClose, e + 2))));
            assert(spec_parse_seq(s, TokenModel::VectorClose, e + 2, true, acc.push(a)) == then_next(s, e + 2, ValueModel::Vector(acc.push(a))));
            assert(spec_parse_seq(s, t->Ok_0, p, true, acc) == spec_parse_seq(s, TokenModel::VectorClose, e + 2, true, acc.push(a)));
        } else {
            assert(s[e] == ' ');
            lemma_read_back(s, i, a);
            let tail = display_items(rest) + seq!['>', '>'];
            assert(stands_at(s, e + 1, tail)) by {
                assert forall|k: int| 0 <= k < tail.len() implies #[trigger] s.subrange(e + 1, e + 1 + tail.len())[k] == tail[k] by {
                    lemma_stands_at(s, i, full, display(a).len() + 1 + k);
                }
                assert(s.subrange(e + 1, e + 1 + tail.len()) =~= tail);
            }
            assert(rest.last() == items.last());
            lemma_items_read_back(s, e + 1, rest, acc.push(a));
            assert(skip_ws(s, e) == skip_ws(s, e + 1)) by {
                assert(spec_is_whitespace(' '));
            }
            assert(spec_next_token(s, e) == spec_next_token(s, e + 1));
            assert(acc + items =~= acc.push(a) + rest);
            assert(display_items(items).len() == display(a).len() + 1 + display_items(rest).len());
        }
    }
}

/// A printed readable value, standing in the text where a printed value
/// may end, reads back as the value; its first token lies within it.
proof fn lemma_read_back(s: Seq<char>, q: int, v: ValueModel)
    requires
        ascii_classes(),
        readable(v),
        stands_at(s, q, display(v)),
        ends_printed(s, q + display(v).len(), v),
    ensures
        spec_next_token(s, q).0 matches Ok(t) && !(t is RParen) && !(t is VectorClose) && !(t is Eof),
        q < spec_next_token(s, q).1 <= q + display(v).len(),
        spec_parse_expr(s, spec_next_token(s, q).0->Ok_0, spec_next_token(s, q).1) == then_next(
            s,
            q + display(v).len(),
            v,
        ),
    decreases v, 1nat,
{
    let t = display(v);
    let n = t.len() as int;
    match v {
        ValueModel::Cons(_, _) => {
            assert(t == seq!['('] + list_text(v) + seq![')']);
            lemma_stands_at(s, q, t, 0);
            assert(skip_ws(s, q) == q);
            assert(spec_next_token(s, q) == (Ok::<TokenModel, Seq<char>>(TokenModel::LParen), q + 1));
            let inner = list_text(v) + seq![')'];
            assert(stands_at(s, q + 1, inner)) by {
                assert forall|k: int| 0 <= k < inner.len() implies #[trigger] s.subrange(q + 1, q + 1 + inner.len())[k] == inner[k] by {
                    lemma_stands_at(s, q, t, k + 1);
                }
                assert(s.subrange(q + 1, q + 1 + inner.len()) =~= inner);
            }
            lemma_list_read_back(s, q + 1, v, Seq::empty());
            lemma_list_model_elements(v);
            assert(Seq::<ValueModel>::empty() + list_elements(v) =~= list_elements(v));
        },
        ValueModel::Vector(items) => {
            assert(t == seq!['<', '<'] + display_items(items) + seq!['>', '>']);
            lemma_stands_at(s, q, t, 0);
            lemma_stands_at(s, q, t, 1);
            assert(skip_ws(s, q) == q);
            assert(spec_next_token(s, q) == (Ok::<TokenModel, Seq<char>>(TokenModel::VectorOpen), q + 2));
            let inner = display_items(items) + seq!['>', '>'];
            assert(stands_at(s, q + 2, inner)) by {
                assert forall|k: int| 0 <= k < inner.len() implies #[trigger] s.subrange(q + 2, q + 2 + inner.len())[k] == inner[k] by {
                    lemma_stands_at(s, q, t, k + 2);
                }
                assert(s.subrange(q + 2, q + 2 + inner.len()) =~= inner);
            }
            lemma_items_read_back(s, q + 2, items, Seq::empty());
            assert(Seq::<ValueModel>::empty() + items =~= items);
        },
        _ => {
            lemma_atom_token(s, q, v);
            lemma_parse_atom(s, q + n, v);
            assert(n >= 1) by {
                match v {
                    ValueModel::Number(NumberModel::Int(i)) => {
                        if i >= 0 {
                            lemma_digits_of_decimal(i as nat);
                        } else {
                            lemma_digits_of_decimal((-(i as int)) as nat);
                        }
                    },
                    ValueModel::Symbol(x) => {
                        reveal_strlit("<");
                        reveal_strlit(">");
                        reveal_strlit("<=");
                        reveal_strlit(">=");
                    },
                    _ => {},
                }
            }
        },
    }
}

/// Printing a value and reading the text back gives the same value, with
/// nothing left to read after it: for integers, strings, plain symbols,
/// `nil`, `t`, and proper lists and vectors of such values (but a vector
/// whose last element is the symbol `>`), given that the ASCII characters
/// are classed as std documents.
pub proof fn law_printed_values_read_back(v: ValueModel)
    requires
        ascii_classes(),
        readable(v),
    ensures
        spec_read(display(v)) == ParseOutcome::Done(Ok((v, TokenModel::Eof, display(v).len() as int))),
{
    let s = display(v);
    assert(s.subrange(0, s.len() as int) =~= s);
    lemma_read_back(s, 0, v);
    assert(skip_ws(s, s.len() as int) == s.len());
    assert(first_token(s) == (spec_next_token(s, 0).0->Ok_0, spec_next_token(s, 0).1));
}

} // verus!
