//! Helpers for native functions: taking values apart, building them, and
//! checking how many arguments a call received.

use vstd::prelude::*;

use crate::language::{
    AtomType, ConsCell, StringType, SymbolType, Value, ValueModel, cons, display, list_elements,
    list_model, values_model,
};
use crate::numeric::{NumberModel, NumericType};
use crate::text::{decimal, push_decimal};

verus! {

// ============================================================================
// Value Extraction Helpers
// ============================================================================

/// The message for a value of the wrong kind: `Expected <what>, got <value>`.
pub open spec fn expected_message(what: Seq<char>, got: ValueModel) -> Seq<char> {
    "Expected "@ + what + ", got "@ + display(got)
}

fn expected_error(what: &str, value: &Value) -> (r: String)
    ensures
        r@ == expected_message(what@, value@),
{
    let mut m = String::from_str("Expected ");
    m.append(what);
    m.append(", got ");
    value.write_to(&mut m);
    m
}

/// Extract a string from a Value
pub fn extract_string(value: &Value) -> (r: Result<String, String>)
    ensures
        match value@ {
            ValueModel::Str(s) => r matches Ok(x) && x@ == s,
            other => r matches Err(m) && m@ == expected_message("string"@, other),
        },
{
    match value {
        Value::Atom(AtomType::String(StringType::Basic(s))) => Ok(s.clone()),
        _ => Err(expected_error("string", value)),
    }
}

/// Extract an integer from a Value
pub fn extract_int(value: &Value) -> (r: Result<i64, String>)
    ensures
        match value@ {
            ValueModel::Number(NumberModel::Int(n)) => r == Ok::<i64, String>(n),
            other => r matches Err(m) && m@ == expected_message("integer"@, other),
        },
{
    match value {
        Value::Atom(AtomType::Number(NumericType::Int(n))) => Ok(*n),
        _ => Err(expected_error("integer", value)),
    }
}

/// Extract a boolean from a Value (the empty list counts as false)
pub fn extract_bool(value: &Value) -> (r: Result<bool, String>)
    ensures
        match value@ {
            ValueModel::Bool(b) => r == Ok::<bool, String>(b),
            ValueModel::Nil => r == Ok::<bool, String>(false),
            other => r matches Err(m) && m@ == expected_message("boolean"@, other),
        },
{
    match value {
        Value::Atom(AtomType::Bool(b)) => Ok(*b),
        Value::Nil => Ok(false),
        _ => Err(expected_error("boolean", value)),
    }
}

/// Extract a symbol name from a Value
pub fn extract_symbol(value: &Value) -> (r: Result<String, String>)
    ensures
        match value@ {
            ValueModel::Symbol(s) => r matches Ok(x) && x@ == s,
            other => r matches Err(m) && m@ == expected_message("symbol"@, other),
        },
{
    match value {
        Value::Atom(AtomType::Symbol(SymbolType::Symbol(s))) => Ok(s.clone()),
        _ => Err(expected_error("symbol", value)),
    }
}

// ============================================================================
// List Manipulation Helpers
// ============================================================================

/// A chain of cons cells that ends in the empty list.
pub open spec fn is_proper_list(v: ValueModel) -> bool
    decreases v,
{
    match v {
        ValueModel::Nil => true,
        ValueModel::Cons(_, d) => is_proper_list(*d),
        _ => false,
    }
}

pub open spec fn improper_list_message() -> Seq<char> {
    "Expected proper list (ending in nil)"@
}

/// Convert a Lisp list to a Vec<Value>
pub fn list_to_vec(list: &Value) -> (r: Result<Vec<Value>, String>)
    ensures
        if is_proper_list(list@) {
            r matches Ok(v) && values_model(v@) == list_elements(list@)
        } else {
            r matches Err(m) && m@ == improper_list_message()
        },
{
    let mut result: Vec<Value> = Vec::new();
    let mut current = list.copy();
    let ghost whole = list_elements(list@);
    loop
        invariant
            whole == list_elements(list@),
            whole == values_model(result@) + list_elements(current@),
            is_proper_list(list@) == is_proper_list(current@),
        ensures
            whole == values_model(result@),
            is_proper_list(list@) == (current@ is Nil),
        decreases current@,
    {
        match current {
            Value::Cons(cell) => {
                let ghost before = current@;
                let ConsCell { car, cdr } = *cell;
                proof {
                    assert(result@.push(car).drop_last() =~= result@);
                    assert(values_model(result@.push(car)) =~= values_model(result@).push(car@));
                    assert(list_elements(before) =~= seq![car@] + list_elements(cdr@));
                    assert(values_model(result@).push(car@) + list_elements(cdr@)
                        =~= values_model(result@) + (seq![car@] + list_elements(cdr@)));
                }
                result.push(car);
                current = cdr;
            },
            _ => {
                assert(list_elements(current@) =~= Seq::<ValueModel>::empty());
                assert(whole =~= values_model(result@));
                break ;
            },
        }
    }
    match current {
        Value::Nil => Ok(result),
        _ => Err(String::from_str("Expected proper list (ending in nil)")),
    }
}

/// Convert a Vec<Value> to a Lisp list
pub fn vec_to_list(items: Vec<Value>) -> (r: Value)
    ensures
        r@ == list_model(values_model(items@)),
{
    crate::parser::list_from(items)
}

/// The strings held by `es`, or the message for the first element that is
/// not a string.
pub open spec fn strings_of(es: Seq<ValueModel>) -> Result<Seq<Seq<char>>, Seq<char>>
    decreases es.len(),
{
    if es.len() == 0 {
        Ok(Seq::empty())
    } else {
        match strings_of(es.drop_last()) {
            Err(m) => Err(m),
            Ok(pre) => match es.last() {
                ValueModel::Str(s) => Ok(pre.push(s)),
                other => Err(expected_message("string"@, other)),
            },
        }
    }
}

/// The integers held by `es`, or the message for the first element that is
/// not an integer.
pub open spec fn ints_of(es: Seq<ValueModel>) -> Result<Seq<i64>, Seq<char>>
    decreases es.len(),
{
    if es.len() == 0 {
        Ok(Seq::empty())
    } else {
        match ints_of(es.drop_last()) {
            Err(m) => Err(m),
            Ok(pre) => match es.last() {
                ValueModel::Number(NumberModel::Int(n)) => Ok(pre.push(n)),
                other => Err(expected_message("integer"@, other)),
            },
        }
    }
}

/// What extracting a list of strings from `v` gives.
pub open spec fn spec_string_list(v: ValueModel) -> Result<Seq<Seq<char>>, Seq<char>> {
    if is_proper_list(v) {
        strings_of(list_elements(v))
    } else {
        Err(improper_list_message())
    }
}

/// What extracting a list of integers from `v` gives.
pub open spec fn spec_int_list(v: ValueModel) -> Result<Seq<i64>, Seq<char>> {
    if is_proper_list(v) {
        ints_of(list_elements(v))
    } else {
        Err(improper_list_message())
    }
}

/// Extract a list of strings from a Value
pub fn extract_string_list(value: &Value) -> (r: Result<Vec<String>, String>)
    ensures
        match (r, spec_string_list(value@)) {
            (Ok(v), Ok(ss)) => v@.len() == ss.len() && forall|i: int|
                0 <= i < ss.len() ==> (#[trigger] v@[i])@ == ss[i],
            (Err(e), Err(m)) => e@ == m,
            _ => false,
        },
{
    let items = match list_to_vec(value) {
        Ok(v) => v,
        Err(e) => return Err(e),
    };
    let ghost es = values_model(items@);
    proof {
        crate::language::lemma_values_model(items@);
    }
    let mut out: Vec<String> = Vec::new();
    let mut i: usize = 0;
    while i < items.len()
        invariant
            es == values_model(items@),
            es == list_elements(value@),
            is_proper_list(value@),
            es.len() == items.len(),
            forall|j: int| 0 <= j < items.len() ==> es[j] == (#[trigger] items@[j])@,
            i <= items.len(),
            strings_of(es.take(i as int)) matches Ok(ss) && ss.len() == out.len() && forall|j: int|
                0 <= j < out.len() ==> (#[trigger] out@[j])@ == ss[j],
        decreases items.len() - i,
    {
        assert(es.take(i + 1).drop_last() =~= es.take(i as int));
        assert(es.take(i + 1).last() == items@[i as int]@);
        match extract_string(&items[i]) {
            Ok(s) => {
                out.push(s);
            },
            Err(e) => {
                assert(strings_of(es.take(i + 1)) is Err);
                proof {
                    lemma_strings_of_prefix_err(es, i as int + 1);
                }
                return Err(e);
            },
        }
        i = i + 1;
    }
    assert(es.take(items.len() as int) =~= es);
    Ok(out)
}

proof fn lemma_strings_of_prefix_err(es: Seq<ValueModel>, k: int)
    requires
        0 <= k <= es.len(),
        strings_of(es.take(k)) is Err,
    ensures
        strings_of(es) == strings_of(es.take(k)),
    decreases es.len() - k,
{
    if k < es.len() {
        assert(es.take(k + 1).drop_last() =~= es.take(k));
        lemma_strings_of_prefix_err(es, k + 1);
    } else {
        assert(es.take(k) =~= es);
    }
}

proof fn lemma_ints_of_prefix_err(es: Seq<ValueModel>, k: int)
    requires
        0 <= k <= es.len(),
        ints_of(es.take(k)) is Err,
    ensures
        ints_of(es) == ints_of(es.take(k)),
    decreases es.len() - k,
{
    if k < es.len() {
        assert(es.take(k + 1).drop_last() =~= es.take(k));
        lemma_ints_of_prefix_err(es, k + 1);
    } else {
        assert(es.take(k) =~= es);
    }
}

/// Extract a list of integers from a Value
pub fn extract_int_list(value: &Value) -> (r: Result<Vec<i64>, String>)
    ensures
        match (r, spec_int_list(value@)) {
            (Ok(v), Ok(ns)) => v@ == ns,
            (Err(e), Err(m)) => e@ == m,
            _ => false,
        },
{
    let items = match list_to_vec(value) {
        Ok(v) => v,
        Err(e) => return Err(e),
    };
    let ghost es = values_model(items@);
    proof {
        crate::language::lemma_values_model(items@);
    }
    let mut out: Vec<i64> = Vec::new();
    let mut i: usize = 0;
    while i < items.len()
        invariant
            es == values_model(items@),
            es == list_elements(value@),
            is_proper_list(value@),
            es.len() == items.len(),
            forall|j: int| 0 <= j < items.len() ==> es[j] == (#[trigger] items@[j])@,
            i <= items.len(),
            ints_of(es.take(i as int)) == Ok::<Seq<i64>, Seq<char>>(out@),
        decreases items.len() - i,
    {
        assert(es.take(i + 1).drop_last() =~= es.take(i as int));
        assert(es.take(i + 1).last() == items@[i as int]@);
        match extract_int(&items[i]) {
            Ok(n) => {
                out.push(n);
            },
            Err(e) => {
                assert(ints_of(es.take(i + 1)) is Err);
                proof {
                    lemma_ints_of_prefix_err(es, i as int + 1);
                }
                return Err(e);
            },
        }
        i = i + 1;
    }
    assert(es.take(items.len() as int) =~= es);
    Ok(out)
}

// ============================================================================
// Association List (alist) Helpers
// ============================================================================

pub open spec fn alist_element_message() -> Seq<char> {
    "alist element must be a cons cell"@
}

/// The key-value pairs of an association list `((k1 . v1) (k2 . v2) ...)`,
/// or the message for the first thing that is wrong with it, in reading
/// order.
pub open spec fn alist_pairs(v: ValueModel) -> Result<Seq<(ValueModel, ValueModel)>, Seq<char>>
    decreases v,
{
    match v {
        ValueModel::Nil => Ok(Seq::empty()),
        ValueModel::Cons(a, d) => match *a {
            ValueModel::Cons(k, x) => match alist_pairs(*d) {
                Ok(rest) => Ok(seq![(*k, *x)] + rest),
                Err(m) => Err(m),
            },
            _ => Err(alist_element_message()),
        },
        _ => Err(improper_list_message()),
    }
}

/// The pairs read so far followed by what the rest gives.
pub open spec fn after_pairs(
    pre: Seq<(ValueModel, ValueModel)>,
    rest: Result<Seq<(ValueModel, ValueModel)>, Seq<char>>,
) -> Result<Seq<(ValueModel, ValueModel)>, Seq<char>> {
    match rest {
        Ok(r) => Ok(pre + r),
        Err(m) => Err(m),
    }
}

pub open spec fn pairs_model(v: Seq<(Value, Value)>) -> Seq<(ValueModel, ValueModel)> {
    Seq::new(v.len(), |i: int| (v[i].0@, v[i].1@))
}

/// Convert an association list to a vector of key-value pairs
#[verifier::rlimit(40)]
pub fn alist_to_vec(alist: &Value) -> (r: Result<Vec<(Value, Value)>, String>)
    ensures
        match (r, alist_pairs(alist@)) {
            (Ok(v), Ok(ps)) => pairs_model(v@) == ps,
            (Err(e), Err(m)) => e@ == m,
            _ => false,
        },
{
    let mut result: Vec<(Value, Value)> = Vec::new();
    let mut current = alist.copy();
    let ghost whole = alist_pairs(alist@);
    loop
        invariant
            whole == alist_pairs(alist@),
            whole == after_pairs(pairs_model(result@), alist_pairs(current@)),
        decreases current@,
    {
        match current {
            Value::Cons(cell) => {
                let ghost before = current@;
                let ConsCell { car, cdr } = *cell;
                match car {
                    Value::Cons(pair) => {
                        let ghost pm = pairs_model(result@);
                        let ConsCell { car: key, cdr: val } = *pair;
                        proof {
                            assert(pairs_model(result@.push((key, val))) =~= pm.push(
                                (key@, val@),
                            ));
                            match alist_pairs(cdr@) {
                                Ok(rest) => {
                                    assert(pm.push((key@, val@)) + rest =~= pm + (seq![
                                        (key@, val@),
                                    ] + rest));
                                },
                                Err(_) => {},
                            }
                        }
                        result.push((key, val));
                        current = cdr;
                    },
                    _ => {
                        assert(!(car@ is Cons));
                        assert(alist_pairs(before) == Err::<Seq<(ValueModel, ValueModel)>, Seq<char>>(alist_element_message()));
                        return Err(String::from_str("alist element must be a cons cell"));
                    },
                }
            },
            Value::Nil => {
                assert(pairs_model(result@) + Seq::<(ValueModel, ValueModel)>::empty()
                    =~= pairs_model(result@));
                return Ok(result);
            },
            _ => {
                return Err(String::from_str("Expected proper list (ending in nil)"));
            },
        }
    }
}

/// The cell `(key . value)` for a pair.
pub open spec fn pair_cell(p: (ValueModel, ValueModel)) -> ValueModel {
    ValueModel::Cons(Box::new(p.0), Box::new(p.1))
}

/// The cells for `pairs`, in order.
pub open spec fn alist_cells(pairs: Seq<(ValueModel, ValueModel)>) -> Seq<ValueModel> {
    pairs.map_values(|p: (ValueModel, ValueModel)| pair_cell(p))
}

/// The list of `(key . value)` cells for `pairs`, in order.
pub open spec fn alist_model(pairs: Seq<(ValueModel, ValueModel)>) -> ValueModel {
    list_model(alist_cells(pairs))
}

/// Convert a vector of key-value pairs to an association list
pub fn vec_to_alist(pairs: Vec<(Value, Value)>) -> (r: Value)
    ensures
        r@ == alist_model(pairs_model(pairs@)),
{
    let ghost all = pairs_model(pairs@);
    let ghost cells = alist_cells(all);
    let mut pairs = pairs;
    let mut list = Value::Nil;
    proof {
        assert(cells.subrange(all.len() as int, all.len() as int) =~= Seq::<ValueModel>::empty());
    }
    while pairs.len() > 0
        invariant
            pairs.len() <= all.len(),
            all.len() == cells.len(),
            forall|j: int| 0 <= j < pairs.len() ==> (#[trigger] pairs@[j]).0@ == all[j].0
                && pairs@[j].1@ == all[j].1,
            cells == alist_cells(all),
            list@ == list_model(cells.subrange(pairs.len() as int, all.len() as int)),
        decreases pairs.len(),
    {
        let ghost k = pairs.len() - 1;
        let (key, val) = pairs.pop().unwrap();
        assert(cells.subrange(k, all.len() as int).drop_first() =~= cells.subrange(
            k + 1,
            all.len() as int,
        ));
        assert(cells.subrange(k, all.len() as int)[0] == cells[k]);
        list = cons(cons(key, val), list);
    }
    assert(cells.subrange(0, all.len() as int) =~= cells);
    list
}

// ============================================================================
// Argument Checking Helpers
// ============================================================================

/// `s` after a count other than one, nothing after a count of one.
pub open spec fn plural(n: int) -> Seq<char> {
    if n == 1 {
        Seq::empty()
    } else {
        "s"@
    }
}

pub open spec fn arity_exact_message(name: Seq<char>, expected: nat, got: nat) -> Seq<char> {
    name + ": expected "@ + decimal(expected) + " argument"@ + plural(expected as int) + ", got "@
        + decimal(got)
}

pub open spec fn arity_min_message(name: Seq<char>, min: nat, got: nat) -> Seq<char> {
    name + ": expected at least "@ + decimal(min) + " argument"@ + plural(min as int) + ", got "@
        + decimal(got)
}

pub open spec fn arity_range_message(name: Seq<char>, min: nat, max: nat, got: nat) -> Seq<char> {
    name + ": expected "@ + decimal(min) + "-"@ + decimal(max) + " arguments, got "@ + decimal(got)
}

fn push_count(m: &mut String, n: usize)
    ensures
        final(m)@ == old(m)@ + decimal(n as nat),
{
    push_decimal(m, n as u64);
}

/// Check that the number of arguments is exactly n
pub fn check_arity_exact(name: &str, args: &[Value], expected: usize) -> (r: Result<(), String>)
    ensures
        args@.len() == expected ==> r is Ok,
        args@.len() != expected ==> (r matches Err(m) && m@ == arity_exact_message(
            name@,
            expected as nat,
            args@.len(),
        )),
{
    if args.len() != expected {
        let mut m = String::from_str(name);
        m.append(": expected ");
        push_count(&mut m, expected);
        m.append(" argument");
        if expected != 1 {
            m.append("s");
        }
        m.append(", got ");
        push_count(&mut m, args.len());
        assert(m@ =~= arity_exact_message(name@, expected as nat, args@.len()));
        return Err(m);
    }
    Ok(())
}

/// Check that the number of arguments is at least n
pub fn check_arity_min(name: &str, args: &[Value], min: usize) -> (r: Result<(), String>)
    ensures
        args@.len() >= min ==> r is Ok,
        args@.len() < min ==> (r matches Err(m) && m@ == arity_min_message(
            name@,
            min as nat,
            args@.len(),
        )),
{
    if args.len() < min {
        let mut m = String::from_str(name);
        m.append(": expected at least ");
        push_count(&mut m, min);
        m.append(" argument");
        if min != 1 {
            m.append("s");
        }
        m.append(", got ");
        push_count(&mut m, args.len());
        assert(m@ =~= arity_min_message(name@, min as nat, args@.len()));
        return Err(m);
    }
    Ok(())
}

/// Check that the number of arguments is in range [min, max]
pub fn check_arity_range(name: &str, args: &[Value], min: usize, max: usize) -> (r: Result<
    (),
    String,
>)
    ensures
        min <= args@.len() <= max ==> r is Ok,
        !(min <= args@.len() <= max) ==> (r matches Err(m) && m@ == arity_range_message(
            name@,
            min as nat,
            max as nat,
            args@.len(),
        )),
{
    if args.len() < min || args.len() > max {
        let mut m = String::from_str(name);
        m.append(": expected ");
        push_count(&mut m, min);
        m.append("-");
        push_count(&mut m, max);
        m.append(" arguments, got ");
        push_count(&mut m, args.len());
        assert(m@ =~= arity_range_message(name@, min as nat, max as nat, args@.len()));
        return Err(m);
    }
    Ok(())
}

// ============================================================================
// Value Construction Helpers
// ============================================================================

/// Create a string Value
pub fn make_string(s: &str) -> (r: Value)
    ensures
        r@ == ValueModel::Str(s@),
{
    Value::Atom(AtomType::String(StringType::Basic(String::from_str(s))))
}

/// Create an integer Value
pub fn make_int(n: i64) -> (r: Value)
    ensures
        r@ == ValueModel::Number(NumberModel::Int(n)),
{
    Value::Atom(AtomType::Number(NumericType::Int(n)))
}

/// Create a boolean Value
pub fn make_bool(b: bool) -> (r: Value)
    ensures
        r@ == ValueModel::Bool(b),
{
    Value::Atom(AtomType::Bool(b))
}

/// Create a symbol Value
pub fn make_symbol(name: &str) -> (r: Value)
    ensures
        r@ == ValueModel::Symbol(name@),
{
    Value::Atom(AtomType::Symbol(SymbolType::Symbol(String::from_str(name))))
}

// ============================================================================
// Truthiness
// ============================================================================

/// Everything but the empty list and false is true.
pub open spec fn spec_truthy(v: ValueModel) -> bool {
    !(v is Nil) && v != ValueModel::Bool(false)
}

/// Check if a value is truthy (everything except nil and false)
pub fn is_truthy(value: &Value) -> (r: bool)
    ensures
        r == spec_truthy(value@),
{
    match value {
        Value::Nil => false,
        Value::Atom(AtomType::Bool(b)) => *b,
        _ => true,
    }
}

/// Check if a value is falsy (nil or false)
pub fn is_falsy(value: &Value) -> (r: bool)
    ensures
        r == !spec_truthy(value@),
{
    !is_truthy(value)
}

// ============================================================================
// Laws
// ============================================================================

/// Taking apart a list built from a sequence of values gives the sequence
/// back: the list is proper and its elements are the values, in order.
pub proof fn law_list_roundtrip(items: Seq<ValueModel>)
    ensures
        is_proper_list(list_model(items)),
        list_elements(list_model(items)) == items,
    decreases items.len(),
{
    if items.len() > 0 {
        law_list_roundtrip(items.drop_first());
        assert(seq![items[0]] + items.drop_first() =~= items);
    }
}

/// Reading an association list built from pairs gives the pairs back.
pub proof fn law_alist_roundtrip(pairs: Seq<(ValueModel, ValueModel)>)
    ensures
        alist_pairs(alist_model(pairs)) == Ok::<Seq<(ValueModel, ValueModel)>, Seq<char>>(pairs),
    decreases pairs.len(),
{
    let cells = alist_cells(pairs);
    if pairs.len() > 0 {
        let rest = pairs.drop_first();
        law_alist_roundtrip(rest);
        assert(cells.drop_first() =~= alist_cells(rest));
        assert(list_model(cells) == ValueModel::Cons(
            Box::new(cells[0]),
            Box::new(list_model(cells.drop_first())),
        ));
        assert(seq![(pairs[0].0, pairs[0].1)] + rest =~= pairs);
    } else {
        assert(cells =~= Seq::<ValueModel>::empty());
        assert(pairs =~= Seq::<(ValueModel, ValueModel)>::empty());
    }
}

} // verus!
