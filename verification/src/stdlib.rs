//! The standard library's native functions, as far as they compute: their
//! argument checks, the primitives on lists, the text that printing
//! writes, the result of a shell command and the symbols `gensym` makes.
//! Reading and writing files, running commands, the clock and the printing
//! itself happen outside the library.

use vstd::prelude::*;

use crate::language::{
    AtomType, StringType, SymbolType, Value, ValueModel, VectorValue, display, spec_car, spec_cdr,
    spec_cons, spec_eq, spec_is_atom, value_result,
};
use crate::native::{
    alist_model, expected_message, extract_string, make_bool, make_int, make_string, make_symbol,
    pairs_model, vec_to_alist,
};
use crate::numeric::NumberModel;
use crate::text::{decimal, lemma_decimal_digits, lemma_decimal_injective, push_char, push_decimal};

verus! {

// ============================================================================
// Standard I/O
// ============================================================================

/// How a value is printed by `print`: strings without quotes, everything
/// else in its printed form.
pub open spec fn display_text(v: ValueModel) -> Seq<char> {
    match v {
        ValueModel::Str(s) => s,
        other => display(other),
    }
}

/// The printed values separated by single spaces.
pub open spec fn joined_text(items: Seq<ValueModel>) -> Seq<char>
    decreases items.len(),
{
    if items.len() == 0 {
        Seq::empty()
    } else if items.len() == 1 {
        display_text(items[0])
    } else {
        joined_text(items.drop_last()) + seq![' '] + display_text(items.last())
    }
}

/// What `print` (without the newline) or `println` (with it) writes.
pub open spec fn print_line(items: Seq<ValueModel>, newline: bool) -> Seq<char> {
    joined_text(items) + if newline {
        seq!['\n']
    } else {
        Seq::empty()
    }
}

/// The models of a slice of values.
pub open spec fn args_model(args: Seq<Value>) -> Seq<ValueModel> {
    args.map_values(|v: Value| v@)
}

/// Convert a Value to its display string
/// Strings are printed without quotes, everything else uses Display
pub fn value_to_display_string(value: &Value) -> (r: String)
    ensures
        r@ == display_text(value@),
{
    match value {
        Value::Atom(AtomType::String(StringType::Basic(s))) => s.clone(),
        _ => value.to_string(),
    }
}

/// The text that `print` (without a newline) or `println` (with one)
/// writes for its arguments.
pub fn print_text(args: &[Value], newline: bool) -> (r: String)
    ensures
        r@ == print_line(args_model(args@), newline),
{
    let ghost items = args_model(args@);
    let mut out = String::new();
    let mut i: usize = 0;
    assert(items.take(0) =~= Seq::<ValueModel>::empty());
    while i < args.len()
        invariant
            items == args_model(args@),
            items.len() == args@.len(),
            i <= args.len(),
            out@ == joined_text(items.take(i as int)),
        decreases args.len() - i,
    {
        assert(items.take(i + 1).drop_last() =~= items.take(i as int));
        assert(items.take(i + 1).last() == args@[i as int]@);
        if i > 0 {
            push_char(&mut out, ' ');
        }
        let text = value_to_display_string(&args[i]);
        out.append(text.as_str());
        i = i + 1;
        proof {
            if i == 1 {
                assert(items.take(0) =~= Seq::<ValueModel>::empty());
            }
        }
        assert(out@ =~= joined_text(items.take(i as int)));
    }
    assert(items.take(args.len() as int) =~= items);
    if newline {
        push_char(&mut out, '\n');
    }
    assert(out@ =~= print_line(items, newline));
    out
}

// ============================================================================
// File I/O, processes and time: the arguments
// ============================================================================

/// The path that `slurp` reads: its one argument, which must be a string.
pub fn slurp_path(args: &[Value]) -> (r: Result<String, String>)
    ensures
        args@.len() != 1 ==> (r matches Err(m) && m@ == "slurp: expected 1 argument (path)"@),
        args@.len() == 1 ==> match args@[0]@ {
            ValueModel::Str(s) => r matches Ok(p) && p@ == s,
            other => r matches Err(m) && m@ == expected_message("string"@, other),
        },
{
    if args.len() != 1 {
        return Err(String::from_str("slurp: expected 1 argument (path)"));
    }
    extract_string(&args[0])
}

/// The path and content that `spit` writes: its two arguments, which must
/// be strings.
pub fn spit_args(args: &[Value]) -> (r: Result<(String, String), String>)
    ensures
        args@.len() != 2 ==> (r matches Err(m) && m@
            == "spit: expected 2 arguments (path, content)"@),
        args@.len() == 2 ==> match (args@[0]@, args@[1]@) {
            (ValueModel::Str(p), ValueModel::Str(c)) => r matches Ok((x, y)) && x@ == p && y@
                == c,
            (ValueModel::Str(_), other) => r matches Err(m) && m@ == expected_message(
                "string"@,
                other,
            ),
            (other, _) => r matches Err(m) && m@ == expected_message("string"@, other),
        },
{
    if args.len() != 2 {
        return Err(String::from_str("spit: expected 2 arguments (path, content)"));
    }
    let path = match extract_string(&args[0]) {
        Ok(p) => p,
        Err(e) => return Err(e),
    };
    let content = match extract_string(&args[1]) {
        Ok(c) => c,
        Err(e) => return Err(e),
    };
    Ok((path, content))
}

/// The command that `shell` runs: its one argument, which must be a string.
pub fn shell_command(args: &[Value]) -> (r: Result<String, String>)
    ensures
        args@.len() != 1 ==> (r matches Err(m) && m@ == "shell: expected 1 argument (command)"@),
        args@.len() == 1 ==> match args@[0]@ {
            ValueModel::Str(s) => r matches Ok(c) && c@ == s,
            other => r matches Err(m) && m@ == expected_message("string"@, other),
        },
{
    if args.len() != 1 {
        return Err(String::from_str("shell: expected 1 argument (command)"));
    }
    extract_string(&args[0])
}

/// The association list a shell command gives back:
/// `((:out . "...") (:err . "...") (:exit . code) (:success . t))`.
pub open spec fn spec_shell_result(out: Seq<char>, err: Seq<char>, code: i64, success: bool) -> ValueModel {
    alist_model(
        seq![
            (ValueModel::Symbol(":out"@), ValueModel::Str(out)),
            (ValueModel::Symbol(":err"@), ValueModel::Str(err)),
            (ValueModel::Symbol(":exit"@), ValueModel::Number(NumberModel::Int(code))),
            (ValueModel::Symbol(":success"@), ValueModel::Bool(success)),
        ],
    )
}

/// Builds what `shell` returns from the command's output, error output,
/// exit code and success.
pub fn shell_result(out: &str, err: &str, code: i64, success: bool) -> (r: Value)
    ensures
        r@ == spec_shell_result(out@, err@, code, success),
{
    let pairs = vec![
        (make_symbol(":out"), make_string(out)),
        (make_symbol(":err"), make_string(err)),
        (make_symbol(":exit"), make_int(code)),
        (make_symbol(":success"), make_bool(success)),
    ];
    proof {
        crate::language::lemma_entries_model(pairs@);
        assert(pairs_model(pairs@) =~= seq![
            (ValueModel::Symbol(":out"@), ValueModel::Str(out@)),
            (ValueModel::Symbol(":err"@), ValueModel::Str(err@)),
            (ValueModel::Symbol(":exit"@), ValueModel::Number(NumberModel::Int(code))),
            (ValueModel::Symbol(":success"@), ValueModel::Bool(success)),
        ]);
    }
    vec_to_alist(pairs)
}

/// The check of `now`'s arguments: there must be none.
pub fn now_args(args: &[Value]) -> (r: Result<(), String>)
    ensures
        args@.len() == 0 ==> r is Ok,
        args@.len() != 0 ==> (r matches Err(m) && m@ == "now: expected 0 arguments"@),
{
    if args.len() != 0 {
        return Err(String::from_str("now: expected 0 arguments"));
    }
    Ok(())
}

// ============================================================================
// Macro support
// ============================================================================

/// The symbol `gensym` makes with the counter at `counter`: the prefix (`g`
/// without arguments, else the one string argument), two underscores, and
/// the counter in decimal.
pub open spec fn spec_gensym(args: Seq<ValueModel>, counter: nat) -> Result<ValueModel, Seq<char>> {
    if args.len() == 0 {
        Ok(ValueModel::Symbol("g__"@ + decimal(counter)))
    } else if args.len() == 1 {
        match args[0] {
            ValueModel::Str(p) => Ok(ValueModel::Symbol(p + "__"@ + decimal(counter))),
            other => Err(expected_message("string"@, other)),
        }
    } else {
        Err("gensym: expected 0 or 1 arguments"@)
    }
}

/// Generate a unique symbol (for macro hygiene), numbered by `counter`;
/// the caller moves the counter on after a success.
pub fn gensym(args: &[Value], counter: usize) -> (r: Result<Value, String>)
    ensures
        value_result(r) == spec_gensym(args_model(args@), counter as nat),
{
    let mut prefix = if args.len() == 0 {
        String::from_str("g")
    } else if args.len() == 1 {
        match extract_string(&args[0]) {
            Ok(p) => p,
            Err(e) => {
                assert(args_model(args@)[0] == args@[0]@);
                return Err(e);
            },
        }
    } else {
        return Err(String::from_str("gensym: expected 0 or 1 arguments"));
    };
    proof {
        if args.len() == 1 {
            assert(args_model(args@)[0] == args@[0]@);
        }
        reveal_strlit("g");
        reveal_strlit("__");
        reveal_strlit("g__");
    }
    let ghost p0 = prefix@;
    prefix.append("__");
    push_decimal(&mut prefix, counter as u64);
    proof {
        if args.len() == 0 {
            assert(p0 == "g"@);
            assert("g"@ + "__"@ =~= "g__"@);
            assert(prefix@ =~= "g__"@ + decimal(counter as nat));
        } else {
            assert(prefix@ =~= p0 + "__"@ + decimal(counter as nat));
        }
    }
    Ok(Value::Atom(AtomType::Symbol(SymbolType::Symbol(prefix))))
}

/// The counter that numbers the symbols `gensym` makes.
pub struct GensymState {
    pub next: usize,
}

impl GensymState {
    /// A counter that starts at zero.
    pub fn new() -> (r: Self)
        ensures
            r.next == 0,
    {
        GensymState { next: 0 }
    }
}

/// Makes the next symbol: `gensym`'s symbol for the current counter; the
/// counter moves on by one exactly when a symbol is made.
pub fn gensym_next(args: &[Value], st: &mut GensymState) -> (r: Result<Value, String>)
    requires
        old(st).next < usize::MAX,
    ensures
        value_result(r) == spec_gensym(args_model(args@), old(st).next as nat),
        r is Ok ==> final(st).next == old(st).next + 1,
        r is Err ==> final(st).next == old(st).next,
{
    let r = gensym(args, st.next);
    if r.is_ok() {
        st.next = st.next + 1;
    }
    r
}

/// Symbols that `gensym` makes with different counters are different,
/// whatever the prefixes: the counter is the run of digits after the last
/// two underscores.
pub proof fn law_gensym_names_differ(a1: Seq<ValueModel>, c1: nat, a2: Seq<ValueModel>, c2: nat)
    requires
        c1 != c2,
        spec_gensym(a1, c1) is Ok,
        spec_gensym(a2, c2) is Ok,
    ensures
        spec_gensym(a1, c1) != spec_gensym(a2, c2),
{
    reveal_strlit("g__");
    reveal_strlit("__");
    let s1 = match spec_gensym(a1, c1) {
        Ok(ValueModel::Symbol(s)) => s,
        _ => Seq::empty(),
    };
    let s2 = match spec_gensym(a2, c2) {
        Ok(ValueModel::Symbol(s)) => s,
        _ => Seq::empty(),
    };
    let d1 = decimal(c1);
    let d2 = decimal(c2);
    lemma_decimal_digits(c1);
    lemma_decimal_digits(c2);
    // Each name ends with an underscore and then its counter's digits.
    assert(s1.len() >= d1.len() + 2 && s1.subrange(s1.len() - d1.len(), s1.len() as int) =~= d1
        && s1[s1.len() - d1.len() - 1] == '_') by {
        if a1.len() == 0 {
            assert(s1 =~= "g__"@ + d1);
        } else {
            let p = s1.subrange(0, s1.len() - d1.len() - 2);
            assert(s1 =~= p + "__"@ + d1);
        }
    }
    assert(s2.len() >= d2.len() + 2 && s2.subrange(s2.len() - d2.len(), s2.len() as int) =~= d2
        && s2[s2.len() - d2.len() - 1] == '_') by {
        if a2.len() == 0 {
            assert(s2 =~= "g__"@ + d2);
        } else {
            let p = s2.subrange(0, s2.len() - d2.len() - 2);
            assert(s2 =~= p + "__"@ + d2);
        }
    }
    if s1 == s2 {
        if d1.len() == d2.len() {
            assert(d1 =~= d2);
            lemma_decimal_injective(c1, c2);
        } else if d1.len() < d2.len() {
            let k = d2.len() - d1.len() - 1;
            assert(s2[s2.len() - d2.len() + k] == d2[k]);
        } else {
            let k = d1.len() - d2.len() - 1;
            assert(s1[s1.len() - d1.len() + k] == d1[k]);
        }
    }
}

// ============================================================================
// Core List Operations
// ============================================================================

/// Test if value is an atom
pub fn atom(args: &[Value]) -> (r: Result<Value, String>)
    ensures
        args@.len() != 1 ==> (r matches Err(m) && m@ == "atom: expected 1 argument"@),
        args@.len() == 1 ==> (r matches Ok(v) && v@ == ValueModel::Bool(spec_is_atom(args@[0]@))),
{
    if args.len() != 1 {
        return Err(String::from_str("atom: expected 1 argument"));
    }
    Ok(make_bool(crate::language::is_atom(&args[0])))
}

/// Test equality of two atoms
pub fn eq(args: &[Value]) -> (r: Result<Value, String>)
    ensures
        args@.len() != 2 ==> (r matches Err(m) && m@ == "eq: expected 2 arguments"@),
        args@.len() == 2 ==> (r matches Ok(v) && v@ == ValueModel::Bool(
            spec_eq(args@[0]@, args@[1]@),
        )),
{
    if args.len() != 2 {
        return Err(String::from_str("eq: expected 2 arguments"));
    }
    Ok(make_bool(crate::language::eq(&args[0], &args[1])))
}

/// Get first element of a list
pub fn car(args: &[Value]) -> (r: Result<Value, String>)
    ensures
        args@.len() != 1 ==> (r matches Err(m) && m@ == "car: expected 1 argument"@),
        args@.len() == 1 ==> value_result(r) == spec_car(args@[0]@),
{
    if args.len() != 1 {
        return Err(String::from_str("car: expected 1 argument"));
    }
    crate::language::car(&args[0])
}

/// Get rest of a list
pub fn cdr(args: &[Value]) -> (r: Result<Value, String>)
    ensures
        args@.len() != 1 ==> (r matches Err(m) && m@ == "cdr: expected 1 argument"@),
        args@.len() == 1 ==> value_result(r) == spec_cdr(args@[0]@),
{
    if args.len() != 1 {
        return Err(String::from_str("cdr: expected 1 argument"));
    }
    crate::language::cdr(&args[0])
}

/// Construct a cons cell
pub fn cons_fn(args: &[Value]) -> (r: Result<Value, String>)
    ensures
        args@.len() != 2 ==> (r matches Err(m) && m@ == "cons: expected 2 arguments"@),
        args@.len() == 2 ==> (r matches Ok(v) && v@ == spec_cons(args@[0]@, args@[1]@)),
{
    if args.len() != 2 {
        return Err(String::from_str("cons: expected 2 arguments"));
    }
    Ok(crate::language::cons(args[0].copy(), args[1].copy()))
}

/// Construct a vector from arguments
pub fn vector(args: &[Value]) -> (r: Result<Value, String>)
    ensures
        r matches Ok(v) && v@ == ValueModel::Vector(args_model(args@)),
{
    let mut elements: Vec<Value> = Vec::new();
    let mut i: usize = 0;
    while i < args.len()
        invariant
            i <= args.len(),
            elements.len() == i,
            forall|j: int| 0 <= j < i ==> (#[trigger] elements@[j])@ == args@[j]@,
        decreases args.len() - i,
    {
        elements.push(args[i].copy());
        i = i + 1;
    }
    proof {
        crate::language::lemma_values_model(elements@);
        assert forall|j: int| 0 <= j < args@.len() implies crate::language::values_model(
            elements@,
        )[j] == args_model(args@)[j] by {
            assert(crate::language::value_model(elements@[j]) == elements@[j]@);
        }
        assert(crate::language::values_model(elements@) =~= args_model(args@));
    }
    Ok(Value::Vector(Box::new(VectorValue { elements })))
}

} // verus!
