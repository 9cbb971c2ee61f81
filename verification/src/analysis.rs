//! Static analysis of expressions: built-in operators, list elements, and
//! free variables.

use vstd::prelude::*;

use crate::language::{
    AtomType, ConsCell, SymbolType, Value, ValueModel, entries_model, list_elements, value_model,
    values_model,
};
use crate::text::str_eq;

verus! {

/// The built-in operators and special forms.
pub open spec fn builtin_names() -> Seq<Seq<char>> {
    seq![
        "quote"@, "lambda"@, "label"@, "cond"@, "cons"@, "car"@, "cdr"@, "+"@, "-"@, "*"@, "/"@,
        "="@, "<"@, ">"@, "<="@, ">="@, "eq"@, "atom"@, "nil?"@, "number?"@, "cons?"@, "not"@,
        "t"@, "nil"@,
    ]
}

/// Check if a symbol is a built-in operator.
pub fn is_builtin(name: &str) -> (r: bool)
    ensures
        r == builtin_names().contains(name@),
{
    let names: [&str; 24] = [
        "quote",
        "lambda",
        "label",
        "cond",
        "cons",
        "car",
        "cdr",
        "+",
        "-",
        "*",
        "/",
        "=",
        "<",
        ">",
        "<=",
        ">=",
        "eq",
        "atom",
        "nil?",
        "number?",
        "cons?",
        "not",
        "t",
        "nil",
    ];
    let mut i: usize = 0;
    while i < 24
        invariant
            i <= 24,
            forall|j: int| 0 <= j < 24 ==> (#[trigger] names@[j])@ == builtin_names()[j],
            forall|j: int| 0 <= j < i ==> builtin_names()[j] != name@,
        decreases 24 - i,
    {
        if str_eq(name, names[i]) {
            assert(builtin_names()[i as int] == name@);
            return true;
        }
        i += 1;
    }
    false
}

/// Collect a cons list into a Vec.
pub fn collect_list(val: &Value) -> (r: Vec<Value>)
    ensures
        values_model(r@) == list_elements(val@),
{
    let mut result: Vec<Value> = Vec::new();
    let mut current = val.copy();
    let ghost whole = list_elements(val@);
    loop
        invariant
            whole == list_elements(val@),
            whole == values_model(result@) + list_elements(current@),
        ensures
            whole == values_model(result@),
        decreases current@,
    {
        match current {
            Value::Cons(cell) => {
                let ghost before = current@;
                let ConsCell { car, cdr } = *cell;
                proof {
                    assert(result@.push(car).drop_last() =~= result@);
                    assert(values_model(result@.push(car)) =~= values_model(result@).push(car@));
                    assert(list_elements(before) =~= seq![car@] + list_elements(cdr@));
                    assert(values_model(result@).push(car@) + list_elements(cdr@)
                        =~= values_model(result@) + (seq![car@] + list_elements(cdr@)));
                }
                result.push(car);
                current = cdr;
            },
            _ => {
                assert(list_elements(current@) =~= Seq::<ValueModel>::empty());
                assert(whole =~= values_model(result@));
                break ;
            },
        }
    }
    result
}

// ============================================================================
// Free variables
// ============================================================================

/// The names in a vector of strings.
pub open spec fn names_of(v: Seq<String>) -> Set<Seq<char>> {
    Set::new(|n: Seq<char>| exists|i: int| 0 <= i < v.len() && (#[trigger] v[i])@ == n)
}

/// No name occurs twice.
pub open spec fn distinct_names(v: Seq<String>) -> bool {
    forall|i: int, j: int| 0 <= i < j < v.len() ==> (#[trigger] v[i])@ != (#[trigger] v[j])@
}

/// The name of a symbol, as a set of at most one name.
pub open spec fn symbol_name(v: ValueModel) -> Set<Seq<char>> {
    match v {
        ValueModel::Symbol(s) => set![s],
        _ => Set::empty(),
    }
}

/// The symbols along a parameter list.
pub open spec fn param_names(p: ValueModel) -> Set<Seq<char>>
    decreases p,
{
    match p {
        ValueModel::Cons(a, rest) => symbol_name(*a).union(param_names(*rest)),
        _ => Set::empty(),
    }
}

/// The variables that `v` uses and that neither `bound` nor a `lambda` or
/// `label` around the use binds; built-in operators and special forms are
/// not variables, and nothing inside `quote` is used.
pub open spec fn free_vars(v: ValueModel, bound: Set<Seq<char>>) -> Set<Seq<char>>
    decreases v, 2nat,
{
    match v {
        ValueModel::Symbol(n) => if !builtin_names().contains(n) && !bound.contains(n) {
            set![n]
        } else {
            Set::empty()
        },
        ValueModel::Cons(a, d) => {
            let operator_and_args = free_vars(*a, bound).union(free_args(*d, bound));
            match *a {
                ValueModel::Symbol(name) => if name == "quote"@ {
                    Set::empty()
                } else if name == "lambda"@ {
                    match *d {
                        ValueModel::Cons(params, rest) => match *rest {
                            ValueModel::Cons(body, _) => free_vars(
                                *body,
                                bound.union(param_names(*params)),
                            ),
                            _ => Set::empty(),
                        },
                        _ => Set::empty(),
                    }
                } else if name == "label"@ {
                    match *d {
                        ValueModel::Cons(nm, rest) => match *rest {
                            ValueModel::Cons(lam, _) => free_vars(
                                *lam,
                                bound.union(symbol_name(*nm)),
                            ),
                            _ => Set::empty(),
                        },
                        _ => Set::empty(),
                    }
                } else if name == "cond"@ {
                    free_clauses(*d, bound)
                } else {
                    operator_and_args
                },
                _ => operator_and_args,
            }
        },
        ValueModel::Vector(items) => free_items(items, bound),
        ValueModel::HashMap(entries) => free_entries(entries, bound),
        ValueModel::HashSet(items) => free_items(items, bound),
        _ => Set::empty(),
    }
}

/// Free variables of the cars along a chain of cons cells.
pub open spec fn free_args(d: ValueModel, bound: Set<Seq<char>>) -> Set<Seq<char>>
    decreases d, 1nat,
{
    match d {
        ValueModel::Cons(a, rest) => free_vars(*a, bound).union(free_args(*rest, bound)),
        _ => Set::empty(),
    }
}

/// Free variables of the parts of each `cond` clause.
pub open spec fn free_clauses(d: ValueModel, bound: Set<Seq<char>>) -> Set<Seq<char>>
    decreases d, 1nat,
{
    match d {
        ValueModel::Cons(c, rest) => free_args(*c, bound).union(free_clauses(*rest, bound)),
        _ => Set::empty(),
    }
}

/// Free variables of the elements of a vector.
pub open spec fn free_items(items: Seq<ValueModel>, bound: Set<Seq<char>>) -> Set<Seq<char>>
    decreases items, 1nat,
{
    if items.len() == 0 {
        Set::empty()
    } else {
        free_items(items.drop_last(), bound).union(free_vars(items.last(), bound))
    }
}

/// Free variables of the keys and values of map entries.
pub open spec fn free_entries(entries: Seq<(ValueModel, ValueModel)>, bound: Set<Seq<char>>) -> Set<
    Seq<char>,
>
    decreases entries, 1nat,
{
    if entries.len() == 0 {
        Set::empty()
    } else {
        free_entries(entries.drop_last(), bound).union(free_vars(entries.last().0, bound)).union(
            free_vars(entries.last().1, bound),
        )
    }
}

fn contains_name(v: &Vec<String>, name: &String) -> (r: bool)
    ensures
        r == names_of(v@).contains(name@),
{
    let mut i: usize = 0;
    while i < v.len()
        invariant
            i <= v.len(),
            forall|j: int| 0 <= j < i ==> (#[trigger] v@[j])@ != name@,
        decreases v.len() - i,
    {
        if v[i].eq(name) {
            assert(names_of(v@).contains(name@)) by {
                assert(v@[i as int]@ == name@);
            }
            return true;
        }
        i += 1;
    }
    assert(!names_of(v@).contains(name@)) by {
        if names_of(v@).contains(name@) {
            let k = choose|k: int| 0 <= k < v@.len() && (#[trigger] v@[k])@ == name@;
            assert(v@[k]@ == name@);
        }
    }
    false
}

/// Adds a name unless it is already there.
fn insert_name(v: &mut Vec<String>, name: &String)
    requires
        distinct_names(old(v)@),
    ensures
        distinct_names(final(v)@),
        names_of(final(v)@) == names_of(old(v)@).insert(name@),
{
    if !contains_name(v, name) {
        let ghost before = v@;
        v.push(name.clone());
        proof {
            assert forall|n: Seq<char>| names_of(v@).contains(n) == names_of(before).insert(
                name@,
            ).contains(n) by {
                if names_of(before).contains(n) {
                    let k = choose|k: int| 0 <= k < before.len() && (#[trigger] before[k])@ == n;
                    assert(v@[k] == before[k]);
                }
                if n == name@ {
                    assert(v@[before.len() as int]@ == n);
                }
                if names_of(v@).contains(n) {
                    let k = choose|k: int| 0 <= k < v@.len() && (#[trigger] v@[k])@ == n;
                    if k < before.len() {
                        assert(before[k] == v@[k]);
                    }
                }
            }
            assert(names_of(v@) =~= names_of(before).insert(name@));
        }
    } else {
        assert(names_of(v@) =~= names_of(v@).insert(name@));
    }
}

/// A copy of the bound names with `name` added.
fn bound_with(bound: &Vec<String>, name: &String) -> (r: Vec<String>)
    ensures
        names_of(r@) == names_of(bound@).insert(name@),
{
    let mut r: Vec<String> = Vec::new();
    let mut i: usize = 0;
    while i < bound.len()
        invariant
            i <= bound.len(),
            r@.len() == i,
            forall|j: int| 0 <= j < i ==> (#[trigger] r@[j])@ == bound@[j]@,
        decreases bound.len() - i,
    {
        r.push(bound[i].clone());
        i += 1;
    }
    let ghost before = r@;
    r.push(name.clone());
    proof {
        assert forall|n: Seq<char>| names_of(r@).contains(n) == names_of(bound@).insert(
            name@,
        ).contains(n) by {
            if names_of(bound@).contains(n) {
                let k = choose|k: int| 0 <= k < bound@.len() && (#[trigger] bound@[k])@ == n;
                assert(r@[k]@ == n);
            }
            if n == name@ {
                assert(r@[before.len() as int]@ == n);
            }
            if names_of(r@).contains(n) {
                let k = choose|k: int| 0 <= k < r@.len() && (#[trigger] r@[k])@ == n;
                if k < bound@.len() {
                    assert(bound@[k]@ == n);
                }
            }
        }
        assert(names_of(r@) =~= names_of(bound@).insert(name@));
    }
    r
}

/// The bound names extended with the symbols of a parameter list.
fn bound_with_params(bound: &Vec<String>, params: &Value) -> (r: Vec<String>)
    ensures
        names_of(r@) == names_of(bound@).union(param_names(params@)),
    decreases params,
{
    match params {
        Value::Cons(cell) => {
            let rest = bound_with_params(bound, &cell.cdr);
            match &cell.car {
                Value::Atom(AtomType::Symbol(SymbolType::Symbol(s))) => {
                    let r = bound_with(&rest, s);
                    proof {
                        reveal_with_fuel(value_model, 2);
                        assert(names_of(r@) =~= names_of(bound@).union(param_names(params@)));
                    }
                    r
                },
                _ => {
                    proof {
                        reveal_with_fuel(value_model, 2);
                        assert(symbol_name(cell.car@) =~= Set::<Seq<char>>::empty());
                        assert(names_of(rest@) =~= names_of(bound@).union(param_names(params@)));
                    }
                    rest
                },
            }
        },
        _ => {
            let mut r: Vec<String> = Vec::new();
            let mut i: usize = 0;
            while i < bound.len()
                invariant
                    i <= bound.len(),
                    r@.len() == i,
                    forall|j: int| 0 <= j < i ==> (#[trigger] r@[j])@ == bound@[j]@,
                decreases bound.len() - i,
            {
                r.push(bound[i].clone());
                i += 1;
            }
            proof {
                assert forall|n: Seq<char>| names_of(r@).contains(n) == names_of(bound@).contains(
                    n,
                ) by {
                    if names_of(bound@).contains(n) {
                        let k = choose|k: int| 0 <= k < bound@.len() && (#[trigger] bound@[k])@ == n;
                        assert(r@[k]@ == n);
                    }
                    if names_of(r@).contains(n) {
                        let k = choose|k: int| 0 <= k < r@.len() && (#[trigger] r@[k])@ == n;
                        assert(bound@[k]@ == n);
                    }
                }
                assert(names_of(r@) =~= names_of(bound@).union(param_names(params@)));
            }
            r
        },
    }
}

/// Find all free variables in an expression: those it uses that `bound`
/// does not hold and no form inside it binds.
pub fn find_free_variables(expr: &Value, bound: &Vec<String>) -> (r: Vec<String>)
    ensures
        names_of(r@) == free_vars(expr@, names_of(bound@)),
        distinct_names(r@),
{
    let mut free: Vec<String> = Vec::new();
    proof {
        assert(names_of(free@) =~= Set::<Seq<char>>::empty());
    }
    find_free_vars_helper(expr, bound, &mut free);
    assert(names_of(free@) =~= free_vars(expr@, names_of(bound@)));
    free
}

/// Adds the free variables of `expr` to `free`.
#[verifier::loop_isolation(false)]
fn find_free_vars_helper(expr: &Value, bound: &Vec<String>, free: &mut Vec<String>)
    requires
        distinct_names(old(free)@),
    ensures
        distinct_names(final(free)@),
        names_of(final(free)@) == names_of(old(free)@).union(free_vars(expr@, names_of(bound@))),
    decreases expr, 2nat,
{
    proof {
        reveal_with_fuel(value_model, 3);
    }
    match expr {
        Value::Atom(AtomType::Symbol(SymbolType::Symbol(sym))) => {
            if !is_builtin(sym.as_str()) && !contains_name(bound, sym) {
                insert_name(free, sym);
                assert(names_of(free@) =~= names_of(old(free)@).union(
                    free_vars(expr@, names_of(bound@)),
                ));
            } else {
                assert(names_of(free@) =~= names_of(old(free)@).union(
                    free_vars(expr@, names_of(bound@)),
                ));
            }
        },
        Value::Cons(cell) => {
            if let Value::Atom(AtomType::Symbol(SymbolType::Symbol(sym))) = &cell.car {
                if str_eq(sym.as_str(), "quote") {
                    assert(names_of(free@) =~= names_of(old(free)@).union(
                        free_vars(expr@, names_of(bound@)),
                    ));
                } else if str_eq(sym.as_str(), "lambda") {
                    match &cell.cdr {
                        Value::Cons(c1) => match &c1.cdr {
                            Value::Cons(c2) => {
                                let new_bound = bound_with_params(bound, &c1.car);
                                find_free_vars_helper(&c2.car, &new_bound, free);
                            },
                            _ => {
                                assert(names_of(free@) =~= names_of(old(free)@).union(
                                    free_vars(expr@, names_of(bound@)),
                                ));
                            },
                        },
                        _ => {
                            assert(names_of(free@) =~= names_of(old(free)@).union(
                                free_vars(expr@, names_of(bound@)),
                            ));
                        },
                    }
                } else if str_eq(sym.as_str(), "label") {
                    match &cell.cdr {
                        Value::Cons(c1) => match &c1.cdr {
                            Value::Cons(c2) => {
                                let new_bound = match &c1.car {
                                    Value::Atom(AtomType::Symbol(SymbolType::Symbol(s))) => {
                                        bound_with(bound, s)
                                    },
                                    _ => {
                                        let empty = Value::Nil;
                                        let r = bound_with_params(bound, &empty);
                                        assert(symbol_name(c1.car@) =~= Set::<Seq<char>>::empty());
                                        r
                                    },
                                };
                                assert(names_of(new_bound@) =~= names_of(bound@).union(
                                    symbol_name(c1.car@),
                                ));
                                find_free_vars_helper(&c2.car, &new_bound, free);
                            },
                            _ => {
                                assert(names_of(free@) =~= names_of(old(free)@).union(
                                    free_vars(expr@, names_of(bound@)),
                                ));
                            },
                        },
                        _ => {
                            assert(names_of(free@) =~= names_of(old(free)@).union(
                                free_vars(expr@, names_of(bound@)),
                            ));
                        },
                    }
                } else if str_eq(sym.as_str(), "cond") {
                    free_in_clauses(&cell.cdr, bound, free);
                } else {
                    find_free_vars_helper(&cell.car, bound, free);
                    free_in_args(&cell.cdr, bound, free);
                    assert(names_of(free@) =~= names_of(old(free)@).union(
                        free_vars(expr@, names_of(bound@)),
                    ));
                }
            } else {
                find_free_vars_helper(&cell.car, bound, free);
                free_in_args(&cell.cdr, bound, free);
                assert(names_of(free@) =~= names_of(old(free)@).union(
                    free_vars(expr@, names_of(bound@)),
                ));
            }
        },
        Value::Vector(vec) => {
            let ghost items = vec.elements@;
            proof {
                crate::language::lemma_values_model(items);
            }
            let ghost start = free@;
            let mut i: usize = 0;
            while i < vec.elements.len()
                invariant
                    items == vec.elements@,
                    i <= items.len(),
                    values_model(items).len() == items.len(),
                    forall|j: int|
                        0 <= j < items.len() ==> values_model(items)[j] == value_model(
                            #[trigger] items[j],
                        ),
                    distinct_names(free@),
                    start == old(free)@,
                    names_of(free@) == names_of(start).union(
                        free_items(values_model(items).take(i as int), names_of(bound@)),
                    ),
                decreases items.len() - i,
            {
                proof {
                    assert(decreases_to!(*expr => **vec));
                    assert(decreases_to!(**vec => vec.elements));
                    assert(decreases_to!(vec.elements => vec.elements@));
                    assert(decreases_to!(vec.elements@ => vec.elements@[i as int]));
                }
                let ghost ms = values_model(items);
                assert(ms.take(i + 1).drop_last() =~= ms.take(i as int));
                find_free_vars_helper(&vec.elements[i], bound, free);
                i += 1;
                assert(names_of(free@) =~= names_of(start).union(
                    free_items(ms.take(i as int), names_of(bound@)),
                ));
            }
            assert(values_model(items).take(items.len() as int) =~= values_model(items));
        },
        Value::HashSet(set) => {
            let ghost items = set.elements@;
            proof {
                crate::language::lemma_values_model(items);
            }
            let ghost start = free@;
            let mut i: usize = 0;
            while i < set.elements.len()
                invariant
                    items == set.elements@,
                    i <= items.len(),
                    values_model(items).len() == items.len(),
                    forall|j: int|
                        0 <= j < items.len() ==> values_model(items)[j] == value_model(
                            #[trigger] items[j],
                        ),
                    distinct_names(free@),
                    start == old(free)@,
                    names_of(free@) == names_of(start).union(
                        free_items(values_model(items).take(i as int), names_of(bound@)),
                    ),
                decreases items.len() - i,
            {
                proof {
                    assert(decreases_to!(*expr => **set));
                    assert(decreases_to!(**set => set.elements));
                    assert(decreases_to!(set.elements => set.elements@));
                    assert(decreases_to!(set.elements@ => set.elements@[i as int]));
                }
                let ghost ms = values_model(items);
                assert(ms.take(i + 1).drop_last() =~= ms.take(i as int));
                find_free_vars_helper(&set.elements[i], bound, free);
                i += 1;
                assert(names_of(free@) =~= names_of(start).union(
                    free_items(ms.take(i as int), names_of(bound@)),
                ));
            }
            assert(values_model(items).take(items.len() as int) =~= values_model(items));
        },
        Value::HashMap(map) => {
            let ghost items = map.entries@;
            proof {
                crate::language::lemma_entries_model(items);
            }
            let ghost start = free@;
            let mut i: usize = 0;
            while i < map.entries.len()
                invariant
                    items == map.entries@,
                    i <= items.len(),
                    entries_model(items).len() == items.len(),
                    forall|j: int|
                        0 <= j < items.len() ==> #[trigger] entries_model(items)[j] == (
                            value_model(items[j].0),
                            value_model(items[j].1),
                        ),
                    distinct_names(free@),
                    start == old(free)@,
                    names_of(free@) == names_of(start).union(
                        free_entries(entries_model(items).take(i as int), names_of(bound@)),
                    ),
                decreases items.len() - i,
            {
                proof {
                    assert(decreases_to!(*expr => **map));
                    assert(decreases_to!(**map => map.entries));
                    assert(decreases_to!(map.entries => map.entries@));
                    assert(decreases_to!(map.entries@ => map.entries@[i as int]));
                    assert(decreases_to!(map.entries@[i as int] => map.entries@[i as int].0));
                    assert(decreases_to!(map.entries@[i as int] => map.entries@[i as int].1));
                }
                let ghost ms = entries_model(items);
                assert(ms.take(i + 1).drop_last() =~= ms.take(i as int));
                assert(ms[i as int] == (value_model(items[i as int].0), value_model(items[i as int].1)));
                find_free_vars_helper(&map.entries[i].0, bound, free);
                find_free_vars_helper(&map.entries[i].1, bound, free);
                i += 1;
                assert(names_of(free@) =~= names_of(start).union(
                    free_entries(ms.take(i as int), names_of(bound@)),
                ));
            }
            assert(entries_model(items).take(items.len() as int) =~= entries_model(items));
        },
        _ => {
            assert(names_of(free@) =~= names_of(old(free)@).union(
                free_vars(expr@, names_of(bound@)),
            ));
        },
    }
}

/// Adds the free variables of the cars along a chain of cons cells.
fn free_in_args(d: &Value, bound: &Vec<String>, free: &mut Vec<String>)
    requires
        distinct_names(old(free)@),
    ensures
        distinct_names(final(free)@),
        names_of(final(free)@) == names_of(old(free)@).union(free_args(d@, names_of(bound@))),
    decreases d, 1nat,
{
    match d {
        Value::Cons(cell) => {
            find_free_vars_helper(&cell.car, bound, free);
            free_in_args(&cell.cdr, bound, free);
            assert(names_of(free@) =~= names_of(old(free)@).union(
                free_args(d@, names_of(bound@)),
            ));
        },
        _ => {
            assert(names_of(free@) =~= names_of(old(free)@).union(
                free_args(d@, names_of(bound@)),
            ));
        },
    }
}

/// Adds the free variables of the parts of each `cond` clause.
fn free_in_clauses(d: &Value, bound: &Vec<String>, free: &mut Vec<String>)
    requires
        distinct_names(old(free)@),
    ensures
        distinct_names(final(free)@),
        names_of(final(free)@) == names_of(old(free)@).union(free_clauses(d@, names_of(bound@))),
    decreases d, 1nat,
{
    match d {
        Value::Cons(cell) => {
            free_in_args(&cell.car, bound, free);
            free_in_clauses(&cell.cdr, bound, free);
            assert(names_of(free@) =~= names_of(old(free)@).union(
                free_clauses(d@, names_of(bound@)),
            ));
        },
        _ => {
            assert(names_of(free@) =~= names_of(old(free)@).union(
                free_clauses(d@, names_of(bound@)),
            ));
        },
    }
}

/// Every symbol of a parameter list is among its names.
proof fn lemma_param_names_hold_params(p: ValueModel, i: int)
    requires
        0 <= i < list_elements(p).len(),
        list_elements(p)[i] is Symbol,
    ensures
        param_names(p).contains(list_elements(p)[i]->Symbol_0),
    decreases p,
{
    if let ValueModel::Cons(a, rest) = p {
        assert(list_elements(p) == seq![*a] + list_elements(*rest));
        if i > 0 {
            assert(list_elements(p)[i] == list_elements(*rest)[i - 1]);
            lemma_param_names_hold_params(*rest, i - 1);
        }
    }
}

proof fn lemma_free_vars_unbound(v: ValueModel, bound: Set<Seq<char>>, n: Seq<char>)
    ensures
        free_vars(v, bound).contains(n) ==> !bound.contains(n),
    decreases v, 2nat,
{
    match v {
        ValueModel::Cons(a, d) => {
            lemma_free_vars_unbound(*a, bound, n);
            lemma_free_args_unbound(*d, bound, n);
            match *a {
                ValueModel::Symbol(_) => {
                    match *d {
                        ValueModel::Cons(x, rest) => match *rest {
                            ValueModel::Cons(y, _) => {
                                lemma_free_vars_unbound(*y, bound.union(param_names(*x)), n);
                                lemma_free_vars_unbound(*y, bound.union(symbol_name(*x)), n);
                            },
                            _ => {},
                        },
                        _ => {},
                    }
                    lemma_free_clauses_unbound(*d, bound, n);
                },
                _ => {},
            }
        },
        ValueModel::Vector(items) => lemma_free_items_unbound(items, bound, n),
        ValueModel::HashMap(entries) => lemma_free_entries_unbound(entries, bound, n),
        ValueModel::HashSet(items) => lemma_free_items_unbound(items, bound, n),
        _ => {},
    }
}

proof fn lemma_free_args_unbound(d: ValueModel, bound: Set<Seq<char>>, n: Seq<char>)
    ensures
        free_args(d, bound).contains(n) ==> !bound.contains(n),
    decreases d, 1nat,
{
    if let ValueModel::Cons(a, rest) = d {
        lemma_free_vars_unbound(*a, bound, n);
        lemma_free_args_unbound(*rest, bound, n);
    }
}

proof fn lemma_free_clauses_unbound(d: ValueModel, bound: Set<Seq<char>>, n: Seq<char>)
    ensures
        free_clauses(d, bound).contains(n) ==> !bound.contains(n),
    decreases d, 1nat,
{
    if let ValueModel::Cons(c, rest) = d {
        lemma_free_args_unbound(*c, bound, n);
        lemma_free_clauses_unbound(*rest, bound, n);
    }
}

proof fn lemma_free_items_unbound(items: Seq<ValueModel>, bound: Set<Seq<char>>, n: Seq<char>)
    ensures
        free_items(items, bound).contains(n) ==> !bound.contains(n),
    decreases items, 1nat,
{
    if items.len() > 0 {
        lemma_free_items_unbound(items.drop_last(), bound, n);
        lemma_free_vars_unbound(items.last(), bound, n);
    }
}

proof fn lemma_free_entries_unbound(entries: Seq<(ValueModel, ValueModel)>, bound: Set<Seq<char>>, n: Seq<char>)
    ensures
        free_entries(entries, bound).contains(n) ==> !bound.contains(n),
    decreases entries, 1nat,
{
    if entries.len() > 0 {
        lemma_free_entries_unbound(entries.drop_last(), bound, n);
        lemma_free_vars_unbound(entries.last().0, bound, n);
        lemma_free_vars_unbound(entries.last().1, bound, n);
    }
}

/// A name that is already bound is never free.
pub proof fn law_bound_names_are_not_free(v: ValueModel, bound: Set<Seq<char>>, n: Seq<char>)
    requires
        bound.contains(n),
    ensures
        !free_vars(v, bound).contains(n),
{
    lemma_free_vars_unbound(v, bound, n);
}

/// Every parameter of a `lambda` is bound in its body: no symbol of the
/// parameter list is free in `(lambda params body ...)`, whatever was bound
/// around it.
pub proof fn law_lambda_binds_every_parameter(
    params: ValueModel,
    body: ValueModel,
    more: ValueModel,
    bound: Set<Seq<char>>,
    i: int,
)
    requires
        0 <= i < list_elements(params).len(),
        list_elements(params)[i] is Symbol,
    ensures
        !free_vars(
            ValueModel::Cons(
                Box::new(ValueModel::Symbol("lambda"@)),
                Box::new(ValueModel::Cons(Box::new(params), Box::new(ValueModel::Cons(Box::new(body), Box::new(more))))),
            ),
            bound,
        ).contains(list_elements(params)[i]->Symbol_0),
{
    let n = list_elements(params)[i]->Symbol_0;
    lemma_param_names_hold_params(params, i);
    lemma_free_vars_unbound(body, bound.union(param_names(params)), n);
    reveal_strlit("lambda");
    reveal_strlit("quote");
}

} // verus!
