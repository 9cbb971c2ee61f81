//! The data model of the language: atoms, cons cells, vectors, maps and sets,
//! with the primitive operations on them and their printed form.

use vstd::prelude::*;

use crate::numeric::{NumberModel, NumericType};
use crate::text::{decimal, push_char, push_decimal, signed_decimal};

verus! {

// ============================================================================
// Core Type System
// ============================================================================

/// String type - only basic strings with escape sequences
#[derive(Debug, Clone, PartialEq)]
pub enum StringType {
    /// Basic string with escape sequences processed
    Basic(String),
}

/// A symbol, identified by its name.
#[derive(Debug, Clone, PartialEq)]
pub enum SymbolType {
    Symbol(String),
}

impl View for SymbolType {
    type V = Seq<char>;

    open spec fn view(&self) -> Seq<char> {
        match self {
            SymbolType::Symbol(s) => s@,
        }
    }
}

impl SymbolType {
    /// Get the name as a String
    pub fn resolve(&self) -> (r: String)
        ensures
            r@ == self@,
    {
        match self {
            SymbolType::Symbol(s) => s.clone(),
        }
    }
}

#[derive(Debug, Clone, PartialEq)]
pub enum AtomType {
    Symbol(SymbolType),
    Number(NumericType),
    String(StringType),
    Bool(bool),
}

#[derive(Debug, PartialEq)]
pub struct ConsCell {
    pub car: Value,
    pub cdr: Value,
}

#[derive(Debug, PartialEq)]
pub struct VectorValue {
    pub elements: Vec<Value>,
}

/// A map, as its entries in iteration order; the operations that build maps
/// never keep two entries with equal keys (equal as `same_value` says).
#[derive(Debug, PartialEq)]
pub struct MapValue {
    pub entries: Vec<(Value, Value)>,
}

/// A set, as its elements in iteration order; the operations that build
/// sets never keep two equal elements.
#[derive(Debug, PartialEq)]
pub struct SetValue {
    pub elements: Vec<Value>,
}

/// A value: an atom, the empty list, a cons cell, a vector, a map, a set,
/// or a value wrapped to end a reduction early.
#[derive(Debug, PartialEq)]
pub enum Value {
    Lambda(Box<Closure>),
    Macro(Box<Closure>),
    NativeFn(Builtin),
    Atom(AtomType),
    Cons(Box<ConsCell>),
    Nil,
    Vector(Box<VectorValue>),
    HashMap(Box<MapValue>),
    HashSet(Box<SetValue>),
    Reduced(Box<Value>),
}

/// The native functions of the standard library.
#[derive(Debug, Clone, Copy, PartialEq, Eq, Structural)]
pub enum Builtin {
    Print,
    Println,
    Slurp,
    Spit,
    Shell,
    Now,
    Gensym,
    MacroExpand1,
    MacroExpand,
    Atom,
    Eq,
    Car,
    Cdr,
    Cons,
    Add,
    Sub,
    Mul,
    Div,
    Lt,
    Gt,
    Lte,
    Gte,
    NumEq,
    Vector,
}

/// A function made by `lambda`, or a macro made by `defmacro`: its
/// parameter names, its body, and the frame of the environment it was
/// made in.
#[derive(Debug, PartialEq)]
pub struct Closure {
    pub params: Vec<String>,
    pub body: Value,
    pub frame: usize,
}

/// The names of a list of strings.
pub open spec fn names_model(s: Seq<String>) -> Seq<Seq<char>> {
    s.map_values(|x: String| x@)
}

/// The mathematical content of a `Value`.
pub enum ValueModel {
    NativeFn(Builtin),
    Lambda(Seq<Seq<char>>, Box<ValueModel>, nat),
    Macro(Seq<Seq<char>>, Box<ValueModel>, nat),
    Symbol(Seq<char>),
    Number(NumberModel),
    Str(Seq<char>),
    Bool(bool),
    Nil,
    Cons(Box<ValueModel>, Box<ValueModel>),
    Vector(Seq<ValueModel>),
    HashMap(Seq<(ValueModel, ValueModel)>),
    HashSet(Seq<ValueModel>),
    Reduced(Box<ValueModel>),
}

pub open spec fn atom_model(a: AtomType) -> ValueModel {
    match a {
        AtomType::Symbol(s) => ValueModel::Symbol(s@),
        AtomType::Number(n) => ValueModel::Number(n@),
        AtomType::String(StringType::Basic(s)) => ValueModel::Str(s@),
        AtomType::Bool(b) => ValueModel::Bool(b),
    }
}

pub open spec fn value_model(v: Value) -> ValueModel
    decreases v,
{
    match v {
        Value::Atom(a) => atom_model(a),
        Value::Cons(c) => ValueModel::Cons(
            Box::new(value_model(c.car)),
            Box::new(value_model(c.cdr)),
        ),
        Value::Nil => ValueModel::Nil,
        Value::Vector(b) => ValueModel::Vector(values_model(b.elements@)),
        Value::HashMap(m) => ValueModel::HashMap(entries_model(m.entries@)),
        Value::HashSet(b) => ValueModel::HashSet(values_model(b.elements@)),
        Value::Reduced(inner) => ValueModel::Reduced(Box::new(value_model(*inner))),
        Value::NativeFn(b) => ValueModel::NativeFn(b),
        Value::Lambda(c) => ValueModel::Lambda(
            names_model(c.params@),
            Box::new(value_model(c.body)),
            c.frame as nat,
        ),
        Value::Macro(c) => ValueModel::Macro(
            names_model(c.params@),
            Box::new(value_model(c.body)),
            c.frame as nat,
        ),
    }
}

pub open spec fn entries_model(s: Seq<(Value, Value)>) -> Seq<(ValueModel, ValueModel)>
    decreases s,
{
    if s.len() == 0 {
        Seq::empty()
    } else {
        entries_model(s.drop_last()).push((value_model(s.last().0), value_model(s.last().1)))
    }
}

pub proof fn lemma_entries_model(s: Seq<(Value, Value)>)
    ensures
        entries_model(s).len() == s.len(),
        forall|i: int|
            0 <= i < s.len() ==> #[trigger] entries_model(s)[i] == (
                value_model(s[i].0),
                value_model(s[i].1),
            ),
    decreases s.len(),
{
    if s.len() > 0 {
        lemma_entries_model(s.drop_last());
        assert forall|i: int| 0 <= i < s.len() implies #[trigger] entries_model(s)[i] == (
            value_model(s[i].0),
            value_model(s[i].1),
        ) by {
            if i < s.len() - 1 {
                assert(s.drop_last()[i] == s[i]);
            }
        }
    }
}

pub open spec fn values_model(s: Seq<Value>) -> Seq<ValueModel>
    decreases s,
{
    if s.len() == 0 {
        Seq::empty()
    } else {
        values_model(s.drop_last()).push(value_model(s.last()))
    }
}

pub proof fn lemma_values_model(s: Seq<Value>)
    ensures
        values_model(s).len() == s.len(),
        forall|i: int| 0 <= i < s.len() ==> values_model(s)[i] == value_model(#[trigger] s[i]),
    decreases s.len(),
{
    if s.len() > 0 {
        lemma_values_model(s.drop_last());
        assert forall|i: int| 0 <= i < s.len() implies values_model(s)[i] == value_model(
            #[trigger] s[i],
        ) by {
            if i < s.len() - 1 {
                assert(s.drop_last()[i] == s[i]);
            }
        }
    }
}

impl View for Value {
    type V = ValueModel;

    open spec fn view(&self) -> ValueModel {
        value_model(*self)
    }
}

/// The list whose elements are `items`, in order.
pub open spec fn list_model(items: Seq<ValueModel>) -> ValueModel
    decreases items.len(),
{
    if items.len() == 0 {
        ValueModel::Nil
    } else {
        ValueModel::Cons(Box::new(items[0]), Box::new(list_model(items.drop_first())))
    }
}

/// The elements of a proper list, and what ends it when it is improper:
/// the cars along the cdr chain.
pub open spec fn list_elements(v: ValueModel) -> Seq<ValueModel>
    decreases v,
{
    match v {
        ValueModel::Cons(a, d) => seq![*a].add(list_elements(*d)),
        _ => Seq::empty(),
    }
}

// ============================================================================
// Printed form
// ============================================================================

/// The printed form of a string's contents, with quotes, backslashes and
/// the control characters newline, tab and carriage return escaped.
pub open spec fn escaped(s: Seq<char>) -> Seq<char>
    decreases s.len(),
{
    if s.len() == 0 {
        Seq::empty()
    } else {
        escaped(s.drop_last()) + escape_char(s.last())
    }
}

pub open spec fn escape_char(c: char) -> Seq<char> {
    if c == '\n' {
        seq!['\\', 'n']
    } else if c == '\t' {
        seq!['\\', 't']
    } else if c == '\r' {
        seq!['\\', 'r']
    } else if c == '\\' {
        seq!['\\', '\\']
    } else if c == '"' {
        seq!['\\', '"']
    } else {
        seq![c]
    }
}

/// The printed form of a number: integers in decimal, ratios as
/// `numerator/denominator`, floating-point literals as written.
pub open spec fn number_display(n: NumberModel) -> Seq<char> {
    match n {
        NumberModel::Int(i) => signed_decimal(i as int),
        NumberModel::Ratio(a, b) => signed_decimal(a as int) + seq!['/'] + signed_decimal(b as int),
        NumberModel::Float(t) => t,
    }
}

/// The printed form of a value.
pub open spec fn display(v: ValueModel) -> Seq<char>
    decreases v, 0nat,
{
    match v {
        ValueModel::Symbol(s) => s,
        ValueModel::Number(n) => number_display(n),
        ValueModel::Str(s) => seq!['"'] + escaped(s) + seq!['"'],
        ValueModel::Bool(b) => if b {
            seq!['t']
        } else {
            seq!['n', 'i', 'l']
        },
        ValueModel::Nil => seq!['n', 'i', 'l'],
        ValueModel::Cons(a, d) => seq!['('] + display(*a) + display_tail(*d) + seq![')'],
        ValueModel::Vector(items) => seq!['<', '<'] + display_items(items) + seq!['>', '>'],
        ValueModel::HashMap(entries) => seq!['{'] + display_entries(entries) + seq!['}'],
        ValueModel::HashSet(items) => seq!['#', '{'] + display_items(items) + seq!['}'],
        ValueModel::Reduced(inner) => "#reduced("@ + display(*inner) + seq![')'],
        ValueModel::Lambda(_, _, _) => "<lambda>"@,
        ValueModel::NativeFn(_) => "<native-fn>"@,
        ValueModel::Macro(_, _, _) => "<macro>"@,
    }
}

/// Map entries `key value`, separated by `, `.
pub open spec fn display_entries(entries: Seq<(ValueModel, ValueModel)>) -> Seq<char>
    decreases entries, 0nat,
{
    if entries.len() == 0 {
        Seq::empty()
    } else if entries.len() == 1 {
        display(entries[0].0) + seq![' '] + display(entries[0].1)
    } else {
        display_entries(entries.drop_last()) + seq![',', ' '] + display(entries.last().0) + seq![
            ' ',
        ] + display(entries.last().1)
    }
}

/// What follows the first element inside the parentheses of a list.
pub open spec fn display_tail(d: ValueModel) -> Seq<char>
    decreases d, 1nat,
{
    match d {
        ValueModel::Nil => Seq::empty(),
        ValueModel::Cons(a, rest) => seq![' '] + display(*a) + display_tail(*rest),
        _ => seq![' ', '.', ' '] + display(d),
    }
}

/// Elements separated by single spaces.
pub open spec fn display_items(items: Seq<ValueModel>) -> Seq<char>
    decreases items, 0nat,
{
    if items.len() == 0 {
        Seq::empty()
    } else if items.len() == 1 {
        display(items[0])
    } else {
        display_items(items.drop_last()) + seq![' '] + display(items.last())
    }
}

fn push_str_literal(s: &mut String, lit: &str)
    ensures
        final(s)@ == old(s)@ + lit@,
{
    s.append(lit);
}

/// Appends the decimal numeral of a signed integer.
pub fn push_signed(s: &mut String, n: i64)
    ensures
        final(s)@ == old(s)@ + signed_decimal(n as int),
{
    if n < 0 {
        push_char(s, '-');
        let m: u64 = if n == i64::MIN {
            0x8000_0000_0000_0000
        } else {
            (-n) as u64
        };
        push_decimal(s, m);
        assert(final(s)@ =~= old(s)@ + signed_decimal(n as int));
    } else {
        push_decimal(s, n as u64);
    }
}

/// Escapes the characters of a string for printing.
pub fn escape_string(s: &str) -> (r: String)
    ensures
        r@ == escaped(s@),
{
    let mut result = String::new();
    let mut i: usize = 0;
    let ghost t = s@;
    let chars = crate::text::chars_of(s);
    while i < chars.len()
        invariant
            chars@ == t,
            i <= chars.len(),
            result@ == escaped(t.subrange(0, i as int)),
        decreases chars.len() - i,
    {
        let c = chars[i];
        assert(t.subrange(0, i + 1).drop_last() =~= t.subrange(0, i as int));
        if c == '\n' {
            push_char(&mut result, '\\');
            push_char(&mut result, 'n');
        } else if c == '\t' {
            push_char(&mut result, '\\');
            push_char(&mut result, 't');
        } else if c == '\r' {
            push_char(&mut result, '\\');
            push_char(&mut result, 'r');
        } else if c == '\\' {
            push_char(&mut result, '\\');
            push_char(&mut result, '\\');
        } else if c == '"' {
            push_char(&mut result, '\\');
            push_char(&mut result, '"');
        } else {
            push_char(&mut result, c);
        }
        i = i + 1;
        assert(result@ =~= escaped(t.subrange(0, i as int)));
    }
    assert(t.subrange(0, chars.len() as int) =~= t);
    result
}

impl NumericType {
    /// Appends the printed form of this number.
    pub fn write_to(&self, out: &mut String)
        ensures
            final(out)@ == old(out)@ + number_display(self@),
    {
        match self {
            NumericType::Int(i) => push_signed(out, *i),
            NumericType::Ratio(a, b) => {
                push_signed(out, *a);
                push_char(out, '/');
                push_signed(out, *b);
                assert(out@ =~= old(out)@ + number_display(self@));
            },
            NumericType::Float(t) => {
                out.append(t.as_str());
            },
        }
    }
}

impl Value {
    /// Appends the printed form of this value.
    #[verifier::loop_isolation(false)]
    #[verifier::rlimit(40)]
    pub fn write_to(&self, out: &mut String)
        ensures
            final(out)@ == old(out)@ + display(self@),
        decreases self, 0nat,
    {
        match self {
            Value::Atom(AtomType::Symbol(SymbolType::Symbol(s))) => {
                out.append(s.as_str());
            },
            Value::Atom(AtomType::Number(n)) => {
                n.write_to(out);
            },
            Value::Atom(AtomType::String(StringType::Basic(s))) => {
                push_char(out, '"');
                let e = escape_string(s.as_str());
                out.append(e.as_str());
                push_char(out, '"');
                assert(out@ =~= old(out)@ + display(self@));
            },
            Value::Atom(AtomType::Bool(b)) => {
                if *b {
                    push_char(out, 't');
                } else {
                    push_char(out, 'n');
                    push_char(out, 'i');
                    push_char(out, 'l');
                }
                assert(out@ =~= old(out)@ + display(self@));
            },
            Value::Nil => {
                push_char(out, 'n');
                push_char(out, 'i');
                push_char(out, 'l');
                assert(out@ =~= old(out)@ + display(self@));
            },
            Value::Cons(cell) => {
                push_char(out, '(');
                cell.car.write_to(out);
                Value::write_tail(&cell.cdr, out);
                push_char(out, ')');
                assert(out@ =~= old(out)@ + display(self@));
            },
            Value::Vector(vec) => {
                push_char(out, '<');
                push_char(out, '<');
                let n = vec.elements.len();
                let ghost items = vec.elements@;
                proof {
                    lemma_values_model(items);
                }
                let mut i: usize = 0;
                let ghost base = out@;
                while i < n
                    invariant
                        n == vec.elements.len(),
                        items == vec.elements@,
                        i <= n,
                        values_model(items).len() == items.len(),
                        forall|j: int|
                            0 <= j < items.len() ==> values_model(items)[j] == value_model(
                                #[trigger] items[j],
                            ),
                        out@ == base + display_items(values_model(items).take(i as int)),
                    decreases n - i,
                {
                    let ghost ms = values_model(items);
                    assert(ms.take(i + 1).drop_last() =~= ms.take(i as int));
                    if i > 0 {
                        push_char(out, ' ');
                    }
                    proof {
                        assert(decreases_to!(*self => **vec));
                        assert(decreases_to!(**vec => vec.elements));
                        assert(decreases_to!(vec.elements => vec.elements@));
                        assert(decreases_to!(vec.elements@ => vec.elements@[i as int]));
                        assert(decreases_to!(*self => vec.elements@[i as int]));
                    }
                    vec.elements[i].write_to(out);
                    i = i + 1;
                    proof {
                        if i == 1 {
                            assert(ms.take(0) =~= Seq::<ValueModel>::empty());
                        }
                    }
                    assert(out@ =~= base + display_items(ms.take(i as int)));
                }
                assert(values_model(items).take(n as int) =~= values_model(items));
                push_char(out, '>');
                push_char(out, '>');
                assert(out@ =~= old(out)@ + display(self@));
            },
            Value::HashSet(set) => {
                push_char(out, '#');
                push_char(out, '{');
                let n = set.elements.len();
                let ghost items = set.elements@;
                proof {
                    lemma_values_model(items);
                }
                let mut i: usize = 0;
                let ghost base = out@;
                while i < n
                    invariant
                        n == set.elements.len(),
                        items == set.elements@,
                        i <= n,
                        values_model(items).len() == items.len(),
                        forall|j: int|
                            0 <= j < items.len() ==> values_model(items)[j] == value_model(
                                #[trigger] items[j],
                            ),
                        out@ == base + display_items(values_model(items).take(i as int)),
                    decreases n - i,
                {
                    let ghost ms = values_model(items);
                    assert(ms.take(i + 1).drop_last() =~= ms.take(i as int));
                    if i > 0 {
                        push_char(out, ' ');
                    }
                    proof {
                        assert(decreases_to!(*self => **set));
                        assert(decreases_to!(**set => set.elements));
                        assert(decreases_to!(set.elements => set.elements@));
                        assert(decreases_to!(set.elements@ => set.elements@[i as int]));
                        assert(decreases_to!(*self => set.elements@[i as int]));
                    }
                    set.elements[i].write_to(out);
                    i = i + 1;
                    proof {
                        if i == 1 {
                            assert(ms.take(0) =~= Seq::<ValueModel>::empty());
                        }
                    }
                    assert(out@ =~= base + display_items(ms.take(i as int)));
                }
                assert(values_model(items).take(n as int) =~= values_model(items));
                push_char(out, '}');
                assert(out@ =~= old(out)@ + display(self@));
            },
            Value::HashMap(map) => {
                push_char(out, '{');
                let n = map.entries.len();
                let ghost items = map.entries@;
                proof {
                    lemma_entries_model(items);
                }
                let mut i: usize = 0;
                let ghost base = out@;
                while i < n
                    invariant
                        n == map.entries.len(),
                        items == map.entries@,
                        i <= n,
                        entries_model(items).len() == items.len(),
                        forall|j: int|
                            0 <= j < items.len() ==> #[trigger] entries_model(items)[j] == (
                                value_model(items[j].0),
                                value_model(items[j].1),
                            ),
                        out@ == base + display_entries(entries_model(items).take(i as int)),
                    decreases n - i,
                {
                    let ghost ms = entries_model(items);
                    assert(ms.take(i + 1).drop_last() =~= ms.take(i as int));
                    assert(ms[i as int] == (value_model(items[i as int].0), value_model(items[i as int].1)));
                    if i > 0 {
                        push_char(out, ',');
                        push_char(out, ' ');
                    }
                    proof {
                        assert(decreases_to!(*self => **map));
                        assert(decreases_to!(**map => map.entries));
                        assert(decreases_to!(map.entries => map.entries@));
                        assert(decreases_to!(map.entries@ => map.entries@[i as int]));
                        assert(decreases_to!(map.entries@[i as int] => map.entries@[i as int].0));
                        assert(decreases_to!(map.entries@[i as int] => map.entries@[i as int].1));
                        assert(decreases_to!(*self => map.entries@[i as int].0));
                        assert(decreases_to!(*self => map.entries@[i as int].1));
                    }
                    map.entries[i].0.write_to(out);
                    push_char(out, ' ');
                    map.entries[i].1.write_to(out);
                    i = i + 1;
                    proof {
                        if i == 1 {
                            assert(ms.take(0) =~= Seq::<(ValueModel, ValueModel)>::empty());
                        }
                    }
                    assert(out@ =~= base + display_entries(ms.take(i as int)));
                }
                assert(entries_model(items).take(n as int) =~= entries_model(items));
                push_char(out, '}');
                assert(out@ =~= old(out)@ + display(self@));
            },
            Value::Reduced(inner) => {
                push_str_literal(out, "#reduced(");
                inner.write_to(out);
                push_char(out, ')');
                assert(out@ =~= old(out)@ + display(self@));
            },
            Value::Lambda(_) => {
                push_str_literal(out, "<lambda>");
            },
            Value::NativeFn(_) => {
                push_str_literal(out, "<native-fn>");
            },
            Value::Macro(_) => {
                push_str_literal(out, "<macro>");
            },
        }
    }

    fn write_tail(d: &Value, out: &mut String)
        ensures
            final(out)@ == old(out)@ + display_tail(d@),
        decreases d, 1nat,
    {
        match d {
            Value::Nil => {
                assert(out@ =~= old(out)@ + display_tail(d@));
            },
            Value::Cons(cell) => {
                push_char(out, ' ');
                cell.car.write_to(out);
                Value::write_tail(&cell.cdr, out);
                assert(out@ =~= old(out)@ + display_tail(d@));
            },
            _ => {
                push_char(out, ' ');
                push_char(out, '.');
                push_char(out, ' ');
                d.write_to(out);
                assert(out@ =~= old(out)@ + display_tail(d@));
            },
        }
    }

    /// The printed form of this value.
    pub fn to_string(&self) -> (r: String)
        ensures
            r@ == display(self@),
    {
        let mut out = String::new();
        self.write_to(&mut out);
        assert(out@ =~= display(self@));
        out
    }

    /// A copy of this value.
    #[verifier::loop_isolation(false)]
    pub fn copy(&self) -> (r: Value)
        ensures
            r@ == self@,
        decreases self,
    {
        match self {
            Value::Atom(a) => Value::Atom(copy_atom(a)),
            Value::Cons(cell) => Value::Cons(
                Box::new(ConsCell { car: cell.car.copy(), cdr: cell.cdr.copy() }),
            ),
            Value::Nil => Value::Nil,
            Value::Vector(vec) => {
                let mut elements: Vec<Value> = Vec::new();
                let ghost items = vec.elements@;
                proof {
                    lemma_values_model(items);
                }
                let mut i: usize = 0;
                while i < vec.elements.len()
                    invariant
                        items == vec.elements@,
                        i <= items.len(),
                        elements.len() == i,
                        values_model(items).len() == items.len(),
                        forall|j: int|
                            0 <= j < items.len() ==> values_model(items)[j] == value_model(
                                #[trigger] items[j],
                            ),
                        forall|j: int|
                            0 <= j < i ==> value_model(#[trigger] elements@[j]) == value_model(
                                items[j],
                            ),
                    decreases items.len() - i,
                {
                    proof {
                        assert(decreases_to!(*self => **vec));
                        assert(decreases_to!(**vec => vec.elements));
                        assert(decreases_to!(vec.elements => vec.elements@));
                        assert(decreases_to!(vec.elements@ => vec.elements@[i as int]));
                        assert(decreases_to!(*self => vec.elements@[i as int]));
                    }
                    let e = vec.elements[i].copy();
                    elements.push(e);
                    i = i + 1;
                }
                proof {
                    lemma_values_model(elements@);
                    assert forall|j: int| 0 <= j < items.len() implies values_model(elements@)[j]
                        == values_model(items)[j] by {
                        assert(value_model(elements@[j]) == value_model(items[j]));
                    }
                    assert(values_model(elements@) =~= values_model(items));
                }
                Value::Vector(Box::new(VectorValue { elements }))
            },
            Value::HashSet(set) => {
                let mut elements: Vec<Value> = Vec::new();
                let ghost items = set.elements@;
                proof {
                    lemma_values_model(items);
                }
                let mut i: usize = 0;
                while i < set.elements.len()
                    invariant
                        items == set.elements@,
                        i <= items.len(),
                        elements.len() == i,
                        values_model(items).len() == items.len(),
                        forall|j: int|
                            0 <= j < items.len() ==> values_model(items)[j] == value_model(
                                #[trigger] items[j],
                            ),
                        forall|j: int|
                            0 <= j < i ==> value_model(#[trigger] elements@[j]) == value_model(
                                items[j],
                            ),
                    decreases items.len() - i,
                {
                    proof {
                        assert(decreases_to!(*self => **set));
                        assert(decreases_to!(**set => set.elements));
                        assert(decreases_to!(set.elements => set.elements@));
                        assert(decreases_to!(set.elements@ => set.elements@[i as int]));
                        assert(decreases_to!(*self => set.elements@[i as int]));
                    }
                    let e = set.elements[i].copy();
                    elements.push(e);
                    i = i + 1;
                }
                proof {
                    lemma_values_model(elements@);
                    assert forall|j: int| 0 <= j < items.len() implies values_model(elements@)[j]
                        == values_model(items)[j] by {
                        assert(value_model(elements@[j]) == value_model(items[j]));
                    }
                    assert(values_model(elements@) =~= values_model(items));
                }
                Value::HashSet(Box::new(SetValue { elements }))
            },
            Value::HashMap(map) => {
                let mut entries: Vec<(Value, Value)> = Vec::new();
                let ghost items = map.entries@;
                proof {
                    lemma_entries_model(items);
                }
                let mut i: usize = 0;
                while i < map.entries.len()
                    invariant
                        items == map.entries@,
                        i <= items.len(),
                        entries.len() == i,
                        entries_model(items).len() == items.len(),
                        forall|j: int|
                            0 <= j < items.len() ==> #[trigger] entries_model(items)[j] == (
                                value_model(items[j].0),
                                value_model(items[j].1),
                            ),
                        forall|j: int|
                            0 <= j < i ==> value_model((#[trigger] entries@[j]).0) == value_model(
                                items[j].0,
                            ) && value_model(entries@[j].1) == value_model(items[j].1),
                    decreases items.len() - i,
                {
                    proof {
                        assert(decreases_to!(*self => **map));
                        assert(decreases_to!(**map => map.entries));
                        assert(decreases_to!(map.entries => map.entries@));
                        assert(decreases_to!(map.entries@ => map.entries@[i as int]));
                        assert(decreases_to!(map.entries@[i as int] => map.entries@[i as int].0));
                        assert(decreases_to!(map.entries@[i as int] => map.entries@[i as int].1));
                        assert(decreases_to!(*self => map.entries@[i as int].0));
                        assert(decreases_to!(*self => map.entries@[i as int].1));
                    }
                    let k = map.entries[i].0.copy();
                    let v = map.entries[i].1.copy();
                    entries.push((k, v));
                    i = i + 1;
                }
                proof {
                    lemma_entries_model(entries@);
                    assert forall|j: int| 0 <= j < items.len() implies entries_model(entries@)[j]
                        == entries_model(items)[j] by {
                        assert(value_model(entries@[j].0) == value_model(items[j].0));
                    }
                    assert(entries_model(entries@) =~= entries_model(items));
                }
                Value::HashMap(Box::new(MapValue { entries }))
            },
            Value::Reduced(inner) => Value::Reduced(Box::new(inner.copy())),
            Value::Lambda(c) => Value::Lambda(Box::new(c.copy())),
            Value::NativeFn(b) => Value::NativeFn(*b),
            Value::Macro(c) => Value::Macro(Box::new(c.copy())),
        }
    }
}

/// Copies of the strings, in order.
pub fn copy_names(v: &Vec<String>) -> (r: Vec<String>)
    ensures
        names_model(r@) == names_model(v@),
        r@.len() == v@.len(),
{
    let mut r: Vec<String> = Vec::new();
    let mut i: usize = 0;
    while i < v.len()
        invariant
            i <= v.len(),
            r@.len() == i,
            forall|j: int| 0 <= j < i ==> r@[j]@ == v@[j]@,
        decreases v.len() - i,
    {
        r.push(v[i].clone());
        i = i + 1;
    }
    assert(names_model(r@) =~= names_model(v@));
    r
}

impl Closure {
    /// A copy of this closure.
    pub fn copy(&self) -> (r: Closure)
        ensures
            names_model(r.params@) == names_model(self.params@),
            r.body@ == self.body@,
            r.frame == self.frame,
        decreases self,
    {
        Closure { params: copy_names(&self.params), body: self.body.copy(), frame: self.frame }
    }
}

/// Copies of the values, in order.
pub fn copy_values(v: &Vec<Value>) -> (r: Vec<Value>)
    ensures
        values_model(r@) == values_model(v@),
        r@.len() == v@.len(),
{
    let mut out: Vec<Value> = Vec::new();
    let mut i: usize = 0;
    proof {
        lemma_values_model(v@);
    }
    while i < v.len()
        invariant
            i <= v.len(),
            out.len() == i,
            values_model(v@).len() == v@.len(),
            forall|j: int| 0 <= j < v@.len() ==> values_model(v@)[j] == value_model(#[trigger] v@[j]),
            forall|j: int| 0 <= j < i ==> value_model(#[trigger] out@[j]) == value_model(v@[j]),
        decreases v.len() - i,
    {
        let e = v[i].copy();
        out.push(e);
        i = i + 1;
    }
    proof {
        lemma_values_model(out@);
        assert forall|j: int| 0 <= j < v@.len() implies values_model(out@)[j] == values_model(
            v@,
        )[j] by {
            assert(value_model(out@[j]) == value_model(v@[j]));
        }
    }
    assert(values_model(out@) =~= values_model(v@));
    out
}

/// Copies of the entries, in order.
pub fn copy_entries(v: &Vec<(Value, Value)>) -> (r: Vec<(Value, Value)>)
    ensures
        entries_model(r@) == entries_model(v@),
        r@.len() == v@.len(),
{
    let mut out: Vec<(Value, Value)> = Vec::new();
    let mut i: usize = 0;
    proof {
        lemma_entries_model(v@);
    }
    while i < v.len()
        invariant
            i <= v.len(),
            out.len() == i,
            entries_model(v@).len() == v@.len(),
            forall|j: int|
                0 <= j < v@.len() ==> #[trigger] entries_model(v@)[j] == (
                    value_model(v@[j].0),
                    value_model(v@[j].1),
                ),
            forall|j: int|
                0 <= j < i ==> value_model((#[trigger] out@[j]).0) == value_model(v@[j].0)
                    && value_model(out@[j].1) == value_model(v@[j].1),
        decreases v.len() - i,
    {
        let k = v[i].0.copy();
        let x = v[i].1.copy();
        out.push((k, x));
        i = i + 1;
    }
    proof {
        lemma_entries_model(out@);
        assert forall|j: int| 0 <= j < v@.len() implies entries_model(out@)[j] == entries_model(
            v@,
        )[j] by {
            assert(value_model(out@[j].0) == value_model(v@[j].0));
        }
    }
    assert(entries_model(out@) =~= entries_model(v@));
    out
}

fn copy_atom(a: &AtomType) -> (r: AtomType)
    ensures
        atom_model(r) == atom_model(*a),
{
    match a {
        AtomType::Symbol(SymbolType::Symbol(s)) => AtomType::Symbol(SymbolType::Symbol(s.clone())),
        AtomType::Number(n) => AtomType::Number(n.copy()),
        AtomType::String(StringType::Basic(s)) => AtomType::String(StringType::Basic(s.clone())),
        AtomType::Bool(b) => AtomType::Bool(*b),
    }
}

// ============================================================================
// Primitive Operations
// ============================================================================

pub fn cons(car: Value, cdr: Value) -> (r: Value)
    ensures
        r@ == spec_cons(car@, cdr@),
{
    Value::Cons(Box::new(ConsCell { car, cdr }))
}

/// The pair with first element `a` and rest `d`.
pub open spec fn spec_cons(a: ValueModel, d: ValueModel) -> ValueModel {
    ValueModel::Cons(Box::new(a), Box::new(d))
}

/// What `car` gives: the first element of a cons cell, or the message for a
/// value that is not one.
pub open spec fn spec_car(v: ValueModel) -> Result<ValueModel, Seq<char>> {
    match v {
        ValueModel::Cons(a, _) => Ok(*a),
        other => Err("car: expected cons cell, got "@ + display(other)),
    }
}

/// What `cdr` gives: the rest of a cons cell, or the message for a value
/// that is not one.
pub open spec fn spec_cdr(v: ValueModel) -> Result<ValueModel, Seq<char>> {
    match v {
        ValueModel::Cons(_, d) => Ok(*d),
        other => Err("cdr: expected cons cell, got "@ + display(other)),
    }
}

/// A result holding a value, taken by its model.
pub open spec fn value_result(r: Result<Value, String>) -> Result<ValueModel, Seq<char>> {
    match r {
        Ok(v) => Ok(v@),
        Err(m) => Err(m@),
    }
}

/// The first element of a cons cell.
pub fn car(value: &Value) -> (r: Result<Value, String>)
    ensures
        value_result(r) == spec_car(value@),
{
    match value {
        Value::Cons(cell) => Ok(cell.car.copy()),
        _ => {
            let mut m = String::from_str("car: expected cons cell, got ");
            value.write_to(&mut m);
            Err(m)
        },
    }
}

/// The rest of a cons cell.
pub fn cdr(value: &Value) -> (r: Result<Value, String>)
    ensures
        value_result(r) == spec_cdr(value@),
{
    match value {
        Value::Cons(cell) => Ok(cell.cdr.copy()),
        _ => {
            let mut m = String::from_str("cdr: expected cons cell, got ");
            value.write_to(&mut m);
            Err(m)
        },
    }
}

/// `car` and `cdr` take apart what `cons` builds: the first element and
/// the rest come back unchanged, and the pair is not an atom.
pub proof fn law_car_cdr_of_cons(a: ValueModel, d: ValueModel)
    ensures
        spec_car(spec_cons(a, d)) == Ok::<ValueModel, Seq<char>>(a),
        spec_cdr(spec_cons(a, d)) == Ok::<ValueModel, Seq<char>>(d),
        !spec_is_atom(spec_cons(a, d)),
{
}

/// Atoms and the empty list are atoms; lists, vectors, maps, sets and
/// reduced values are not.
pub open spec fn spec_is_atom(v: ValueModel) -> bool {
    v is Symbol || v is Number || v is Str || v is Bool || v is Nil
}

pub fn is_atom(value: &Value) -> (r: bool)
    ensures
        r == spec_is_atom(value@),
{
    match value {
        Value::Atom(_) | Value::Nil => true,
        _ => false,
    }
}

/// Identity of atoms: equal atoms, or both the empty list.
pub open spec fn spec_eq(a: ValueModel, b: ValueModel) -> bool {
    (spec_is_atom(a) && a == b)
}

/// Every value built as an atom is an atom, strings included, and `eq`
/// holds between it and itself; the empty list is an atom too.
pub proof fn law_every_atom_is_an_atom(v: Value)
    requires
        v is Atom || v is Nil,
    ensures
        spec_is_atom(v@),
        spec_eq(v@, v@),
{
}

/// `eq` holds of two atoms exactly when they are the same atom, and never
/// of anything that is not an atom.
pub proof fn law_eq_is_identity_of_atoms(a: ValueModel, b: ValueModel)
    ensures
        (a is Symbol || a is Number || a is Str || a is Bool || a is Nil) ==> (spec_eq(a, b) <==> a == b),
        !(a is Symbol || a is Number || a is Str || a is Bool || a is Nil) ==> !spec_eq(a, b),
{
}

/// Compares two atoms.
pub fn atom_eq(a: &AtomType, b: &AtomType) -> (r: bool)
    ensures
        r == (atom_model(*a) == atom_model(*b)),
{
    match (a, b) {
        (AtomType::Symbol(SymbolType::Symbol(x)), AtomType::Symbol(SymbolType::Symbol(y))) => {
            string_eq(x, y)
        },
        (AtomType::Number(x), AtomType::Number(y)) => number_eq(x, y),
        (AtomType::String(StringType::Basic(x)), AtomType::String(StringType::Basic(y))) => {
            string_eq(x, y)
        },
        (AtomType::Bool(x), AtomType::Bool(y)) => *x == *y,
        _ => false,
    }
}

fn string_eq(x: &String, y: &String) -> (r: bool)
    ensures
        r == (x@ == y@),
{
    x.eq(y)
}

fn number_eq(x: &NumericType, y: &NumericType) -> (r: bool)
    ensures
        r == (x@ == y@),
{
    match (x, y) {
        (NumericType::Int(a), NumericType::Int(b)) => *a == *b,
        (NumericType::Ratio(a, b), NumericType::Ratio(c, d)) => *a == *c && *b == *d,
        (NumericType::Float(s), NumericType::Float(t)) => string_eq(s, t),
        _ => false,
    }
}

// ============================================================================
// Equality of values
// ============================================================================

/// Whether two values are equal as the language compares them: atoms by
/// value, lists and vectors part by part in order, and maps and sets as
/// collections of the same size whose entries match each other, whatever
/// order they are kept in.
pub open spec fn same_value(a: ValueModel, b: ValueModel) -> bool
    decreases a, 0nat, 0nat,
{
    match a {
        ValueModel::Cons(a1, a2) => match b {
            ValueModel::Cons(b1, b2) => same_value(*a1, *b1) && same_value(*a2, *b2),
            _ => false,
        },
        ValueModel::Vector(xs) => match b {
            ValueModel::Vector(ys) => xs.len() == ys.len() && same_items(xs, ys, xs.len()),
            _ => false,
        },
        ValueModel::HashSet(xs) => match b {
            ValueModel::HashSet(ys) => {
                &&& xs.len() == ys.len()
                &&& each_found(xs, ys, xs.len())
                &&& each_matched(xs, ys, ys.len())
            },
            _ => false,
        },
        ValueModel::HashMap(xs) => match b {
            ValueModel::HashMap(ys) => {
                &&& xs.len() == ys.len()
                &&& each_entry_found(xs, ys, xs.len())
                &&& each_entry_matched(xs, ys, ys.len())
            },
            _ => false,
        },
        ValueModel::Reduced(x) => match b {
            ValueModel::Reduced(y) => same_value(*x, *y),
            _ => false,
        },
        ValueModel::Lambda(p, x, _) => match b {
            ValueModel::Lambda(q, y, _) => p == q && same_value(*x, *y),
            _ => false,
        },
        ValueModel::Macro(p, x, _) => match b {
            ValueModel::Macro(q, y, _) => p == q && same_value(*x, *y),
            _ => false,
        },
        _ => a == b,
    }
}

/// The first `n` items of `xs` equal the first `n` of `ys`, one by one.
pub open spec fn same_items(xs: Seq<ValueModel>, ys: Seq<ValueModel>, n: nat) -> bool
    decreases xs, 2nat, n,
{
    if n == 0 {
        true
    } else if n > xs.len() {
        false
    } else {
        same_value(xs[n - 1], ys[n - 1]) && same_items(xs, ys, (n - 1) as nat)
    }
}

/// One of the first `m` items of `ys` equals `x`.
pub open spec fn found(x: ValueModel, ys: Seq<ValueModel>, m: nat) -> bool
    decreases x, 1nat, m,
{
    if m == 0 {
        false
    } else {
        same_value(x, ys[m - 1]) || found(x, ys, (m - 1) as nat)
    }
}

/// Each of the first `n` items of `xs` equals an item of `ys`.
pub open spec fn each_found(xs: Seq<ValueModel>, ys: Seq<ValueModel>, n: nat) -> bool
    decreases xs, 2nat, n,
{
    if n == 0 {
        true
    } else if n > xs.len() {
        false
    } else {
        found(xs[n - 1], ys, ys.len()) && each_found(xs, ys, (n - 1) as nat)
    }
}

/// One of the first `m` items of `xs` equals `y`.
pub open spec fn matched(xs: Seq<ValueModel>, y: ValueModel, m: nat) -> bool
    decreases xs, 1nat, m,
{
    if m == 0 {
        false
    } else if m > xs.len() {
        false
    } else {
        same_value(xs[m - 1], y) || matched(xs, y, (m - 1) as nat)
    }
}

/// Each of the first `n` items of `ys` equals an item of `xs`.
pub open spec fn each_matched(xs: Seq<ValueModel>, ys: Seq<ValueModel>, n: nat) -> bool
    decreases xs, 2nat, n,
{
    if n == 0 {
        true
    } else {
        matched(xs, ys[n - 1], xs.len()) && each_matched(xs, ys, (n - 1) as nat)
    }
}

/// Whether two entries have equal keys and equal values.
pub open spec fn same_entry(p: (ValueModel, ValueModel), q: (ValueModel, ValueModel)) -> bool
    decreases p, 0nat, 1nat,
{
    same_value(p.0, q.0) && same_value(p.1, q.1)
}

/// One of the first `m` entries of `ys` equals the entry `p`.
pub open spec fn entry_found(
    p: (ValueModel, ValueModel),
    ys: Seq<(ValueModel, ValueModel)>,
    m: nat,
) -> bool
    decreases p, 1nat, m,
{
    if m == 0 {
        false
    } else {
        same_entry(p, ys[m - 1]) || entry_found(p, ys, (m - 1) as nat)
    }
}

/// Each of the first `n` entries of `xs` equals an entry of `ys`.
pub open spec fn each_entry_found(
    xs: Seq<(ValueModel, ValueModel)>,
    ys: Seq<(ValueModel, ValueModel)>,
    n: nat,
) -> bool
    decreases xs, 2nat, n,
{
    if n == 0 {
        true
    } else if n > xs.len() {
        false
    } else {
        entry_found(xs[n - 1], ys, ys.len()) && each_entry_found(xs, ys, (n - 1) as nat)
    }
}

/// One of the first `m` entries of `xs` equals the entry `q`.
pub open spec fn entry_matched(
    xs: Seq<(ValueModel, ValueModel)>,
    q: (ValueModel, ValueModel),
    m: nat,
) -> bool
    decreases xs, 1nat, m,
{
    if m == 0 {
        false
    } else if m > xs.len() {
        false
    } else {
        same_entry(xs[m - 1], q) || entry_matched(xs, q, (m - 1) as nat)
    }
}

/// Each of the first `n` entries of `ys` equals an entry of `xs`.
pub open spec fn each_entry_matched(
    xs: Seq<(ValueModel, ValueModel)>,
    ys: Seq<(ValueModel, ValueModel)>,
    n: nat,
) -> bool
    decreases xs, 2nat, n,
{
    if n == 0 {
        true
    } else {
        entry_matched(xs, ys[n - 1], xs.len()) && each_entry_matched(xs, ys, (n - 1) as nat)
    }
}

proof fn lemma_same_items(xs: Seq<ValueModel>, ys: Seq<ValueModel>, n: nat)
    requires
        n <= xs.len(),
    ensures
        same_items(xs, ys, n) <==> forall|i: int| 0 <= i < n ==> #[trigger] same_value(xs[i], ys[i]),
    decreases n,
{
    if n > 0 {
        lemma_same_items(xs, ys, (n - 1) as nat);
        if same_items(xs, ys, n) {
            assert forall|i: int| 0 <= i < n implies #[trigger] same_value(xs[i], ys[i]) by {
                if i < n - 1 {
                }
            }
        }
        if forall|i: int| 0 <= i < n ==> #[trigger] same_value(xs[i], ys[i]) {
            let last = (n - 1) as int;
            assert(same_value(xs[last], ys[last]));
        }
    }
}

proof fn lemma_found(x: ValueModel, ys: Seq<ValueModel>, m: nat)
    ensures
        found(x, ys, m) <==> exists|j: int| 0 <= j < m && #[trigger] same_value(x, ys[j]),
    decreases m,
{
    if m > 0 {
        lemma_found(x, ys, (m - 1) as nat);
        if same_value(x, ys[m - 1]) {
            assert(same_value(x, ys[(m - 1) as int]));
        }
    }
}

proof fn lemma_each_found(xs: Seq<ValueModel>, ys: Seq<ValueModel>, n: nat)
    requires
        n <= xs.len(),
    ensures
        each_found(xs, ys, n) <==> forall|i: int| 0 <= i < n ==> #[trigger] found(xs[i], ys, ys.len()),
    decreases n,
{
    if n > 0 {
        lemma_each_found(xs, ys, (n - 1) as nat);
        if each_found(xs, ys, n) {
            assert forall|i: int| 0 <= i < n implies #[trigger] found(xs[i], ys, ys.len()) by {
                if i < n - 1 {
                }
            }
        }
        if forall|i: int| 0 <= i < n ==> #[trigger] found(xs[i], ys, ys.len()) {
            let last = (n - 1) as int;
            assert(found(xs[last], ys, ys.len()));
        }
    }
}

proof fn lemma_matched(xs: Seq<ValueModel>, y: ValueModel, m: nat)
    requires
        m <= xs.len(),
    ensures
        matched(xs, y, m) <==> exists|i: int| 0 <= i < m && #[trigger] same_value(xs[i], y),
    decreases m,
{
    if m > 0 {
        lemma_matched(xs, y, (m - 1) as nat);
        if same_value(xs[m - 1], y) {
            assert(same_value(xs[(m - 1) as int], y));
        }
    }
}

proof fn lemma_each_matched(xs: Seq<ValueModel>, ys: Seq<ValueModel>, n: nat)
    requires
        n <= ys.len(),
    ensures
        each_matched(xs, ys, n) <==> forall|j: int|
            0 <= j < n ==> #[trigger] matched(xs, ys[j], xs.len()),
    decreases n,
{
    if n > 0 {
        lemma_each_matched(xs, ys, (n - 1) as nat);
        if each_matched(xs, ys, n) {
            assert forall|j: int| 0 <= j < n implies #[trigger] matched(xs, ys[j], xs.len()) by {
                if j < n - 1 {
                }
            }
        }
        if forall|j: int| 0 <= j < n ==> #[trigger] matched(xs, ys[j], xs.len()) {
            let last = (n - 1) as int;
            assert(matched(xs, ys[last], xs.len()));
        }
    }
}

proof fn lemma_entry_found(p: (ValueModel, ValueModel), ys: Seq<(ValueModel, ValueModel)>, m: nat)
    ensures
        entry_found(p, ys, m) <==> exists|j: int| 0 <= j < m && #[trigger] same_entry(p, ys[j]),
    decreases m,
{
    if m > 0 {
        lemma_entry_found(p, ys, (m - 1) as nat);
        if same_entry(p, ys[m - 1]) {
            assert(same_entry(p, ys[(m - 1) as int]));
        }
    }
}

proof fn lemma_each_entry_found(
    xs: Seq<(ValueModel, ValueModel)>,
    ys: Seq<(ValueModel, ValueModel)>,
    n: nat,
)
    requires
        n <= xs.len(),
    ensures
        each_entry_found(xs, ys, n) <==> forall|i: int|
            0 <= i < n ==> #[trigger] entry_found(xs[i], ys, ys.len()),
    decreases n,
{
    if n > 0 {
        lemma_each_entry_found(xs, ys, (n - 1) as nat);
        if each_entry_found(xs, ys, n) {
            assert forall|i: int| 0 <= i < n implies #[trigger] entry_found(xs[i], ys, ys.len()) by {
                if i < n - 1 {
                }
            }
        }
        if forall|i: int| 0 <= i < n ==> #[trigger] entry_found(xs[i], ys, ys.len()) {
            let last = (n - 1) as int;
            assert(entry_found(xs[last], ys, ys.len()));
        }
    }
}

proof fn lemma_entry_matched(
    xs: Seq<(ValueModel, ValueModel)>,
    q: (ValueModel, ValueModel),
    m: nat,
)
    requires
        m <= xs.len(),
    ensures
        entry_matched(xs, q, m) <==> exists|i: int| 0 <= i < m && #[trigger] same_entry(xs[i], q),
    decreases m,
{
    if m > 0 {
        lemma_entry_matched(xs, q, (m - 1) as nat);
        if same_entry(xs[m - 1], q) {
            assert(same_entry(xs[(m - 1) as int], q));
        }
    }
}

proof fn lemma_each_entry_matched(
    xs: Seq<(ValueModel, ValueModel)>,
    ys: Seq<(ValueModel, ValueModel)>,
    n: nat,
)
    requires
        n <= ys.len(),
    ensures
        each_entry_matched(xs, ys, n) <==> forall|j: int|
            0 <= j < n ==> #[trigger] entry_matched(xs, ys[j], xs.len()),
    decreases n,
{
    if n > 0 {
        lemma_each_entry_matched(xs, ys, (n - 1) as nat);
        if each_entry_matched(xs, ys, n) {
            assert forall|j: int| 0 <= j < n implies #[trigger] entry_matched(xs, ys[j], xs.len()) by {
                if j < n - 1 {
                }
            }
        }
        if forall|j: int| 0 <= j < n ==> #[trigger] entry_matched(xs, ys[j], xs.len()) {
            let last = (n - 1) as int;
            assert(entry_matched(xs, ys[last], xs.len()));
        }
    }
}

/// Every value is equal to itself.
pub proof fn law_same_value_reflexive(a: ValueModel)
    ensures
        same_value(a, a),
    decreases a,
{
    match a {
        ValueModel::Cons(a1, a2) => {
            law_same_value_reflexive(*a1);
            law_same_value_reflexive(*a2);
        },
        ValueModel::Vector(xs) => {
            lemma_same_items(xs, xs, xs.len());
            assert forall|i: int| 0 <= i < xs.len() implies #[trigger] same_value(xs[i], xs[i]) by {
                law_same_value_reflexive(xs[i]);
            }
        },
        ValueModel::HashSet(xs) => {
            lemma_each_found(xs, xs, xs.len());
            lemma_each_matched(xs, xs, xs.len());
            assert forall|i: int| 0 <= i < xs.len() implies #[trigger] found(xs[i], xs, xs.len()) by {
                law_same_value_reflexive(xs[i]);
                lemma_found(xs[i], xs, xs.len());
                assert(same_value(xs[i], xs[i]));
            }
            assert forall|i: int| 0 <= i < xs.len() implies #[trigger] matched(xs, xs[i], xs.len()) by {
                law_same_value_reflexive(xs[i]);
                lemma_matched(xs, xs[i], xs.len());
                assert(same_value(xs[i], xs[i]));
            }
        },
        ValueModel::HashMap(xs) => {
            lemma_each_entry_found(xs, xs, xs.len());
            lemma_each_entry_matched(xs, xs, xs.len());
            assert forall|i: int| 0 <= i < xs.len() implies #[trigger] entry_found(
                xs[i],
                xs,
                xs.len(),
            ) by {
                law_same_value_reflexive(xs[i].0);
                law_same_value_reflexive(xs[i].1);
                lemma_entry_found(xs[i], xs, xs.len());
                assert(same_entry(xs[i], xs[i]));
            }
            assert forall|i: int| 0 <= i < xs.len() implies #[trigger] entry_matched(
                xs,
                xs[i],
                xs.len(),
            ) by {
                law_same_value_reflexive(xs[i].0);
                law_same_value_reflexive(xs[i].1);
                lemma_entry_matched(xs, xs[i], xs.len());
                assert(same_entry(xs[i], xs[i]));
            }
        },
        ValueModel::Reduced(x) => {
            law_same_value_reflexive(*x);
        },
        ValueModel::Lambda(_, x, _) => {
            law_same_value_reflexive(*x);
        },
        ValueModel::Macro(_, x, _) => {
            law_same_value_reflexive(*x);
        },
        _ => {},
    }
}

/// Equality of values is symmetric.
pub proof fn law_same_value_symmetric(a: ValueModel, b: ValueModel)
    requires
        same_value(a, b),
    ensures
        same_value(b, a),
    decreases a,
{
    match (a, b) {
        (ValueModel::Cons(a1, a2), ValueModel::Cons(b1, b2)) => {
            law_same_value_symmetric(*a1, *b1);
            law_same_value_symmetric(*a2, *b2);
        },
        (ValueModel::Vector(xs), ValueModel::Vector(ys)) => {
            lemma_same_items(xs, ys, xs.len());
            lemma_same_items(ys, xs, ys.len());
            assert forall|i: int| 0 <= i < ys.len() implies #[trigger] same_value(ys[i], xs[i]) by {
                law_same_value_symmetric(xs[i], ys[i]);
            }
        },
        (ValueModel::HashSet(xs), ValueModel::HashSet(ys)) => {
            lemma_each_found(xs, ys, xs.len());
            lemma_each_matched(xs, ys, ys.len());
            lemma_each_found(ys, xs, ys.len());
            lemma_each_matched(ys, xs, xs.len());
            assert forall|j: int| 0 <= j < ys.len() implies #[trigger] found(ys[j], xs, xs.len()) by {
                assert(matched(xs, ys[j], xs.len()));
                lemma_matched(xs, ys[j], xs.len());
                let i = choose|i: int| 0 <= i < xs.len() && #[trigger] same_value(xs[i], ys[j]);
                law_same_value_symmetric(xs[i], ys[j]);
                lemma_found(ys[j], xs, xs.len());
            }
            assert forall|i: int| 0 <= i < xs.len() implies #[trigger] matched(ys, xs[i], ys.len()) by {
                assert(found(xs[i], ys, ys.len()));
                lemma_found(xs[i], ys, ys.len());
                let j = choose|j: int| 0 <= j < ys.len() && #[trigger] same_value(xs[i], ys[j]);
                law_same_value_symmetric(xs[i], ys[j]);
                lemma_matched(ys, xs[i], ys.len());
            }
        },
        (ValueModel::HashMap(xs), ValueModel::HashMap(ys)) => {
            lemma_each_entry_found(xs, ys, xs.len());
            lemma_each_entry_matched(xs, ys, ys.len());
            lemma_each_entry_found(ys, xs, ys.len());
            lemma_each_entry_matched(ys, xs, xs.len());
            assert forall|j: int| 0 <= j < ys.len() implies #[trigger] entry_found(
                ys[j],
                xs,
                xs.len(),
            ) by {
                assert(entry_matched(xs, ys[j], xs.len()));
                lemma_entry_matched(xs, ys[j], xs.len());
                let i = choose|i: int| 0 <= i < xs.len() && #[trigger] same_entry(xs[i], ys[j]);
                law_same_value_symmetric(xs[i].0, ys[j].0);
                law_same_value_symmetric(xs[i].1, ys[j].1);
                assert(same_entry(ys[j], xs[i]));
                lemma_entry_found(ys[j], xs, xs.len());
            }
            assert forall|i: int| 0 <= i < xs.len() implies #[trigger] entry_matched(
                ys,
                xs[i],
                ys.len(),
            ) by {
                assert(entry_found(xs[i], ys, ys.len()));
                lemma_entry_found(xs[i], ys, ys.len());
                let j = choose|j: int| 0 <= j < ys.len() && #[trigger] same_entry(xs[i], ys[j]);
                law_same_value_symmetric(xs[i].0, ys[j].0);
                law_same_value_symmetric(xs[i].1, ys[j].1);
                assert(same_entry(ys[j], xs[i]));
                lemma_entry_matched(ys, xs[i], ys.len());
            }
        },
        (ValueModel::Reduced(x), ValueModel::Reduced(y)) => {
            law_same_value_symmetric(*x, *y);
        },
        (ValueModel::Lambda(_, x, _), ValueModel::Lambda(_, y, _)) => {
            law_same_value_symmetric(*x, *y);
        },
        (ValueModel::Macro(_, x, _), ValueModel::Macro(_, y, _)) => {
            law_same_value_symmetric(*x, *y);
        },
        _ => {},
    }
}

/// Equality of values is transitive.
pub proof fn law_same_value_transitive(a: ValueModel, b: ValueModel, c: ValueModel)
    requires
        same_value(a, b),
        same_value(b, c),
    ensures
        same_value(a, c),
    decreases a,
{
    match (a, b, c) {
        (ValueModel::Cons(a1, a2), ValueModel::Cons(b1, b2), ValueModel::Cons(c1, c2)) => {
            law_same_value_transitive(*a1, *b1, *c1);
            law_same_value_transitive(*a2, *b2, *c2);
        },
        (ValueModel::Vector(xs), ValueModel::Vector(ys), ValueModel::Vector(zs)) => {
            lemma_same_items(xs, ys, xs.len());
            lemma_same_items(ys, zs, ys.len());
            lemma_same_items(xs, zs, xs.len());
            assert forall|i: int| 0 <= i < xs.len() implies #[trigger] same_value(xs[i], zs[i]) by {
                assert(same_value(xs[i], ys[i]));
                assert(same_value(ys[i], zs[i]));
                law_same_value_transitive(xs[i], ys[i], zs[i]);
            }
        },
        (ValueModel::HashSet(xs), ValueModel::HashSet(ys), ValueModel::HashSet(zs)) => {
            lemma_each_found(xs, ys, xs.len());
            lemma_each_matched(xs, ys, ys.len());
            lemma_each_found(ys, zs, ys.len());
            lemma_each_matched(ys, zs, zs.len());
            lemma_each_found(xs, zs, xs.len());
            lemma_each_matched(xs, zs, zs.len());
            assert forall|i: int| 0 <= i < xs.len() implies #[trigger] found(xs[i], zs, zs.len()) by {
                assert(found(xs[i], ys, ys.len()));
                lemma_found(xs[i], ys, ys.len());
                let j = choose|j: int| 0 <= j < ys.len() && #[trigger] same_value(xs[i], ys[j]);
                assert(found(ys[j], zs, zs.len()));
                lemma_found(ys[j], zs, zs.len());
                let k = choose|k: int| 0 <= k < zs.len() && #[trigger] same_value(ys[j], zs[k]);
                law_same_value_transitive(xs[i], ys[j], zs[k]);
                lemma_found(xs[i], zs, zs.len());
            }
            assert forall|k: int| 0 <= k < zs.len() implies #[trigger] matched(xs, zs[k], xs.len()) by {
                assert(matched(ys, zs[k], ys.len()));
                lemma_matched(ys, zs[k], ys.len());
                let j = choose|j: int| 0 <= j < ys.len() && #[trigger] same_value(ys[j], zs[k]);
                assert(matched(xs, ys[j], xs.len()));
                lemma_matched(xs, ys[j], xs.len());
                let i = choose|i: int| 0 <= i < xs.len() && #[trigger] same_value(xs[i], ys[j]);
                law_same_value_transitive(xs[i], ys[j], zs[k]);
                lemma_matched(xs, zs[k], xs.len());
            }
        },
        (ValueModel::HashMap(xs), ValueModel::HashMap(ys), ValueModel::HashMap(zs)) => {
            lemma_each_entry_found(xs, ys, xs.len());
            lemma_each_entry_matched(xs, ys, ys.len());
            lemma_each_entry_found(ys, zs, ys.len());
            lemma_each_entry_matched(ys, zs, zs.len());
            lemma_each_entry_found(xs, zs, xs.len());
            lemma_each_entry_matched(xs, zs, zs.len());
            assert forall|i: int| 0 <= i < xs.len() implies #[trigger] entry_found(
                xs[i],
                zs,
                zs.len(),
            ) by {
                assert(entry_found(xs[i], ys, ys.len()));
                lemma_entry_found(xs[i], ys, ys.len());
                let j = choose|j: int| 0 <= j < ys.len() && #[trigger] same_entry(xs[i], ys[j]);
                assert(entry_found(ys[j], zs, zs.len()));
                lemma_entry_found(ys[j], zs, zs.len());
                let k = choose|k: int| 0 <= k < zs.len() && #[trigger] same_entry(ys[j], zs[k]);
                law_same_value_transitive(xs[i].0, ys[j].0, zs[k].0);
                law_same_value_transitive(xs[i].1, ys[j].1, zs[k].1);
                assert(same_entry(xs[i], zs[k]));
                lemma_entry_found(xs[i], zs, zs.len());
            }
            assert forall|k: int| 0 <= k < zs.len() implies #[trigger] entry_matched(
                xs,
                zs[k],
                xs.len(),
            ) by {
                assert(entry_matched(ys, zs[k], ys.len()));
                lemma_entry_matched(ys, zs[k], ys.len());
                let j = choose|j: int| 0 <= j < ys.len() && #[trigger] same_entry(ys[j], zs[k]);
                assert(entry_matched(xs, ys[j], xs.len()));
                lemma_entry_matched(xs, ys[j], xs.len());
                let i = choose|i: int| 0 <= i < xs.len() && #[trigger] same_entry(xs[i], ys[j]);
                law_same_value_transitive(xs[i].0, ys[j].0, zs[k].0);
                law_same_value_transitive(xs[i].1, ys[j].1, zs[k].1);
                assert(same_entry(xs[i], zs[k]));
                lemma_entry_matched(xs, zs[k], xs.len());
            }
        },
        (ValueModel::Reduced(x), ValueModel::Reduced(y), ValueModel::Reduced(z)) => {
            law_same_value_transitive(*x, *y, *z);
        },
        (ValueModel::Lambda(_, x, _), ValueModel::Lambda(_, y, _), ValueModel::Lambda(_, z, _)) => {
            law_same_value_transitive(*x, *y, *z);
        },
        (ValueModel::Macro(_, x, _), ValueModel::Macro(_, y, _), ValueModel::Macro(_, z, _)) => {
            law_same_value_transitive(*x, *y, *z);
        },
        _ => {},
    }
}

/// Whether two lists of names are the same.
pub fn names_equal(a: &Vec<String>, b: &Vec<String>) -> (r: bool)
    ensures
        r == (names_model(a@) == names_model(b@)),
{
    if a.len() != b.len() {
        assert(names_model(a@).len() != names_model(b@).len());
        return false;
    }
    let mut i: usize = 0;
    while i < a.len()
        invariant
            a.len() == b.len(),
            i <= a.len(),
            forall|j: int| 0 <= j < i ==> a@[j]@ == b@[j]@,
        decreases a.len() - i,
    {
        if !string_eq(&a[i], &b[i]) {
            assert(names_model(a@)[i as int] != names_model(b@)[i as int]);
            return false;
        }
        i = i + 1;
    }
    assert(names_model(a@) =~= names_model(b@));
    true
}

/// Whether two values are equal as the language compares them: maps and
/// sets are equal when their entries match, whatever order they are kept in.
#[verifier::loop_isolation(false)]
pub fn value_equal(a: &Value, b: &Value) -> (r: bool)
    ensures
        r == same_value(a@, b@),
    decreases a,
{
    match (a, b) {
        (Value::Atom(x), Value::Atom(y)) => atom_eq(x, y),
        (Value::Nil, Value::Nil) => true,
        (Value::Cons(c1), Value::Cons(c2)) => {
            value_equal(&c1.car, &c2.car) && value_equal(&c1.cdr, &c2.cdr)
        },
        (Value::Reduced(x), Value::Reduced(y)) => value_equal(x, y),
        (Value::NativeFn(x), Value::NativeFn(y)) => *x == *y,
        (Value::Lambda(x), Value::Lambda(y)) => {
            names_equal(&x.params, &y.params) && value_equal(&x.body, &y.body)
        },
        (Value::Macro(x), Value::Macro(y)) => {
            names_equal(&x.params, &y.params) && value_equal(&x.body, &y.body)
        },
        (Value::Vector(v1), Value::Vector(v2)) => {
            let ghost xs = values_model(v1.elements@);
            let ghost ys = values_model(v2.elements@);
            proof {
                lemma_values_model(v1.elements@);
                lemma_values_model(v2.elements@);
                lemma_same_items(xs, ys, xs.len());
            }
            if v1.elements.len() != v2.elements.len() {
                return false;
            }
            let n = v1.elements.len();
            let mut i: usize = 0;
            while i < n
                invariant
                    i <= n,
                    forall|p: int| 0 <= p < i ==> #[trigger] same_value(xs[p], ys[p]),
                decreases n - i,
            {
                proof {
                    assert(decreases_to!(*a => **v1));
                    assert(decreases_to!(**v1 => v1.elements));
                    assert(decreases_to!(v1.elements => v1.elements@));
                    assert(decreases_to!(v1.elements@ => v1.elements@[i as int]));
                }
                if !value_equal(&v1.elements[i], &v2.elements[i]) {
                    assert(!same_value(xs[i as int], ys[i as int]));
                    return false;
                }
                i = i + 1;
            }
            true
        },
        (Value::HashSet(s1), Value::HashSet(s2)) => {
            let ghost xs = values_model(s1.elements@);
            let ghost ys = values_model(s2.elements@);
            proof {
                lemma_values_model(s1.elements@);
                lemma_values_model(s2.elements@);
                lemma_each_found(xs, ys, xs.len());
                lemma_each_matched(xs, ys, ys.len());
            }
            if s1.elements.len() != s2.elements.len() {
                return false;
            }
            let n = s1.elements.len();
            let mut i: usize = 0;
            while i < n
                invariant
                    i <= n,
                    forall|p: int| 0 <= p < i ==> #[trigger] found(xs[p], ys, ys.len()),
                decreases n - i,
            {
                proof {
                    assert(decreases_to!(*a => **s1));
                    assert(decreases_to!(**s1 => s1.elements));
                    assert(decreases_to!(s1.elements => s1.elements@));
                    assert(decreases_to!(s1.elements@ => s1.elements@[i as int]));
                    lemma_found(xs[i as int], ys, ys.len());
                }
                let mut hit = false;
                let mut j: usize = 0;
                while j < n && !hit
                    invariant
                        j <= n,
                        hit ==> found(xs[i as int], ys, ys.len()),
                        !hit ==> forall|q: int| 0 <= q < j ==> !#[trigger] same_value(xs[i as int], ys[q]),
                    decreases n - j,
                {
                    if value_equal(&s1.elements[i], &s2.elements[j]) {
                        assert(same_value(xs[i as int], ys[j as int]));
                        hit = true;
                    }
                    j = j + 1;
                }
                if !hit {
                    return false;
                }
                i = i + 1;
            }
            let mut k: usize = 0;
            while k < n
                invariant
                    k <= n,
                    forall|p: int| 0 <= p < k ==> #[trigger] matched(xs, ys[p], xs.len()),
                decreases n - k,
            {
                proof {
                    lemma_matched(xs, ys[k as int], xs.len());
                }
                let mut hit = false;
                let mut i: usize = 0;
                while i < n && !hit
                    invariant
                        i <= n,
                        hit ==> matched(xs, ys[k as int], xs.len()),
                        !hit ==> forall|q: int| 0 <= q < i ==> !#[trigger] same_value(xs[q], ys[k as int]),
                    decreases n - i,
                {
                    proof {
                        assert(decreases_to!(*a => **s1));
                        assert(decreases_to!(**s1 => s1.elements));
                        assert(decreases_to!(s1.elements => s1.elements@));
                        assert(decreases_to!(s1.elements@ => s1.elements@[i as int]));
                    }
                    if value_equal(&s1.elements[i], &s2.elements[k]) {
                        assert(same_value(xs[i as int], ys[k as int]));
                        hit = true;
                    }
                    i = i + 1;
                }
                if !hit {
                    return false;
                }
                k = k + 1;
            }
            true
        },
        (Value::HashMap(m1), Value::HashMap(m2)) => {
            let ghost xs = entries_model(m1.entries@);
            let ghost ys = entries_model(m2.entries@);
            proof {
                lemma_entries_model(m1.entries@);
                lemma_entries_model(m2.entries@);
                lemma_each_entry_found(xs, ys, xs.len());
                lemma_each_entry_matched(xs, ys, ys.len());
            }
            if m1.entries.len() != m2.entries.len() {
                return false;
            }
            let n = m1.entries.len();
            let mut i: usize = 0;
            while i < n
                invariant
                    i <= n,
                    forall|p: int| 0 <= p < i ==> #[trigger] entry_found(xs[p], ys, ys.len()),
                decreases n - i,
            {
                proof {
                    assert(decreases_to!(*a => **m1));
                    assert(decreases_to!(**m1 => m1.entries));
                    assert(decreases_to!(m1.entries => m1.entries@));
                    assert(decreases_to!(m1.entries@ => m1.entries@[i as int]));
                    assert(decreases_to!(m1.entries@[i as int] => m1.entries@[i as int].0));
                    assert(decreases_to!(m1.entries@[i as int] => m1.entries@[i as int].1));
                    lemma_entry_found(xs[i as int], ys, ys.len());
                }
                let mut hit = false;
                let mut j: usize = 0;
                while j < n && !hit
                    invariant
                        j <= n,
                        hit ==> entry_found(xs[i as int], ys, ys.len()),
                        !hit ==> forall|q: int| 0 <= q < j ==> !#[trigger] same_entry(xs[i as int], ys[q]),
                    decreases n - j,
                {
                    if value_equal(&m1.entries[i].0, &m2.entries[j].0) && value_equal(
                        &m1.entries[i].1,
                        &m2.entries[j].1,
                    ) {
                        assert(same_entry(xs[i as int], ys[j as int]));
                        hit = true;
                    } else {
                        assert(!same_entry(xs[i as int], ys[j as int]));
                    }
                    j = j + 1;
                }
                if !hit {
                    return false;
                }
                i = i + 1;
            }
            let mut k: usize = 0;
            while k < n
                invariant
                    k <= n,
                    forall|p: int| 0 <= p < k ==> #[trigger] entry_matched(xs, ys[p], xs.len()),
                decreases n - k,
            {
                proof {
                    lemma_entry_matched(xs, ys[k as int], xs.len());
                }
                let mut hit = false;
                let mut i: usize = 0;
                while i < n && !hit
                    invariant
                        i <= n,
                        hit ==> entry_matched(xs, ys[k as int], xs.len()),
                        !hit ==> forall|q: int| 0 <= q < i ==> !#[trigger] same_entry(xs[q], ys[k as int]),
                    decreases n - i,
                {
                    proof {
                        assert(decreases_to!(*a => **m1));
                        assert(decreases_to!(**m1 => m1.entries));
                        assert(decreases_to!(m1.entries => m1.entries@));
                        assert(decreases_to!(m1.entries@ => m1.entries@[i as int]));
                        assert(decreases_to!(m1.entries@[i as int] => m1.entries@[i as int].0));
                        assert(decreases_to!(m1.entries@[i as int] => m1.entries@[i as int].1));
                    }
                    if value_equal(&m1.entries[i].0, &m2.entries[k].0) && value_equal(
                        &m1.entries[i].1,
                        &m2.entries[k].1,
                    ) {
                        assert(same_entry(xs[i as int], ys[k as int]));
                        hit = true;
                    } else {
                        assert(!same_entry(xs[i as int], ys[k as int]));
                    }
                    i = i + 1;
                }
                if !hit {
                    return false;
                }
                k = k + 1;
            }
            true
        },
        _ => false,
    }
}

/// `eq`: atoms are compared by value, the empty list equals itself, and
/// nothing else is `eq`.
pub fn eq(a: &Value, b: &Value) -> (r: bool)
    ensures
        r == spec_eq(a@, b@),
{
    match (a, b) {
        (Value::Atom(a1), Value::Atom(a2)) => {
            let r = atom_eq(a1, a2);
            proof {
                if !r {
                    assert(a@ != b@);
                }
            }
            r
        },
        (Value::Nil, Value::Nil) => true,
        _ => false,
    }
}

/// `eq` is an equivalence on atoms: symmetric, transitive, and reflexive
/// exactly on atoms; nothing but an atom is `eq` to anything.
pub proof fn law_eq_equivalence_on_atoms(a: ValueModel, b: ValueModel, c: ValueModel)
    ensures
        spec_eq(a, b) == spec_eq(b, a),
        spec_eq(a, b) && spec_eq(b, c) ==> spec_eq(a, c),
        spec_eq(a, a) == spec_is_atom(a),
        !spec_is_atom(a) ==> !spec_eq(a, b),
{
}

} // verus!
