//! Operations shared by the collections: walking lists, vectors, maps, sets
//! and strings in order; counting; indexing; lookup by key; association and
//! insertion; values that end a reduction early; map and set constructors.

use vstd::prelude::*;

use crate::analysis::collect_list;
use crate::native::is_proper_list;
use crate::language::{
    AtomType, ConsCell, MapValue, SetValue, StringType, SymbolType, Value, ValueModel,
    VectorValue, cons, copy_entries, copy_values, display, entries_model, lemma_entries_model,
    lemma_values_model, law_same_value_reflexive, law_same_value_symmetric,
    law_same_value_transitive, list_elements, list_model, same_value, value_equal, value_model,
    values_model,
};
use crate::numeric::{NumberModel, NumericType};
use crate::text::{chars_of, decimal, push_char, push_decimal};

verus! {

// ============================================================================
// What a walk over a value yields
// ============================================================================

/// A map entry as the two-element vector `<<key value>>`.
pub open spec fn entry_pair(e: (ValueModel, ValueModel)) -> ValueModel {
    ValueModel::Vector(seq![e.0, e.1])
}

/// A character as a one-character string.
pub open spec fn char_string(c: char) -> ValueModel {
    ValueModel::Str(seq![c])
}

pub open spec fn entry_pairs(e: Seq<(ValueModel, ValueModel)>) -> Seq<ValueModel> {
    e.map_values(|x: (ValueModel, ValueModel)| entry_pair(x))
}

pub open spec fn char_strings(cs: Seq<char>) -> Seq<ValueModel> {
    cs.map_values(|c: char| char_string(c))
}

/// What a walk from `index` over `items` yields: the items from there on,
/// or the empty list alone when none are left.
pub open spec fn from_index(items: Seq<ValueModel>, index: int) -> Seq<ValueModel> {
    if 0 <= index < items.len() {
        items.skip(index)
    } else {
        seq![ValueModel::Nil]
    }
}

/// The elements a walk over `v` yields, or `None` when `v` is empty or not
/// a collection: the elements of a list, vector or set, the entries of a
/// map as `<<key value>>` vectors, the characters of a string as
/// one-character strings.
pub open spec fn spec_seq(v: ValueModel) -> Option<Seq<ValueModel>> {
    match v {
        ValueModel::Cons(_, _) => Some(list_elements(v)),
        ValueModel::Vector(items) => if items.len() == 0 {
            None
        } else {
            Some(items)
        },
        ValueModel::HashMap(e) => if e.len() == 0 {
            None
        } else {
            Some(entry_pairs(e))
        },
        ValueModel::HashSet(items) => if items.len() == 0 {
            None
        } else {
            Some(items)
        },
        ValueModel::Str(s) => if s.len() == 0 {
            None
        } else {
            Some(char_strings(s))
        },
        _ => None,
    }
}

// ============================================================================
// Sequences
// ============================================================================

/// A walk over the elements of a value, standing at one element.
pub enum Sequence {
    /// A cons-based sequence (linked list)
    ConsBased(Box<ConsCell>),
    /// A vector being iterated (with current index)
    VectorSeq { vec: Box<VectorValue>, index: usize },
    /// A map being iterated (as key-value pairs)
    MapSeq { entries: Vec<(Value, Value)>, index: usize },
    /// A set being iterated
    SetSeq { elements: Vec<Value>, index: usize },
    /// A string being iterated (as characters)
    StringSeq { chars: Vec<char>, index: usize },
}

impl Sequence {
    /// The elements yielded from here on: the current one, then each one
    /// that moving on reaches.
    pub open spec fn items(&self) -> Seq<ValueModel> {
        match *self {
            Sequence::ConsBased(cell) => list_elements(
                ValueModel::Cons(Box::new(cell.car@), Box::new(cell.cdr@)),
            ),
            Sequence::VectorSeq { vec, index } => from_index(
                values_model(vec.elements@),
                index as int,
            ),
            Sequence::MapSeq { entries, index } => from_index(
                entry_pairs(entries_model(entries@)),
                index as int,
            ),
            Sequence::SetSeq { elements, index } => from_index(
                values_model(elements@),
                index as int,
            ),
            Sequence::StringSeq { chars, index } => from_index(char_strings(chars@), index as int),
        }
    }

    /// Moving on cannot overflow the index.
    pub open spec fn can_advance(&self) -> bool {
        match *self {
            Sequence::ConsBased(_) => true,
            Sequence::VectorSeq { index, .. } => index < usize::MAX,
            Sequence::MapSeq { index, .. } => index < usize::MAX,
            Sequence::SetSeq { index, .. } => index < usize::MAX,
            Sequence::StringSeq { index, .. } => index < usize::MAX,
        }
    }

    /// Get the first element of this sequence.
    pub fn first(&self) -> (r: Value)
        ensures
            r@ == self.items()[0],
    {
        match self {
            Sequence::ConsBased(cell) => cell.car.copy(),
            Sequence::VectorSeq { vec, index } => {
                proof {
                    lemma_values_model(vec.elements@);
                }
                if *index < vec.elements.len() {
                    vec.elements[*index].copy()
                } else {
                    Value::Nil
                }
            },
            Sequence::MapSeq { entries, index } => {
                proof {
                    lemma_entries_model(entries@);
                }
                if *index < entries.len() {
                    let k = entries[*index].0.copy();
                    let v = entries[*index].1.copy();
                    let pair = vec![k, v];
                    proof {
                        lemma_values_model(pair@);
                        assert(values_model(pair@) =~= seq![
                            entries_model(entries@)[*index as int].0,
                            entries_model(entries@)[*index as int].1,
                        ]);
                    }
                    Value::Vector(Box::new(VectorValue { elements: pair }))
                } else {
                    Value::Nil
                }
            },
            Sequence::SetSeq { elements, index } => {
                proof {
                    lemma_values_model(elements@);
                }
                if *index < elements.len() {
                    elements[*index].copy()
                } else {
                    Value::Nil
                }
            },
            Sequence::StringSeq { chars, index } => {
                if *index < chars.len() {
                    one_char_string(chars[*index])
                } else {
                    Value::Nil
                }
            },
        }
    }

    /// Get the rest of this sequence (everything after first).
    /// Returns None if there are no more elements.
    pub fn next(&self) -> (r: Option<Sequence>)
        requires
            self.can_advance(),
        ensures
            self.items().len() >= 1,
            match r {
                None => self.items().len() == 1,
                Some(s) => s.can_advance() && s.items() == self.items().drop_first(),
            },
    {
        match self {
            Sequence::ConsBased(cell) => {
                match &cell.cdr {
                    Value::Cons(next_cell) => {
                        let c = ConsCell { car: next_cell.car.copy(), cdr: next_cell.cdr.copy() };
                        assert(cell.cdr@ == ValueModel::Cons(
                            Box::new(next_cell.car@),
                            Box::new(next_cell.cdr@),
                        ));
                        Some(Sequence::ConsBased(Box::new(c)))
                    },
                    _ => {
                        assert(list_elements(cell.cdr@) =~= Seq::<ValueModel>::empty());
                        None
                    },
                }
            },
            Sequence::VectorSeq { vec, index } => {
                let next_index = *index + 1;
                proof {
                    lemma_values_model(vec.elements@);
                }
                if next_index < vec.elements.len() {
                    let elements = copy_values(&vec.elements);
                    proof {
                        assert(values_model(vec.elements@).skip(next_index as int)
                            =~= values_model(vec.elements@).skip(*index as int).drop_first());
                    }
                    Some(
                        Sequence::VectorSeq {
                            vec: Box::new(VectorValue { elements }),
                            index: next_index,
                        },
                    )
                } else {
                    None
                }
            },
            Sequence::MapSeq { entries, index } => {
                let next_index = *index + 1;
                proof {
                    lemma_entries_model(entries@);
                }
                if next_index < entries.len() {
                    let copied = copy_entries(entries);
                    proof {
                        let ps = entry_pairs(entries_model(entries@));
                        assert(ps.skip(next_index as int) =~= ps.skip(*index as int).drop_first());
                    }
                    Some(Sequence::MapSeq { entries: copied, index: next_index })
                } else {
                    None
                }
            },
            Sequence::SetSeq { elements, index } => {
                let next_index = *index + 1;
                proof {
                    lemma_values_model(elements@);
                }
                if next_index < elements.len() {
                    let copied = copy_values(elements);
                    proof {
                        assert(values_model(elements@).skip(next_index as int) =~= values_model(
                            elements@,
                        ).skip(*index as int).drop_first());
                    }
                    Some(Sequence::SetSeq { elements: copied, index: next_index })
                } else {
                    None
                }
            },
            Sequence::StringSeq { chars, index } => {
                let next_index = *index + 1;
                if next_index < chars.len() {
                    let mut copied: Vec<char> = Vec::new();
                    let mut i: usize = 0;
                    while i < chars.len()
                        invariant
                            i <= chars.len(),
                            copied@ == chars@.take(i as int),
                        decreases chars.len() - i,
                    {
                        copied.push(chars[i]);
                        i = i + 1;
                    }
                    proof {
                        assert(chars@.take(chars.len() as int) =~= chars@);
                        let cs = char_strings(chars@);
                        assert(cs.skip(next_index as int) =~= cs.skip(*index as int).drop_first());
                    }
                    Some(Sequence::StringSeq { chars: copied, index: next_index })
                } else {
                    None
                }
            },
        }
    }

    /// Convert this sequence to a proper list (cons cells).
    pub fn to_list(&self) -> (r: Value)
        requires
            self.can_advance(),
        ensures
            r@ == list_model(self.items()),
    {
        let mut items: Vec<Value> = Vec::new();
        let ghost all = self.items();
        let x0 = self.first();
        items.push(x0);
        let mut current = self.next();
        proof {
            assert(items@.drop_last() =~= Seq::<Value>::empty());
            assert(values_model(Seq::<Value>::empty()) =~= Seq::<ValueModel>::empty());
            assert(values_model(items@) =~= seq![all[0]]);
            match &current {
                Some(s) => {
                    assert(seq![all[0]] + s.items() =~= all);
                },
                None => {
                    assert(seq![all[0]] =~= all);
                },
            }
        }
        loop
            invariant
                all == self.items(),
                all.len() >= 1,
                match current {
                    Some(s) => s.can_advance() && values_model(items@) + s.items() == all,
                    None => values_model(items@) == all,
                },
            ensures
                values_model(items@) == all,
            decreases match current {
                Some(s) => s.items().len(),
                None => 0,
            },
        {
            match current {
                Some(s) => {
                    let ghost before = values_model(items@);
                    let x = s.first();
                    let n = s.next();
                    proof {
                        assert(items@.push(x).drop_last() =~= items@);
                        assert(values_model(items@.push(x)) == before.push(x@));
                        assert(s.items() =~= seq![s.items()[0]] + s.items().drop_first());
                        match &n {
                            Some(t) => {
                                assert(before.push(x@) + t.items() =~= before + s.items());
                            },
                            None => {
                                assert(before.push(x@) =~= before + s.items());
                            },
                        }
                    }
                    items.push(x);
                    current = n;
                },
                None => {
                    break ;
                },
            }
        }
        crate::parser::list_from(items)
    }
}

/// The one-character string holding `c`.
fn one_char_string(c: char) -> (r: Value)
    ensures
        r@ == char_string(c),
{
    let mut s = String::new();
    push_char(&mut s, c);
    assert(s@ =~= seq![c]);
    Value::Atom(AtomType::String(StringType::Basic(s)))
}

// ============================================================================
// Seqable - Types that can produce a Sequence
// ============================================================================

/// Convert a value to a sequence if possible.
pub fn seq(value: &Value) -> (r: Option<Sequence>)
    ensures
        match r {
            None => spec_seq(value@) is None,
            Some(s) => spec_seq(value@) == Some(s.items()) && s.can_advance(),
        },
{
    match value {
        Value::Cons(cell) => {
            let c = ConsCell { car: cell.car.copy(), cdr: cell.cdr.copy() };
            Some(Sequence::ConsBased(Box::new(c)))
        },
        Value::Vector(vec) => {
            if vec.elements.len() == 0 {
                proof {
                    lemma_values_model(vec.elements@);
                }
                None
            } else {
                let elements = copy_values(&vec.elements);
                assert(values_model(elements@).skip(0) =~= values_model(elements@));
                Some(Sequence::VectorSeq { vec: Box::new(VectorValue { elements }), index: 0 })
            }
        },
        Value::HashMap(map) => {
            proof {
                lemma_entries_model(map.entries@);
            }
            if map.entries.len() == 0 {
                None
            } else {
                let entries = copy_entries(&map.entries);
                assert(entry_pairs(entries_model(entries@)).skip(0) =~= entry_pairs(
                    entries_model(entries@),
                ));
                Some(Sequence::MapSeq { entries, index: 0 })
            }
        },
        Value::HashSet(set) => {
            proof {
                lemma_values_model(set.elements@);
            }
            if set.elements.len() == 0 {
                None
            } else {
                let elements = copy_values(&set.elements);
                assert(values_model(elements@).skip(0) =~= values_model(elements@));
                Some(Sequence::SetSeq { elements, index: 0 })
            }
        },
        Value::Atom(AtomType::String(StringType::Basic(s))) => {
            let chars = chars_of(s.as_str());
            if chars.len() == 0 {
                None
            } else {
                assert(char_strings(chars@).skip(0) =~= char_strings(chars@));
                Some(Sequence::StringSeq { chars, index: 0 })
            }
        },
        _ => None,
    }
}

/// What `first` gives: the first element of a walk, or the empty list.
pub open spec fn spec_first(v: ValueModel) -> ValueModel {
    match spec_seq(v) {
        Some(items) => items[0],
        None => ValueModel::Nil,
    }
}

/// What `next` and `rest` give: the elements after the first, as a list.
pub open spec fn spec_next(v: ValueModel) -> ValueModel {
    match spec_seq(v) {
        Some(items) => list_model(items.drop_first()),
        None => ValueModel::Nil,
    }
}

/// Get the first element of a value.
pub fn first(value: &Value) -> (r: Value)
    ensures
        r@ == spec_first(value@),
{
    match seq(value) {
        Some(s) => s.first(),
        None => Value::Nil,
    }
}

/// Get the rest of a value as a sequence (returns Nil if empty).
pub fn next(value: &Value) -> (r: Value)
    ensures
        r@ == spec_next(value@),
{
    match seq(value) {
        Some(s) => match s.next() {
            Some(n) => n.to_list(),
            None => {
                assert(s.items().drop_first() =~= Seq::<ValueModel>::empty());
                Value::Nil
            },
        },
        None => Value::Nil,
    }
}

/// Like next but returns empty list instead of nil for empty.
pub fn rest(value: &Value) -> (r: Value)
    ensures
        r@ == spec_next(value@),
{
    next(value)
}

// ============================================================================
// Counted
// ============================================================================

/// The number of elements of a collection, or `None` for what is not one.
pub open spec fn spec_count(v: ValueModel) -> Option<nat> {
    match v {
        ValueModel::Nil => Some(0),
        ValueModel::Cons(_, _) => Some(list_elements(v).len()),
        ValueModel::Vector(items) => Some(items.len()),
        ValueModel::HashMap(e) => Some(e.len()),
        ValueModel::HashSet(items) => Some(items.len()),
        ValueModel::Str(s) => Some(s.len()),
        _ => None,
    }
}

/// Count the number of elements in a collection.
/// Returns None for uncountable types.
pub fn count(value: &Value) -> (r: Option<usize>)
    ensures
        match spec_count(value@) {
            Some(n) => r == Some(n as usize) && n <= usize::MAX,
            None => r is None,
        },
{
    match value {
        Value::Nil => Some(0),
        Value::Cons(_) => {
            let items = collect_list(value);
            proof {
                lemma_values_model(items@);
            }
            Some(items.len())
        },
        Value::Vector(vec) => {
            proof {
                lemma_values_model(vec.elements@);
            }
            Some(vec.elements.len())
        },
        Value::HashMap(map) => {
            proof {
                lemma_entries_model(map.entries@);
            }
            Some(map.entries.len())
        },
        Value::HashSet(set) => {
            proof {
                lemma_values_model(set.elements@);
            }
            Some(set.elements.len())
        },
        Value::Atom(AtomType::String(StringType::Basic(s))) => {
            let chars = chars_of(s.as_str());
            Some(chars.len())
        },
        _ => None,
    }
}

// ============================================================================
// Indexed
// ============================================================================

/// The fallback of a lookup: the given default, else the empty list.
pub open spec fn default_model(d: Option<&Value>) -> ValueModel {
    match d {
        Some(v) => v@,
        None => ValueModel::Nil,
    }
}

fn default_value(d: Option<&Value>) -> (r: Value)
    ensures
        r@ == default_model(d),
{
    match d {
        Some(v) => v.copy(),
        None => Value::Nil,
    }
}

/// The element at `i` of a vector, list or string (a character as a
/// one-character string), or `d` when there is none.
pub open spec fn spec_nth(v: ValueModel, i: int, d: ValueModel) -> ValueModel {
    match v {
        ValueModel::Vector(items) => if 0 <= i < items.len() {
            items[i]
        } else {
            d
        },
        ValueModel::Cons(_, _) => if 0 <= i < list_elements(v).len() {
            list_elements(v)[i]
        } else {
            d
        },
        ValueModel::Str(s) => if 0 <= i < s.len() {
            char_string(s[i])
        } else {
            d
        },
        _ => d,
    }
}

/// Get the nth element of a collection.
/// Returns default_val (or Nil) if index out of bounds.
pub fn nth(value: &Value, index: usize, default_val: Option<&Value>) -> (r: Value)
    ensures
        r@ == spec_nth(value@, index as int, default_model(default_val)),
{
    match value {
        Value::Vector(vec) => {
            proof {
                lemma_values_model(vec.elements@);
            }
            if index < vec.elements.len() {
                vec.elements[index].copy()
            } else {
                default_value(default_val)
            }
        },
        Value::Cons(_) => {
            let items = collect_list(value);
            proof {
                lemma_values_model(items@);
            }
            if index < items.len() {
                items[index].copy()
            } else {
                default_value(default_val)
            }
        },
        Value::Atom(AtomType::String(StringType::Basic(s))) => {
            let chars = chars_of(s.as_str());
            if index < chars.len() {
                one_char_string(chars[index])
            } else {
                default_value(default_val)
            }
        },
        _ => default_value(default_val),
    }
}

// ============================================================================
// Keys
// ============================================================================

/// The position of the first entry whose key equals `k`.
pub open spec fn key_index(e: Seq<(ValueModel, ValueModel)>, k: ValueModel) -> Option<int>
    decreases e.len(),
{
    if e.len() == 0 {
        None
    } else {
        match key_index(e.drop_last(), k) {
            Some(i) => Some(i),
            None => if same_value(e.last().0, k) {
                Some(e.len() - 1)
            } else {
                None
            },
        }
    }
}

proof fn lemma_key_index(e: Seq<(ValueModel, ValueModel)>, k: ValueModel)
    ensures
        match key_index(e, k) {
            Some(i) => 0 <= i < e.len() && same_value(e[i].0, k) && forall|j: int|
                0 <= j < i ==> !same_value((#[trigger] e[j]).0, k),
            None => forall|j: int| 0 <= j < e.len() ==> !same_value((#[trigger] e[j]).0, k),
        },
    decreases e.len(),
{
    if e.len() > 0 {
        lemma_key_index(e.drop_last(), k);
        assert forall|j: int| 0 <= j < e.len() - 1 implies #[trigger] e[j] == e.drop_last()[j] by {}
    }
}

proof fn lemma_key_index_prefix(e: Seq<(ValueModel, ValueModel)>, k: ValueModel, n: int)
    requires
        0 <= n <= e.len(),
        key_index(e.take(n), k) is Some,
    ensures
        key_index(e, k) == key_index(e.take(n), k),
    decreases e.len() - n,
{
    if n < e.len() {
        assert(e.take(n + 1).drop_last() =~= e.take(n));
        lemma_key_index_prefix(e, k, n + 1);
    } else {
        assert(e.take(n) =~= e);
    }
}

/// The entries after setting `k` to `v`: the value of the entry whose key
/// equals `k` is replaced in place, and that entry keeps its key; else the
/// entry is added at the end.
pub open spec fn map_insert(e: Seq<(ValueModel, ValueModel)>, k: ValueModel, v: ValueModel) -> Seq<
    (ValueModel, ValueModel),
> {
    match key_index(e, k) {
        Some(i) => e.update(i, (e[i].0, v)),
        None => e.push((k, v)),
    }
}

/// Whether one of `items` equals `x`.
pub open spec fn has_item(items: Seq<ValueModel>, x: ValueModel) -> bool {
    exists|i: int| 0 <= i < items.len() && #[trigger] same_value(items[i], x)
}

/// The elements after adding `x`, which is added at the end unless an
/// element equal to it is already there.
pub open spec fn set_insert(items: Seq<ValueModel>, x: ValueModel) -> Seq<ValueModel> {
    if has_item(items, x) {
        items
    } else {
        items.push(x)
    }
}

/// The position of the first entry whose key equals `key`.
fn find_key(entries: &Vec<(Value, Value)>, key: &Value) -> (r: Option<usize>)
    ensures
        match r {
            Some(i) => key_index(entries_model(entries@), key@) == Some(i as int),
            None => key_index(entries_model(entries@), key@) is None,
        },
{
    let ghost em = entries_model(entries@);
    proof {
        lemma_entries_model(entries@);
        assert(em.take(0) =~= Seq::<(ValueModel, ValueModel)>::empty());
    }
    let mut i: usize = 0;
    while i < entries.len()
        invariant
            em == entries_model(entries@),
            em.len() == entries@.len(),
            forall|j: int|
                0 <= j < entries@.len() ==> #[trigger] em[j] == (
                    value_model(entries@[j].0),
                    value_model(entries@[j].1),
                ),
            i <= entries.len(),
            key_index(em.take(i as int), key@) is None,
        decreases entries.len() - i,
    {
        assert(em.take(i + 1).drop_last() =~= em.take(i as int));
        assert(em.take(i + 1).last() == em[i as int]);
        if value_equal(&entries[i].0, key) {
            proof {
                lemma_key_index_prefix(em, key@, i + 1);
            }
            return Some(i);
        }
        i = i + 1;
    }
    assert(em.take(entries.len() as int) =~= em);
    None
}

/// Whether an element equal to `x` is among `items`.
fn contains_value(items: &Vec<Value>, x: &Value) -> (r: bool)
    ensures
        r == has_item(values_model(items@), x@),
{
    proof {
        lemma_values_model(items@);
    }
    let mut i: usize = 0;
    while i < items.len()
        invariant
            values_model(items@).len() == items@.len(),
            forall|j: int|
                0 <= j < items@.len() ==> values_model(items@)[j] == value_model(
                    #[trigger] items@[j],
                ),
            i <= items.len(),
            forall|j: int| 0 <= j < i ==> !#[trigger] same_value(values_model(items@)[j], x@),
        decreases items.len() - i,
    {
        if value_equal(&items[i], x) {
            assert(same_value(values_model(items@)[i as int], x@));
            return true;
        }
        i = i + 1;
    }
    false
}

proof fn lemma_entries_model_push(e: Seq<(Value, Value)>, p: (Value, Value))
    ensures
        entries_model(e.push(p)) == entries_model(e).push((p.0@, p.1@)),
{
    assert(e.push(p).drop_last() =~= e);
}

pub proof fn lemma_values_model_push(e: Seq<Value>, x: Value)
    ensures
        values_model(e.push(x)) == values_model(e).push(x@),
{
    assert(e.push(x).drop_last() =~= e);
}

/// Sets `key` to `val` among the entries.
fn insert_entry(entries: &mut Vec<(Value, Value)>, key: Value, val: Value)
    ensures
        entries_model(final(entries)@) == map_insert(entries_model(old(entries)@), key@, val@),
{
    let ghost before = entries@;
    proof {
        lemma_entries_model(before);
        lemma_key_index(entries_model(before), key@);
    }
    match find_key(entries, &key) {
        Some(i) => {
            let ghost v = val@;
            let kept = entries[i].0.copy();
            entries.set(i, (kept, val));
            proof {
                lemma_entries_model(entries@);
                let em = entries_model(before);
                assert forall|j: int| 0 <= j < before.len() implies entries_model(entries@)[j]
                    == em.update(i as int, (em[i as int].0, v))[j] by {
                    assert(entries@[j] == before.update(i as int, entries@[i as int])[j]);
                }
                assert(entries_model(entries@) =~= em.update(i as int, (em[i as int].0, v)));
            }
        },
        None => {
            proof {
                lemma_entries_model_push(before, (key, val));
            }
            entries.push((key, val));
        },
    }
}

/// Adds `x` to the elements unless it is already there.
fn insert_element(items: &mut Vec<Value>, x: Value)
    ensures
        values_model(final(items)@) == set_insert(values_model(old(items)@), x@),
{
    if !contains_value(items, &x) {
        proof {
            lemma_values_model_push(items@, x);
        }
        items.push(x);
    }
}

// ============================================================================
// Lookup
// ============================================================================

/// What `get` gives: the value of the map entry whose key equals the key,
/// the key itself when a set holds an element equal to it, a vector's or
/// string's element at a non-negative integer key, else the default.
pub open spec fn spec_get(c: ValueModel, k: ValueModel, d: ValueModel) -> ValueModel {
    match c {
        ValueModel::HashMap(e) => match key_index(e, k) {
            Some(i) => e[i].1,
            None => d,
        },
        ValueModel::HashSet(items) => if has_item(items, k) {
            k
        } else {
            d
        },
        ValueModel::Vector(items) => match k {
            ValueModel::Number(NumberModel::Int(idx)) => if idx >= 0 && (idx as usize) < items.len() {
                items[idx as usize as int]
            } else {
                d
            },
            _ => d,
        },
        ValueModel::Str(s) => match k {
            ValueModel::Number(NumberModel::Int(idx)) => if idx >= 0 && (idx as usize) < s.len() {
                char_string(s[idx as usize as int])
            } else {
                d
            },
            _ => d,
        },
        _ => d,
    }
}

/// Get a value by key from a collection.
/// Returns default_val (or Nil) if key not found.
pub fn get(coll: &Value, key: &Value, default_val: Option<&Value>) -> (r: Value)
    ensures
        r@ == spec_get(coll@, key@, default_model(default_val)),
{
    match coll {
        Value::HashMap(map) => {
            proof {
                lemma_entries_model(map.entries@);
                lemma_key_index(entries_model(map.entries@), key@);
            }
            match find_key(&map.entries, key) {
                Some(i) => map.entries[i].1.copy(),
                None => default_value(default_val),
            }
        },
        Value::HashSet(set) => {
            if contains_value(&set.elements, key) {
                key.copy()
            } else {
                default_value(default_val)
            }
        },
        Value::Vector(vec) => {
            proof {
                lemma_values_model(vec.elements@);
            }
            match key {
                Value::Atom(AtomType::Number(NumericType::Int(idx))) => {
                    if *idx >= 0 {
                        let u = *idx as usize;
                        if u < vec.elements.len() {
                            vec.elements[u].copy()
                        } else {
                            default_value(default_val)
                        }
                    } else {
                        default_value(default_val)
                    }
                },
                _ => default_value(default_val),
            }
        },
        Value::Atom(AtomType::String(StringType::Basic(s))) => {
            match key {
                Value::Atom(AtomType::Number(NumericType::Int(idx))) => {
                    if *idx >= 0 {
                        let u = *idx as usize;
                        let chars = chars_of(s.as_str());
                        if u < chars.len() {
                            one_char_string(chars[u])
                        } else {
                            default_value(default_val)
                        }
                    } else {
                        default_value(default_val)
                    }
                },
                _ => default_value(default_val),
            }
        },
        _ => default_value(default_val),
    }
}

// ============================================================================
// Associative
// ============================================================================

/// What `assoc` gives: a map with the key set, a vector with the element at
/// the index replaced (or added at its end), a new map for the empty list,
/// or the message for what cannot be associated.
pub open spec fn spec_assoc(c: ValueModel, k: ValueModel, v: ValueModel) -> Result<
    ValueModel,
    Seq<char>,
> {
    match c {
        ValueModel::HashMap(e) => Ok(ValueModel::HashMap(map_insert(e, k, v))),
        ValueModel::Vector(items) => match k {
            ValueModel::Number(NumberModel::Int(idx)) => {
                let u = idx as usize;
                if u <= items.len() {
                    Ok(
                        ValueModel::Vector(
                            if u == items.len() {
                                items.push(v)
                            } else {
                                items.update(u as int, v)
                            },
                        ),
                    )
                } else {
                    Err(
                        "Index "@ + decimal(u as nat) + " out of bounds for vector of length "@
                            + decimal(items.len()),
                    )
                }
            },
            _ => Err("Vector assoc requires integer key"@),
        },
        ValueModel::Nil => Ok(ValueModel::HashMap(seq![(k, v)])),
        other => Err("Cannot assoc on "@ + display(other)),
    }
}

/// A result holding a value, taken by its model.
pub open spec fn result_model(r: Result<Value, String>) -> Result<ValueModel, Seq<char>> {
    match r {
        Ok(v) => Ok(v@),
        Err(m) => Err(m@),
    }
}

fn message_with_value(prefix: &str, value: &Value) -> (r: String)
    ensures
        r@ == prefix@ + display(value@),
{
    let mut m = String::from_str(prefix);
    value.write_to(&mut m);
    m
}

/// Associate a key with a value in a collection.
/// Returns a new collection with the association.
pub fn assoc(coll: &Value, key: Value, val: Value) -> (r: Result<Value, String>)
    ensures
        result_model(r) == spec_assoc(coll@, key@, val@),
{
    match coll {
        Value::HashMap(map) => {
            let mut entries = copy_entries(&map.entries);
            insert_entry(&mut entries, key, val);
            Ok(Value::HashMap(Box::new(MapValue { entries })))
        },
        Value::Vector(vec) => {
            proof {
                lemma_values_model(vec.elements@);
            }
            match &key {
                Value::Atom(AtomType::Number(NumericType::Int(idx))) => {
                    let u = *idx as usize;
                    let len = vec.elements.len();
                    if u <= len {
                        let mut elements = copy_values(&vec.elements);
                        let ghost before = elements@;
                        let ghost v = val@;
                        if u == len {
                            proof {
                                lemma_values_model_push(elements@, val);
                            }
                            elements.push(val);
                        } else {
                            elements.set(u, val);
                            proof {
                                lemma_values_model(before);
                                lemma_values_model(elements@);
                                assert forall|j: int| 0 <= j < before.len() implies values_model(
                                    elements@,
                                )[j] == values_model(before).update(u as int, v)[j] by {
                                    assert(value_model(elements@[j]) == values_model(elements@)[j]);
                                    if j != u {
                                        assert(value_model(before[j]) == values_model(before)[j]);
                                    }
                                }
                                assert(values_model(elements@) =~= values_model(before).update(
                                    u as int,
                                    v,
                                ));
                            }
                        }
                        Ok(Value::Vector(Box::new(VectorValue { elements })))
                    } else {
                        let mut m = String::from_str("Index ");
                        push_decimal(&mut m, u as u64);
                        m.append(" out of bounds for vector of length ");
                        push_decimal(&mut m, len as u64);
                        Err(m)
                    }
                },
                _ => Err(String::from_str("Vector assoc requires integer key")),
            }
        },
        Value::Nil => {
            let mut entries: Vec<(Value, Value)> = Vec::new();
            proof {
                lemma_entries_model_push(entries@, (key, val));
                assert(entries_model(Seq::<(Value, Value)>::empty()) =~= Seq::<
                    (ValueModel, ValueModel),
                >::empty());
            }
            entries.push((key, val));
            Ok(Value::HashMap(Box::new(MapValue { entries })))
        },
        _ => Err(message_with_value("Cannot assoc on ", coll)),
    }
}

// ============================================================================
// Conj
// ============================================================================

pub open spec fn map_conj_message() -> Seq<char> {
    "Map conj expects [key value] vector or (key . value) pair"@
}

/// What `conj` gives: a list with the item in front, a vector with it at
/// the end, a set with it added, a map with a `<<key value>>` vector or a
/// `(key . value)` pair set, or the message for what cannot be added to.
pub open spec fn spec_conj(c: ValueModel, x: ValueModel) -> Result<ValueModel, Seq<char>> {
    match c {
        ValueModel::Nil => Ok(ValueModel::Cons(Box::new(x), Box::new(ValueModel::Nil))),
        ValueModel::Cons(_, _) => Ok(ValueModel::Cons(Box::new(x), Box::new(c))),
        ValueModel::Vector(items) => Ok(ValueModel::Vector(items.push(x))),
        ValueModel::HashSet(items) => Ok(ValueModel::HashSet(set_insert(items, x))),
        ValueModel::HashMap(e) => match x {
            ValueModel::Vector(p) => if p.len() == 2 {
                Ok(ValueModel::HashMap(map_insert(e, p[0], p[1])))
            } else {
                Err(map_conj_message())
            },
            ValueModel::Cons(a, d) => Ok(ValueModel::HashMap(map_insert(e, *a, *d))),
            _ => Err(map_conj_message()),
        },
        other => Err("Cannot conj onto "@ + display(other)),
    }
}

/// Add an item to a collection.
/// Behavior depends on collection type:
/// - List: adds at front
/// - Vector: adds at end
/// - Set: adds element
/// - Map: expects a [key value] pair
pub fn conj(coll: &Value, item: Value) -> (r: Result<Value, String>)
    ensures
        result_model(r) == spec_conj(coll@, item@),
{
    match coll {
        Value::Nil => Ok(cons(item, Value::Nil)),
        Value::Cons(_) => Ok(cons(item, coll.copy())),
        Value::Vector(vec) => {
            let mut elements = copy_values(&vec.elements);
            proof {
                lemma_values_model_push(elements@, item);
            }
            elements.push(item);
            Ok(Value::Vector(Box::new(VectorValue { elements })))
        },
        Value::HashSet(set) => {
            let mut elements = copy_values(&set.elements);
            insert_element(&mut elements, item);
            Ok(Value::HashSet(Box::new(SetValue { elements })))
        },
        Value::HashMap(map) => {
            match &item {
                Value::Vector(pair) => {
                    proof {
                        lemma_values_model(pair.elements@);
                    }
                    if pair.elements.len() == 2 {
                        let key = pair.elements[0].copy();
                        let val = pair.elements[1].copy();
                        let mut entries = copy_entries(&map.entries);
                        insert_entry(&mut entries, key, val);
                        Ok(Value::HashMap(Box::new(MapValue { entries })))
                    } else {
                        Err(
                            String::from_str(
                                "Map conj expects [key value] vector or (key . value) pair",
                            ),
                        )
                    }
                },
                Value::Cons(pair) => {
                    let key = pair.car.copy();
                    let val = pair.cdr.copy();
                    let mut entries = copy_entries(&map.entries);
                    insert_entry(&mut entries, key, val);
                    Ok(Value::HashMap(Box::new(MapValue { entries })))
                },
                _ => Err(
                    String::from_str("Map conj expects [key value] vector or (key . value) pair"),
                ),
            }
        },
        _ => Err(message_with_value("Cannot conj onto ", coll)),
    }
}

// ============================================================================
// Reduced
// ============================================================================

/// Check if a value is a Reduced wrapper.
pub fn is_reduced(value: &Value) -> (r: bool)
    ensures
        r == (value@ is Reduced),
{
    match value {
        Value::Reduced(_) => true,
        _ => false,
    }
}

/// Wrap a value in Reduced for early termination.
pub fn reduced(value: Value) -> (r: Value)
    ensures
        r@ == ValueModel::Reduced(Box::new(value@)),
{
    Value::Reduced(Box::new(value))
}

/// Unwrap a Reduced value, or return the value unchanged if not reduced.
pub fn unreduced(value: &Value) -> (r: Value)
    ensures
        r@ == match value@ {
            ValueModel::Reduced(inner) => *inner,
            other => other,
        },
{
    match value {
        Value::Reduced(inner) => inner.copy(),
        _ => value.copy(),
    }
}

// ============================================================================
// Constructor helpers
// ============================================================================

/// The entries after setting each pair's key to its value, in order.
pub open spec fn map_from_pairs(ps: Seq<(ValueModel, ValueModel)>) -> Seq<(ValueModel, ValueModel)>
    decreases ps.len(),
{
    if ps.len() == 0 {
        Seq::empty()
    } else {
        map_insert(map_from_pairs(ps.drop_last()), ps.last().0, ps.last().1)
    }
}

/// The elements after adding each of `items`, in order.
pub open spec fn set_from(items: Seq<ValueModel>) -> Seq<ValueModel>
    decreases items.len(),
{
    if items.len() == 0 {
        Seq::empty()
    } else {
        set_insert(set_from(items.drop_last()), items.last())
    }
}

/// Create an empty map.
pub fn empty_map() -> (r: Value)
    ensures
        r@ == ValueModel::HashMap(Seq::empty()),
{
    let entries: Vec<(Value, Value)> = Vec::new();
    assert(entries_model(entries@) =~= Seq::<(ValueModel, ValueModel)>::empty());
    Value::HashMap(Box::new(MapValue { entries }))
}

/// Create a map from key-value pairs.
pub fn hash_map(pairs: Vec<(Value, Value)>) -> (r: Value)
    ensures
        r@ == ValueModel::HashMap(map_from_pairs(entries_model(pairs@))),
{
    let ghost pm = entries_model(pairs@);
    proof {
        lemma_entries_model(pairs@);
    }
    let mut entries: Vec<(Value, Value)> = Vec::new();
    assert(entries_model(entries@) =~= Seq::<(ValueModel, ValueModel)>::empty());
    assert(pm.take(0) =~= Seq::<(ValueModel, ValueModel)>::empty());
    let mut i: usize = 0;
    while i < pairs.len()
        invariant
            pm == entries_model(pairs@),
            pm.len() == pairs@.len(),
            forall|j: int|
                0 <= j < pairs@.len() ==> #[trigger] pm[j] == (
                    value_model(pairs@[j].0),
                    value_model(pairs@[j].1),
                ),
            i <= pairs.len(),
            entries_model(entries@) == map_from_pairs(pm.take(i as int)),
        decreases pairs.len() - i,
    {
        assert(pm.take(i + 1).drop_last() =~= pm.take(i as int));
        assert(pm.take(i + 1).last() == pm[i as int]);
        let k = pairs[i].0.copy();
        let v = pairs[i].1.copy();
        insert_entry(&mut entries, k, v);
        i = i + 1;
    }
    assert(pm.take(pairs.len() as int) =~= pm);
    Value::HashMap(Box::new(MapValue { entries }))
}

/// Create an empty set.
pub fn empty_set() -> (r: Value)
    ensures
        r@ == ValueModel::HashSet(Seq::empty()),
{
    let elements: Vec<Value> = Vec::new();
    assert(values_model(elements@) =~= Seq::<ValueModel>::empty());
    Value::HashSet(Box::new(SetValue { elements }))
}

/// Create a set from elements.
pub fn hash_set(elements: Vec<Value>) -> (r: Value)
    ensures
        r@ == ValueModel::HashSet(set_from(values_model(elements@))),
{
    let ghost im = values_model(elements@);
    proof {
        lemma_values_model(elements@);
    }
    let mut out: Vec<Value> = Vec::new();
    assert(values_model(out@) =~= Seq::<ValueModel>::empty());
    assert(im.take(0) =~= Seq::<ValueModel>::empty());
    let mut i: usize = 0;
    while i < elements.len()
        invariant
            im == values_model(elements@),
            im.len() == elements@.len(),
            forall|j: int| 0 <= j < elements@.len() ==> im[j] == value_model(#[trigger] elements@[j]),
            i <= elements.len(),
            values_model(out@) == set_from(im.take(i as int)),
        decreases elements.len() - i,
    {
        assert(im.take(i + 1).drop_last() =~= im.take(i as int));
        assert(im.take(i + 1).last() == im[i as int]);
        let x = elements[i].copy();
        insert_element(&mut out, x);
        i = i + 1;
    }
    assert(im.take(elements.len() as int) =~= im);
    Value::HashSet(Box::new(SetValue { elements: out }))
}

// ============================================================================
// Callable
// ============================================================================

/// Check if a value is callable (can be invoked as a function).
pub fn is_callable(value: &Value) -> (r: bool)
    ensures
        r == (value@ is HashMap || value@ is HashSet || value@ is Vector || value@ is Symbol),
{
    match value {
        Value::HashMap(_) | Value::HashSet(_) | Value::Vector(_) => true,
        Value::Atom(AtomType::Symbol(SymbolType::Symbol(_))) => true,
        _ => false,
    }
}

// ============================================================================
// Laws
// ============================================================================

/// No two entries have equal keys.
pub open spec fn distinct_keys(e: Seq<(ValueModel, ValueModel)>) -> bool {
    forall|i: int, j: int|
        0 <= i < j < e.len() ==> !same_value((#[trigger] e[i]).0, (#[trigger] e[j]).0)
}

/// No two elements are equal.
pub open spec fn distinct_items(items: Seq<ValueModel>) -> bool {
    forall|i: int, j: int| 0 <= i < j < items.len() ==> !same_value(#[trigger] items[i], #[trigger] items[j])
}

proof fn lemma_key_index_same_keys(
    e1: Seq<(ValueModel, ValueModel)>,
    e2: Seq<(ValueModel, ValueModel)>,
    k: ValueModel,
)
    requires
        e1.len() == e2.len(),
        forall|j: int| 0 <= j < e1.len() ==> (#[trigger] e1[j]).0 == e2[j].0,
    ensures
        key_index(e1, k) == key_index(e2, k),
    decreases e1.len(),
{
    if e1.len() > 0 {
        assert forall|j: int| 0 <= j < e1.drop_last().len() implies (
        #[trigger] e1.drop_last()[j]).0 == e2.drop_last()[j].0 by {
            assert(e1.drop_last()[j] == e1[j]);
            assert(e2.drop_last()[j] == e2[j]);
        }
        lemma_key_index_same_keys(e1.drop_last(), e2.drop_last(), k);
        assert(e1.last().0 == e2.last().0);
    }
}

/// What a read gives back of a write: after a key is set in a map, looking
/// up any key equal to it gives the value that was set, and looking up any
/// other key gives what it gave before.
pub proof fn law_get_after_assoc(
    e: Seq<(ValueModel, ValueModel)>,
    k: ValueModel,
    v: ValueModel,
    other: ValueModel,
    d: ValueModel,
)
    ensures
        spec_assoc(ValueModel::HashMap(e), k, v) == Ok::<ValueModel, Seq<char>>(
            ValueModel::HashMap(map_insert(e, k, v)),
        ),
        spec_get(ValueModel::HashMap(map_insert(e, k, v)), k, d) == v,
        same_value(other, k) ==> spec_get(ValueModel::HashMap(map_insert(e, k, v)), other, d)
            == v,
        !same_value(other, k) ==> spec_get(ValueModel::HashMap(map_insert(e, k, v)), other, d)
            == spec_get(ValueModel::HashMap(e), other, d),
{
    law_same_value_reflexive(k);
    lemma_get_after_insert(e, k, v, k, d);
    lemma_get_after_insert(e, k, v, other, d);
}

proof fn lemma_get_after_insert(
    e: Seq<(ValueModel, ValueModel)>,
    k: ValueModel,
    v: ValueModel,
    other: ValueModel,
    d: ValueModel,
)
    ensures
        same_value(other, k) ==> spec_get(ValueModel::HashMap(map_insert(e, k, v)), other, d)
            == v,
        !same_value(other, k) ==> spec_get(ValueModel::HashMap(map_insert(e, k, v)), other, d)
            == spec_get(ValueModel::HashMap(e), other, d),
{
    lemma_key_index(e, k);
    lemma_key_index(e, other);
    match key_index(e, k) {
        Some(i) => {
            let u = e.update(i, (e[i].0, v));
            assert forall|j: int| 0 <= j < e.len() implies (#[trigger] e[j]).0 == u[j].0 by {}
            lemma_key_index_same_keys(e, u, other);
            if same_value(other, k) {
                law_same_value_symmetric(other, k);
                law_same_value_transitive(e[i].0, k, other);
                if let Some(m) = key_index(e, other) {
                    if m < i {
                        law_same_value_transitive(e[m].0, other, k);
                    }
                }
            } else {
                if let Some(m) = key_index(e, other) {
                    if m == i {
                        law_same_value_symmetric(e[i].0, other);
                        law_same_value_transitive(other, e[i].0, k);
                    }
                }
            }
        },
        None => {
            let p = e.push((k, v));
            assert(p.drop_last() =~= e);
            if same_value(other, k) {
                law_same_value_symmetric(other, k);
                if let Some(m) = key_index(e, other) {
                    law_same_value_transitive(e[m].0, other, k);
                }
            } else {
                if same_value(k, other) {
                    law_same_value_symmetric(k, other);
                }
            }
        },
    }
}

/// Setting a key keeps the keys of a map distinct; the map grows by one
/// entry exactly when no key equal to the new one was there.
pub proof fn law_assoc_keeps_keys_distinct(
    e: Seq<(ValueModel, ValueModel)>,
    k: ValueModel,
    v: ValueModel,
)
    requires
        distinct_keys(e),
    ensures
        distinct_keys(map_insert(e, k, v)),
        map_insert(e, k, v).len() == e.len() + (if key_index(e, k) is Some {
            0int
        } else {
            1int
        }),
{
    lemma_key_index(e, k);
    let r = map_insert(e, k, v);
    assert forall|i: int, j: int| 0 <= i < j < r.len() implies !same_value(
        (#[trigger] r[i]).0,
        (#[trigger] r[j]).0,
    ) by {
        if key_index(e, k) is None && j == e.len() {
            assert(r[i] == e[i]);
        } else {
            assert(r[i].0 == e[i].0);
            assert(r[j].0 == e[j].0);
        }
    }
}

/// Adding an element keeps a set's elements distinct, and the set holds
/// an element equal to it afterwards.
pub proof fn law_conj_set_keeps_items_distinct(items: Seq<ValueModel>, x: ValueModel)
    requires
        distinct_items(items),
    ensures
        distinct_items(set_insert(items, x)),
        has_item(set_insert(items, x), x),
{
    if !has_item(items, x) {
        let r = items.push(x);
        assert(r[items.len() as int] == x);
        law_same_value_reflexive(x);
        assert(same_value(r[items.len() as int], x));
        assert forall|i: int, j: int| 0 <= i < j < r.len() implies !same_value(
            #[trigger] r[i],
            #[trigger] r[j],
        ) by {
            if j == items.len() {
                assert(r[i] == items[i]);
                if same_value(items[i], x) {
                    assert(has_item(items, x));
                }
            } else {
                assert(r[i] == items[i]);
                assert(r[j] == items[j]);
            }
        }
    }
}

/// The maps and sets that `hash_map` and `hash_set` build hold no two equal
/// keys and no two equal elements, and every element given is in the set.
pub proof fn law_constructors_keep_entries_distinct(
    ps: Seq<(ValueModel, ValueModel)>,
    items: Seq<ValueModel>,
)
    ensures
        distinct_keys(map_from_pairs(ps)),
        distinct_items(set_from(items)),
        forall|i: int| 0 <= i < items.len() ==> has_item(set_from(items), #[trigger] items[i]),
    decreases ps.len() + items.len(),
{
    if ps.len() > 0 {
        law_constructors_keep_entries_distinct(ps.drop_last(), items);
        law_assoc_keeps_keys_distinct(map_from_pairs(ps.drop_last()), ps.last().0, ps.last().1);
    }
    if items.len() > 0 {
        let rest = items.drop_last();
        law_constructors_keep_entries_distinct(Seq::empty(), rest);
        let before = set_from(rest);
        law_conj_set_keeps_items_distinct(before, items.last());
        assert forall|i: int| 0 <= i < items.len() implies has_item(
            set_from(items),
            #[trigger] items[i],
        ) by {
            if i < items.len() - 1 {
                assert(items[i] == rest[i]);
                assert(has_item(before, rest[i]));
                let j = choose|j: int| 0 <= j < before.len() && #[trigger] same_value(before[j], rest[i]);
                if !has_item(before, items.last()) {
                    assert(before.push(items.last())[j] == before[j]);
                    assert(same_value(set_from(items)[j], items[i]));
                }
            }
        }
    }
}

/// What `conj` puts on a list is what `first` takes off it, and the rest
/// is the list as it was.
pub proof fn law_first_of_conj_list(c: ValueModel, x: ValueModel)
    requires
        c is Nil || c is Cons,
    ensures
        spec_conj(c, x) matches Ok(r) && spec_first(r) == x && list_elements(r).drop_first()
            == list_elements(c),
{
    let r = ValueModel::Cons(Box::new(x), Box::new(c));
    assert(list_elements(r) =~= seq![x] + list_elements(c));
    assert(list_elements(r).drop_first() =~= list_elements(c));
}

/// Counting after `conj` onto a list or vector gives one more.
pub proof fn law_count_after_conj(c: ValueModel, x: ValueModel)
    requires
        c is Nil || c is Cons || c is Vector,
    ensures
        spec_conj(c, x) matches Ok(r) && spec_count(r) matches Some(n) && spec_count(c) matches Some(
            m,
        ) && n == m + 1,
{
    if !(c is Vector) {
        let r = ValueModel::Cons(Box::new(x), Box::new(c));
        assert(list_elements(r) =~= seq![x] + list_elements(c));
        if c is Nil {
            assert(list_elements(c) =~= Seq::<ValueModel>::empty());
        }
    }
}

/// Walking a proper list yields its elements, and the list they make is
/// the list walked.
pub proof fn law_walk_of_list_rebuilds_it(v: ValueModel)
    requires
        v is Cons,
        is_proper_list(v),
    ensures
        spec_seq(v) == Some(list_elements(v)),
        list_model(list_elements(v)) == v,
    decreases v,
{
    if let ValueModel::Cons(a, d) = v {
        assert(is_proper_list(*d));
        if *d is Cons {
            law_walk_of_list_rebuilds_it(*d);
        } else {
            assert(*d is Nil);
            assert(list_elements(*d) =~= Seq::<ValueModel>::empty());
            assert(list_model(Seq::<ValueModel>::empty()) == ValueModel::Nil);
        }
        let es = list_elements(v);
        assert(es =~= seq![*a] + list_elements(*d));
        assert(es.drop_first() =~= list_elements(*d));
        assert(list_model(es) == ValueModel::Cons(Box::new(es[0]), Box::new(list_model(es.drop_first()))));
        assert(list_model(list_elements(*d)) == *d);
    }
}

/// On a proper list, `first` is the `car` and `next` is the `cdr`.
pub proof fn law_first_and_next_of_list(a: ValueModel, d: ValueModel)
    requires
        is_proper_list(d),
    ensures
        spec_first(ValueModel::Cons(Box::new(a), Box::new(d))) == a,
        spec_next(ValueModel::Cons(Box::new(a), Box::new(d))) == d,
{
    let v = ValueModel::Cons(Box::new(a), Box::new(d));
    assert(list_elements(v) =~= seq![a] + list_elements(d));
    assert(list_elements(v).drop_first() =~= list_elements(d));
    if d is Cons {
        law_walk_of_list_rebuilds_it(d);
    } else {
        assert(list_elements(d) =~= Seq::<ValueModel>::empty());
    }
}

/// Every value that can be walked is counted, and its count is the number
/// of elements the walk yields: for a string, its characters.
pub proof fn law_count_agrees_with_walk(v: ValueModel)
    requires
        spec_seq(v) is Some,
    ensures
        spec_count(v) == Some(spec_seq(v)->Some_0.len()),
{
}

/// On a vector, a list or a string, the positions below the count are
/// exactly those that `nth` finds an element at: below it the result does
/// not depend on the default, from it on the default is returned.
pub proof fn law_nth_within_count(v: ValueModel, i: int, d1: ValueModel, d2: ValueModel)
    requires
        v is Vector || v is Cons || v is Str,
    ensures
        spec_count(v) is Some,
        0 <= i < spec_count(v)->Some_0 ==> spec_nth(v, i, d1) == spec_nth(v, i, d2),
        !(0 <= i < spec_count(v)->Some_0) ==> spec_nth(v, i, d1) == d1,
{
}

/// A string of `n` characters is a collection of `n` one-character
/// strings: counted as `n`, walked as its characters in order, and indexed
/// by `nth` and `get` at each of them.
pub proof fn law_string_is_a_collection_of_its_characters(s: Seq<char>, i: int, d: ValueModel)
    requires
        0 <= i < s.len(),
    ensures
        spec_count(ValueModel::Str(s)) == Some(s.len()),
        spec_seq(ValueModel::Str(s)) matches Some(xs) && xs.len() == s.len() && xs[i] == ValueModel::Str(seq![s[i]]),
        spec_nth(ValueModel::Str(s), i, d) == ValueModel::Str(seq![s[i]]),
{
}

/// On a vector or a string, `get` with a non-negative integer key (that
/// fits the machine's `usize`) finds what `nth` finds at that position.
pub proof fn law_get_agrees_with_nth(v: ValueModel, i: i64, d: ValueModel)
    requires
        v is Vector || v is Str,
        0 <= i <= usize::MAX,
    ensures
        spec_get(v, ValueModel::Number(NumberModel::Int(i)), d) == spec_nth(v, i as int, d),
{
}

} // verus!
