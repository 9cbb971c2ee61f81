use consair::abstractions;
use consair::abstractions::{
    assoc, conj, count, empty_map, empty_set, first, get, hash_map, hash_set, is_callable,
    is_reduced, next, nth, reduced, rest, unreduced,
};
use consair::language::{cons, AtomType, StringType, SymbolType, Value, VectorValue};
use consair::numeric::NumericType;
use consair::parser::parse;

fn make_symbol(s: &str) -> Value {
    Value::Atom(AtomType::Symbol(SymbolType::Symbol(s.to_string())))
}

fn make_int(n: i64) -> Value {
    Value::Atom(AtomType::Number(NumericType::Int(n)))
}

fn make_string(s: &str) -> Value {
    Value::Atom(AtomType::String(StringType::Basic(s.to_string())))
}

fn vector(elements: Vec<Value>) -> Value {
    Value::Vector(Box::new(VectorValue { elements }))
}

#[test]
fn test_seq_list() {
    let list = cons(make_int(1), cons(make_int(2), cons(make_int(3), Value::Nil)));
    let s = abstractions::seq(&list).unwrap();
    assert_eq!(s.first(), make_int(1));
    let s2 = s.next().unwrap();
    assert_eq!(s2.first(), make_int(2));
    let s3 = s2.next().unwrap();
    assert_eq!(s3.first(), make_int(3));
    assert!(s3.next().is_none());
}

#[test]
fn test_seq_vector() {
    let vec = vector(vec![make_int(1), make_int(2), make_int(3)]);
    let s = abstractions::seq(&vec).unwrap();
    assert_eq!(s.first(), make_int(1));
    let s2 = s.next().unwrap();
    assert_eq!(s2.first(), make_int(2));
}

#[test]
fn test_count() {
    let list = cons(make_int(1), cons(make_int(2), Value::Nil));
    assert_eq!(count(&list), Some(2));

    let vec = vector(vec![make_int(1), make_int(2), make_int(3)]);
    assert_eq!(count(&vec), Some(3));

    assert_eq!(count(&Value::Nil), Some(0));
}

#[test]
fn test_nth() {
    let vec = vector(vec![make_int(10), make_int(20), make_int(30)]);
    assert_eq!(nth(&vec, 0, None), make_int(10));
    assert_eq!(nth(&vec, 1, None), make_int(20));
    assert_eq!(nth(&vec, 2, None), make_int(30));
    assert_eq!(nth(&vec, 3, None), Value::Nil);
}

#[test]
fn test_get_map() {
    let map = hash_map(vec![(make_symbol("a"), make_int(1)), (make_symbol("b"), make_int(2))]);
    assert_eq!(get(&map, &make_symbol("a"), None), make_int(1));
    assert_eq!(get(&map, &make_symbol("b"), None), make_int(2));
    assert_eq!(get(&map, &make_symbol("c"), None), Value::Nil);
}

#[test]
fn test_get_vector() {
    let vec = vector(vec![make_int(10), make_int(20)]);
    assert_eq!(get(&vec, &make_int(0), None), make_int(10));
    assert_eq!(get(&vec, &make_int(1), None), make_int(20));
}

#[test]
fn test_assoc_map() {
    let map = empty_map();
    let map2 = assoc(&map, make_symbol("a"), make_int(1)).unwrap();
    assert_eq!(get(&map2, &make_symbol("a"), None), make_int(1));
}

#[test]
fn test_assoc_vector() {
    let vec = vector(vec![make_int(1), make_int(2)]);
    let vec2 = assoc(&vec, make_int(0), make_int(10)).unwrap();
    assert_eq!(nth(&vec2, 0, None), make_int(10));
    assert_eq!(nth(&vec2, 1, None), make_int(2));
}

#[test]
fn test_conj_list() {
    let list = cons(make_int(2), cons(make_int(3), Value::Nil));
    let list2 = conj(&list, make_int(1)).unwrap();
    // List conj adds at front
    assert_eq!(first(&list2), make_int(1));
}

#[test]
fn test_conj_vector() {
    let vec = vector(vec![make_int(1), make_int(2)]);
    let vec2 = conj(&vec, make_int(3)).unwrap();
    // Vector conj adds at end
    assert_eq!(nth(&vec2, 2, None), make_int(3));
}

#[test]
fn test_conj_set() {
    let set = empty_set();
    let set2 = conj(&set, make_int(1)).unwrap();
    let set3 = conj(&set2, make_int(2)).unwrap();
    assert_eq!(count(&set3), Some(2));
}

#[test]
fn test_reduced() {
    let val = make_int(42);
    let r = reduced(val.copy());
    assert!(is_reduced(&r));
    assert!(!is_reduced(&val));
    assert_eq!(unreduced(&r), val);
}

#[test]
fn test_seq_string() {
    let s = make_string("abc");
    let seq_s = abstractions::seq(&s).unwrap();
    assert_eq!(seq_s.first(), make_string("a"));
    let seq_s2 = seq_s.next().unwrap();
    assert_eq!(seq_s2.first(), make_string("b"));
}

#[test]
fn test_first_next() {
    let list = cons(make_int(1), cons(make_int(2), cons(make_int(3), Value::Nil)));
    assert_eq!(first(&list), make_int(1));
    let rest_list = next(&list);
    assert_eq!(first(&rest_list), make_int(2));
}

// ---------------------------------------------------------------------------
// More cases
// ---------------------------------------------------------------------------

#[test]
fn seq_of_empty_things_is_none() {
    assert!(abstractions::seq(&Value::Nil).is_none());
    assert!(abstractions::seq(&vector(vec![])).is_none());
    assert!(abstractions::seq(&make_string("")).is_none());
    assert!(abstractions::seq(&empty_map()).is_none());
    assert!(abstractions::seq(&empty_set()).is_none());
    assert!(abstractions::seq(&make_int(3)).is_none());
    assert_eq!(first(&make_int(3)), Value::Nil);
    assert_eq!(next(&Value::Nil), Value::Nil);
}

#[test]
fn walks_convert_to_lists() {
    let v = vector(vec![make_int(1), make_int(2), make_int(3)]);
    assert_eq!(abstractions::seq(&v).unwrap().to_list().to_string(), "(1 2 3)");
    assert_eq!(next(&v).to_string(), "(2 3)");
    assert_eq!(rest(&v).to_string(), "(2 3)");
    assert_eq!(next(&vector(vec![make_int(1)])), Value::Nil);
    assert_eq!(next(&make_string("hey")).to_string(), "(\"e\" \"y\")");
    // An improper tail is not walked.
    let improper = cons(make_int(1), cons(make_int(2), make_int(3)));
    assert_eq!(abstractions::seq(&improper).unwrap().to_list().to_string(), "(1 2)");
    assert_eq!(count(&improper), Some(2));
}

#[test]
fn maps_walk_as_pairs_in_insertion_order() {
    let map = hash_map(vec![(make_symbol("a"), make_int(1)), (make_symbol("b"), make_int(2))]);
    assert_eq!(first(&map).to_string(), "<<a 1>>");
    assert_eq!(next(&map).to_string(), "(<<b 2>>)");
    assert_eq!(map.to_string(), "{a 1, b 2}");
    assert_eq!(count(&map), Some(2));
}

#[test]
fn hash_map_keeps_the_last_value_of_a_key() {
    let map = hash_map(vec![
        (make_symbol("a"), make_int(1)),
        (make_symbol("b"), make_int(2)),
        (make_symbol("a"), make_int(3)),
    ]);
    assert_eq!(count(&map), Some(2));
    assert_eq!(get(&map, &make_symbol("a"), None), make_int(3));
    assert_eq!(map.to_string(), "{a 3, b 2}");
}

#[test]
fn sets_drop_duplicates() {
    let set = hash_set(vec![make_int(1), make_int(2), make_int(1)]);
    assert_eq!(count(&set), Some(2));
    assert_eq!(set.to_string(), "#{1 2}");
    assert_eq!(get(&set, &make_int(2), None), make_int(2));
    assert_eq!(get(&set, &make_int(5), Some(&make_symbol("none"))), make_symbol("none"));
    let set2 = conj(&set, make_int(2)).unwrap();
    assert_eq!(count(&set2), Some(2));
}

#[test]
fn lookups_with_defaults() {
    let dflt = make_symbol("d");
    let vec = vector(vec![make_int(10), make_int(20)]);
    assert_eq!(get(&vec, &make_int(-1), Some(&dflt)), dflt);
    assert_eq!(get(&vec, &make_int(2), Some(&dflt)), dflt);
    assert_eq!(get(&vec, &make_symbol("x"), None), Value::Nil);
    assert_eq!(get(&make_string("abc"), &make_int(1), None), make_string("b"));
    assert_eq!(get(&make_int(1), &make_int(0), Some(&dflt)), dflt);
    let list = parse("(a b c)").unwrap();
    assert_eq!(nth(&list, 2, None), make_symbol("c"));
    assert_eq!(nth(&list, 3, Some(&dflt)), dflt);
    assert_eq!(nth(&make_string("xyz"), 0, None), make_string("x"));
    assert_eq!(nth(&make_int(1), 0, Some(&dflt)), dflt);
}

#[test]
fn assoc_cases() {
    let vec = vector(vec![make_int(1), make_int(2)]);
    assert_eq!(assoc(&vec, make_int(2), make_int(3)).unwrap().to_string(), "<<1 2 3>>");
    assert_eq!(
        assoc(&vec, make_int(3), make_int(3)).map(|v| v.to_string()),
        Err("Index 3 out of bounds for vector of length 2".to_string())
    );
    assert_eq!(
        assoc(&vec, make_symbol("k"), make_int(3)).map(|v| v.to_string()),
        Err("Vector assoc requires integer key".to_string())
    );
    assert_eq!(
        assoc(&vec, make_int(-1), make_int(3)).map(|v| v.to_string()),
        Err(format!("Index {} out of bounds for vector of length 2", -1i64 as usize))
    );
    assert_eq!(assoc(&Value::Nil, make_symbol("k"), make_int(1)).unwrap().to_string(), "{k 1}");
    assert_eq!(
        assoc(&make_int(1), make_symbol("k"), make_int(1)).map(|v| v.to_string()),
        Err("Cannot assoc on 1".to_string())
    );
    // Setting an existing key keeps its place.
    let map = hash_map(vec![(make_symbol("a"), make_int(1)), (make_symbol("b"), make_int(2))]);
    let map2 = assoc(&map, make_symbol("a"), make_int(9)).unwrap();
    assert_eq!(map2.to_string(), "{a 9, b 2}");
    assert_eq!(get(&map2, &make_symbol("b"), None), make_int(2));
}

#[test]
fn conj_cases() {
    assert_eq!(conj(&Value::Nil, make_int(1)).unwrap().to_string(), "(1)");
    let map = empty_map();
    let pair = vector(vec![make_symbol("k"), make_int(1)]);
    assert_eq!(conj(&map, pair).unwrap().to_string(), "{k 1}");
    let dotted = cons(make_symbol("j"), make_int(2));
    assert_eq!(conj(&map, dotted).unwrap().to_string(), "{j 2}");
    assert_eq!(
        conj(&map, vector(vec![make_int(1)])).map(|v| v.to_string()),
        Err("Map conj expects [key value] vector or (key . value) pair".to_string())
    );
    assert_eq!(
        conj(&map, make_int(1)).map(|v| v.to_string()),
        Err("Map conj expects [key value] vector or (key . value) pair".to_string())
    );
    assert_eq!(
        conj(&make_string("s"), make_int(1)).map(|v| v.to_string()),
        Err("Cannot conj onto \"s\"".to_string())
    );
}

#[test]
fn callables_and_reduced_display() {
    assert!(is_callable(&empty_map()));
    assert!(is_callable(&empty_set()));
    assert!(is_callable(&vector(vec![])));
    assert!(is_callable(&make_symbol("f")));
    assert!(!is_callable(&make_int(1)));
    assert!(!is_callable(&Value::Nil));
    assert_eq!(reduced(make_int(3)).to_string(), "#reduced(3)");
    assert_eq!(unreduced(&make_int(4)), make_int(4));
}

#[test]
fn counting_after_conj_gives_one_more() {
    let list = parse("(a b)").unwrap();
    let longer = conj(&list, make_int(0)).unwrap();
    assert_eq!(count(&longer), Some(3));
    let vec = vector(vec![make_int(1)]);
    assert_eq!(count(&conj(&vec, make_int(2)).unwrap()), Some(2));
    assert_eq!(count(&conj(&Value::Nil, make_int(2)).unwrap()), Some(1));
}

#[test]
fn keys_that_are_collections_are_found_whatever_their_order() {
    let k1 = hash_set(vec![make_int(1), make_int(2)]);
    let k2 = hash_set(vec![make_int(2), make_int(1)]);
    let map = assoc(&empty_map(), k1, make_symbol("x")).unwrap();
    assert_eq!(get(&map, &k2, None), make_symbol("x"));
    // Setting the key again through an equal key keeps one entry.
    let map2 = assoc(&map, k2, make_symbol("y")).unwrap();
    assert_eq!(count(&map2), Some(1));
    assert_eq!(get(&map2, &hash_set(vec![make_int(1), make_int(2)]), None), make_symbol("y"));
    // The entry keeps the key it was first given.
    assert_eq!(map2.to_string(), "{#{1 2} y}");
    let set = hash_set(vec![
        hash_map(vec![(make_int(1), make_int(2)), (make_int(3), make_int(4))]),
        hash_map(vec![(make_int(3), make_int(4)), (make_int(1), make_int(2))]),
    ]);
    assert_eq!(count(&set), Some(1));
}
