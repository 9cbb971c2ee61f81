use consair::language::{cons, Value};
use consair::native::{
    alist_to_vec, check_arity_exact, check_arity_min, check_arity_range, extract_bool,
    extract_int, extract_int_list, extract_string, extract_string_list, extract_symbol,
    is_falsy, is_truthy, list_to_vec, make_bool, make_int, make_string, make_symbol,
    vec_to_alist, vec_to_list,
};
use consair::parser::parse;

fn read(s: &str) -> Value {
    parse(s).unwrap()
}

fn shown(v: &[Value]) -> Vec<String> {
    v.iter().map(|x| x.to_string()).collect()
}

#[test]
fn extracts_atoms() {
    assert_eq!(extract_string(&read("\"hi\"")), Ok("hi".to_string()));
    assert_eq!(extract_string(&read("42")), Err("Expected string, got 42".to_string()));
    assert_eq!(extract_int(&read("-5")), Ok(-5));
    assert_eq!(extract_int(&read("1/2")), Err("Expected integer, got 1/2".to_string()));
    assert_eq!(extract_bool(&read("t")), Ok(true));
    assert_eq!(extract_bool(&read("nil")), Ok(false));
    assert_eq!(extract_bool(&make_bool(false)), Ok(false));
    assert_eq!(extract_bool(&read("0")), Err("Expected boolean, got 0".to_string()));
    assert_eq!(extract_symbol(&read("foo")), Ok("foo".to_string()));
    assert_eq!(
        extract_symbol(&read("(a b)")),
        Err("Expected symbol, got (a b)".to_string())
    );
}

#[test]
fn lists_to_vectors_and_back() {
    let items = list_to_vec(&read("(1 (2) x)")).unwrap();
    assert_eq!(shown(&items), vec!["1", "(2)", "x"]);
    assert_eq!(vec_to_list(items).to_string(), "(1 (2) x)");
    assert_eq!(list_to_vec(&Value::Nil).unwrap().len(), 0);
    assert_eq!(vec_to_list(vec![]), Value::Nil);
    let improper = cons(make_int(1), make_int(2));
    assert_eq!(
        list_to_vec(&improper),
        Err("Expected proper list (ending in nil)".to_string())
    );
    assert_eq!(
        list_to_vec(&make_int(3)),
        Err("Expected proper list (ending in nil)".to_string())
    );
}

#[test]
fn list_roundtrip_keeps_values() {
    let v = vec![make_string("a"), make_symbol("b"), read("<<1 2>>"), Value::Nil];
    let copy: Vec<Value> = v.iter().map(|x| x.copy()).collect();
    assert_eq!(list_to_vec(&vec_to_list(v)), Ok(copy));
}

#[test]
fn extracts_lists() {
    assert_eq!(
        extract_string_list(&read("(\"a\" \"b\")")),
        Ok(vec!["a".to_string(), "b".to_string()])
    );
    assert_eq!(
        extract_string_list(&read("(\"a\" 2 x)")),
        Err("Expected string, got 2".to_string())
    );
    assert_eq!(extract_int_list(&read("(1 2 3)")), Ok(vec![1, 2, 3]));
    assert_eq!(extract_int_list(&read("()")), Ok(vec![]));
    assert_eq!(
        extract_int_list(&read("(1 \"two\" x)")),
        Err("Expected integer, got \"two\"".to_string())
    );
    assert_eq!(
        extract_int_list(&read("x")),
        Err("Expected proper list (ending in nil)".to_string())
    );
}

#[test]
fn association_lists() {
    let pairs = vec![(make_symbol("a"), make_int(1)), (make_symbol("b"), make_string("x"))];
    let alist = vec_to_alist(pairs);
    assert_eq!(alist.to_string(), "((a . 1) (b . \"x\"))");
    let back = alist_to_vec(&alist).unwrap();
    assert_eq!(back.len(), 2);
    assert_eq!(back[0], (make_symbol("a"), make_int(1)));
    assert_eq!(back[1], (make_symbol("b"), make_string("x")));
    assert_eq!(vec_to_alist(vec![]), Value::Nil);
}

#[test]
fn association_list_errors() {
    let pair = || cons(make_symbol("a"), make_int(1));
    let with_atom = cons(pair(), cons(make_symbol("b"), Value::Nil));
    assert_eq!(
        alist_to_vec(&with_atom).map(|v| v.len()),
        Err("alist element must be a cons cell".to_string())
    );
    let tail = cons(pair(), make_int(5));
    assert_eq!(
        alist_to_vec(&tail).map(|v| v.len()),
        Err("Expected proper list (ending in nil)".to_string())
    );
    // The first problem in reading order is reported.
    let bad_then_improper = cons(make_int(1), make_int(5));
    assert_eq!(
        alist_to_vec(&bad_then_improper).map(|v| v.len()),
        Err("alist element must be a cons cell".to_string())
    );
}

#[test]
fn arity_checks() {
    let two = [make_int(1), make_int(2)];
    assert_eq!(check_arity_exact("f", &two, 2), Ok(()));
    assert_eq!(
        check_arity_exact("f", &two, 1),
        Err("f: expected 1 argument, got 2".to_string())
    );
    assert_eq!(
        check_arity_exact("g", &[], 3),
        Err("g: expected 3 arguments, got 0".to_string())
    );
    assert_eq!(check_arity_min("h", &two, 2), Ok(()));
    assert_eq!(
        check_arity_min("h", &two, 3),
        Err("h: expected at least 3 arguments, got 2".to_string())
    );
    assert_eq!(
        check_arity_min("h", &[], 1),
        Err("h: expected at least 1 argument, got 0".to_string())
    );
    assert_eq!(check_arity_range("k", &two, 1, 3), Ok(()));
    assert_eq!(
        check_arity_range("k", &two, 3, 4),
        Err("k: expected 3-4 arguments, got 2".to_string())
    );
    assert_eq!(
        check_arity_range("k", &two, 0, 1),
        Err("k: expected 0-1 arguments, got 2".to_string())
    );
}

#[test]
fn constructors_and_truthiness() {
    assert_eq!(make_int(7).to_string(), "7");
    assert_eq!(make_string("a\"b").to_string(), "\"a\\\"b\"");
    assert_eq!(make_symbol("nil").to_string(), "nil");
    assert_ne!(make_symbol("nil"), Value::Nil);
    assert!(is_truthy(&make_int(0)));
    assert!(is_truthy(&make_bool(true)));
    assert!(is_truthy(&read("(a)")));
    assert!(!is_truthy(&Value::Nil));
    assert!(!is_truthy(&make_bool(false)));
    assert!(is_falsy(&Value::Nil));
    assert!(!is_falsy(&make_string("")));
}
