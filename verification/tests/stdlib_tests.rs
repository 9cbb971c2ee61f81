use consair::abstractions::{hash_map, hash_set};
use consair::analysis::find_free_variables;
use consair::jit::is_pure_expression;
use consair::language::{value_equal, Value};
use consair::native::{make_int, make_string, make_symbol};
use consair::parser::parse;
use consair::stdlib::{
    atom, car, cdr, cons_fn, eq, gensym, now_args, print_text, shell_command, shell_result,
    slurp_path, spit_args, value_to_display_string, vector,
};

fn read(s: &str) -> Value {
    parse(s).unwrap()
}

#[test]
fn display_strings_print_without_quotes() {
    assert_eq!(value_to_display_string(&make_string("hi \"x\"")), "hi \"x\"");
    assert_eq!(value_to_display_string(&read("(a \"b\")")), "(a \"b\")");
    assert_eq!(print_text(&[make_string("hello"), make_string("world")], true), "hello world\n");
    assert_eq!(print_text(&[make_int(1), read("(2 3)")], false), "1 (2 3)");
    assert_eq!(print_text(&[], true), "\n");
    assert_eq!(print_text(&[], false), "");
}

#[test]
fn argument_checks_for_outside_work() {
    assert_eq!(slurp_path(&[make_string("/tmp/x")]), Ok("/tmp/x".to_string()));
    assert_eq!(slurp_path(&[]), Err("slurp: expected 1 argument (path)".to_string()));
    assert_eq!(slurp_path(&[make_int(1)]), Err("Expected string, got 1".to_string()));
    assert_eq!(
        spit_args(&[make_string("p"), make_string("c")]),
        Ok(("p".to_string(), "c".to_string()))
    );
    assert_eq!(
        spit_args(&[make_string("p")]),
        Err("spit: expected 2 arguments (path, content)".to_string())
    );
    assert_eq!(
        spit_args(&[make_string("p"), make_symbol("c")]),
        Err("Expected string, got c".to_string())
    );
    assert_eq!(
        spit_args(&[make_int(1), make_symbol("c")]),
        Err("Expected string, got 1".to_string())
    );
    assert_eq!(shell_command(&[make_string("echo hi")]), Ok("echo hi".to_string()));
    assert_eq!(
        shell_command(&[make_string("a"), make_string("b")]),
        Err("shell: expected 1 argument (command)".to_string())
    );
    assert_eq!(now_args(&[]), Ok(()));
    assert_eq!(now_args(&[make_int(1)]), Err("now: expected 0 arguments".to_string()));
}

#[test]
fn shell_results() {
    let r = shell_result("hello\n", "", 0, true);
    assert_eq!(r.to_string(), "((:out . \"hello\\n\") (:err . \"\") (:exit . 0) (:success . t))");
    let r = shell_result("", "boom", 2, false);
    assert_eq!(r.to_string(), "((:out . \"\") (:err . \"boom\") (:exit . 2) (:success . nil))");
}

#[test]
fn gensym_symbols() {
    assert_eq!(gensym(&[], 0).unwrap().to_string(), "g__0");
    assert_eq!(gensym(&[make_string("tmp")], 17).unwrap().to_string(), "tmp__17");
    assert_eq!(gensym(&[make_int(1)], 3), Err("Expected string, got 1".to_string()));
    assert_eq!(
        gensym(&[make_string("a"), make_string("b")], 3),
        Err("gensym: expected 0 or 1 arguments".to_string())
    );
}

#[test]
fn list_natives() {
    assert_eq!(atom(&[make_symbol("x")]), Ok(Value::Atom(consair::language::AtomType::Bool(true))));
    assert_eq!(atom(&[read("(1 2)")]).unwrap().to_string(), "nil");
    assert_eq!(atom(&[]), Err("atom: expected 1 argument".to_string()));
    assert_eq!(eq(&[make_symbol("a"), make_symbol("a")]).unwrap().to_string(), "t");
    assert_eq!(eq(&[read("(a)"), read("(a)")]).unwrap().to_string(), "nil");
    assert_eq!(eq(&[make_symbol("a")]), Err("eq: expected 2 arguments".to_string()));
    assert_eq!(car(&[read("(1 2 3)")]), Ok(make_int(1)));
    assert_eq!(cdr(&[read("(1 2 3)")]).unwrap().to_string(), "(2 3)");
    assert_eq!(car(&[make_int(1)]), Err("car: expected cons cell, got 1".to_string()));
    assert_eq!(cdr(&[]), Err("cdr: expected 1 argument".to_string()));
    assert_eq!(cons_fn(&[make_int(1), make_int(2)]).unwrap().to_string(), "(1 . 2)");
    assert_eq!(cons_fn(&[make_int(1)]), Err("cons: expected 2 arguments".to_string()));
    assert_eq!(vector(&[make_int(1), make_string("a")]).unwrap().to_string(), "<<1 \"a\">>");
    assert_eq!(vector(&[]).unwrap().to_string(), "<<>>");
}

#[test]
fn structural_equality() {
    assert!(value_equal(&read("(a <<1 2>> \"s\")"), &read("(a <<1 2>> \"s\")")));
    assert!(!value_equal(&read("(a <<1 2>>)"), &read("(a <<1 3>>)")));
    assert!(!value_equal(&read("(a)"), &read("<<a>>")));
    let m1 = hash_map(vec![(make_symbol("a"), make_int(1))]);
    let m2 = hash_map(vec![(make_symbol("a"), make_int(1))]);
    let m3 = hash_map(vec![(make_symbol("a"), make_int(2))]);
    assert!(value_equal(&m1, &m2));
    assert!(!value_equal(&m1, &m3));
    let s1 = hash_set(vec![make_int(1), make_int(2)]);
    let s2 = hash_set(vec![make_int(1), make_int(2)]);
    assert!(value_equal(&s1, &s2));
    assert!(!value_equal(&s1, &m1));
}

#[test]
fn maps_and_sets_compare_whatever_their_order() {
    let m1 = hash_map(vec![(make_symbol("a"), make_int(1)), (make_symbol("b"), make_int(2))]);
    let m2 = hash_map(vec![(make_symbol("b"), make_int(2)), (make_symbol("a"), make_int(1))]);
    let m3 = hash_map(vec![(make_symbol("b"), make_int(1)), (make_symbol("a"), make_int(2))]);
    let m4 = hash_map(vec![(make_symbol("a"), make_int(1))]);
    assert!(value_equal(&m1, &m2));
    assert!(value_equal(&m2, &m1));
    assert!(!value_equal(&m1, &m3));
    assert!(!value_equal(&m1, &m4));
    assert!(!value_equal(&m4, &m1));
    let s1 = hash_set(vec![make_int(1), make_int(2), make_int(3)]);
    let s2 = hash_set(vec![make_int(3), make_int(1), make_int(2)]);
    let s3 = hash_set(vec![make_int(3), make_int(1), make_int(4)]);
    assert!(value_equal(&s1, &s2));
    assert!(!value_equal(&s1, &s3));
    // Inside lists and vectors the order of a nested collection does not count either.
    let l1 = Value::Cons(Box::new(consair::language::ConsCell { car: m1, cdr: Value::Nil }));
    let l2 = Value::Cons(Box::new(consair::language::ConsCell { car: m2, cdr: Value::Nil }));
    assert!(value_equal(&l1, &l2));
    // Vectors and lists stay ordered.
    assert!(!value_equal(&read("<<1 2>>"), &read("<<2 1>>")));
    assert!(!value_equal(&read("(1 2)"), &read("(2 1)")));
}

#[test]
fn maps_and_sets_in_analysis() {
    let pure_map = hash_map(vec![(make_int(1), read("(+ 1 2)"))]);
    assert!(is_pure_expression(&pure_map));
    let impure_map = hash_map(vec![(make_int(1), make_symbol("x"))]);
    assert!(!is_pure_expression(&impure_map));
    assert!(is_pure_expression(&hash_set(vec![make_int(1), make_string("a")])));
    assert!(!is_pure_expression(&hash_set(vec![make_symbol("y")])));
    assert!(is_pure_expression(&consair::abstractions::reduced(make_int(1))));

    let m = hash_map(vec![(make_symbol("k"), read("(f v)"))]);
    let mut free = find_free_variables(&m, &vec![]);
    free.sort();
    assert_eq!(free, vec!["f".to_string(), "k".to_string(), "v".to_string()]);
    let s = hash_set(vec![make_symbol("p"), make_int(3)]);
    assert_eq!(find_free_variables(&s, &vec!["p".to_string()]), Vec::<String>::new());
}

#[test]
fn gensym_state_counts_successful_calls() {
    let mut st = consair::stdlib::GensymState::new();
    let a = consair::stdlib::gensym_next(&[], &mut st).unwrap();
    assert_eq!(st.next, 1);
    let b = consair::stdlib::gensym_next(&[make_string("tmp")], &mut st).unwrap();
    assert_eq!(st.next, 2);
    assert_eq!(a.to_string(), "g__0");
    assert_eq!(b.to_string(), "tmp__1");
    assert!(consair::stdlib::gensym_next(&[make_int(3)], &mut st).is_err());
    assert_eq!(st.next, 2);
    assert!(consair::stdlib::gensym_next(&[make_string("a"), make_string("b")], &mut st).is_err());
    assert_eq!(st.next, 2);
    let c = consair::stdlib::gensym_next(&[], &mut st).unwrap();
    assert_ne!(a, c);
}
