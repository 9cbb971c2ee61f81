use consair::analysis::{collect_list, find_free_variables, is_builtin};
use consair::parser::parse;

fn free(src: &str, bound: &[&str]) -> Vec<String> {
    let expr = parse(src).unwrap();
    let bound: Vec<String> = bound.iter().map(|s| s.to_string()).collect();
    let mut r = find_free_variables(&expr, &bound);
    let n = r.len();
    r.sort();
    r.dedup();
    assert_eq!(r.len(), n, "a name was reported twice");
    r
}

fn names(v: &[&str]) -> Vec<String> {
    v.iter().map(|s| s.to_string()).collect()
}

#[test]
fn builtins() {
    for name in ["quote", "lambda", "label", "cond", "cons", "car", "cdr", "+", "-", "*", "/", "=", "<", ">", "<=", ">=", "eq", "atom", "nil?", "number?", "cons?", "not", "t", "nil"] {
        assert!(is_builtin(name), "{name}");
    }
    assert!(!is_builtin("foo"));
    assert!(!is_builtin("vector"));
    assert!(!is_builtin(""));
}

#[test]
fn collects_list_elements() {
    let items = collect_list(&parse("(a (b) 3)").unwrap());
    let shown: Vec<String> = items.iter().map(|v| v.to_string()).collect();
    assert_eq!(shown, vec!["a", "(b)", "3"]);
    assert!(collect_list(&parse("x").unwrap()).is_empty());
    assert!(collect_list(&parse("()").unwrap()).is_empty());
}

#[test]
fn free_variables_of_calls() {
    assert_eq!(free("(+ x y)", &[]), names(&["x", "y"]));
    assert_eq!(free("(+ x y)", &["x"]), names(&["y"]));
    assert_eq!(free("(f x x)", &[]), names(&["f", "x"]));
    assert_eq!(free("42", &[]), names(&[]));
    assert_eq!(free("z", &[]), names(&["z"]));
}

#[test]
fn free_variables_under_binders() {
    assert_eq!(free("(lambda (x) (+ x y))", &[]), names(&["y"]));
    assert_eq!(free("(label f (lambda (n) (f n z)))", &[]), names(&["z"]));
    assert_eq!(free("((lambda (x) x) w)", &[]), names(&["w"]));
    // A lambda without a body binds nothing and uses nothing.
    assert_eq!(free("(lambda (x))", &[]), names(&[]));
}

#[test]
fn free_variables_of_special_forms() {
    assert_eq!(free("(quote (a b))", &[]), names(&[]));
    assert_eq!(free("'(a b)", &[]), names(&[]));
    assert_eq!(free("(cond ((= x 1) y) (t z))", &[]), names(&["x", "y", "z"]));
    assert_eq!(free("<<a b 1>>", &[]), names(&["a", "b"]));
}
