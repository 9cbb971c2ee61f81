use consair::interpreter::{eval, eval_loop, register_stdlib, Action, Environment};
use consair::language::Value;
use consair::parser::parse;

fn eval_expr(expr: &str) -> String {
    let mut env = Environment::new();
    match parse(expr) {
        Ok(parsed) => match eval(parsed, &mut env) {
            Ok(result) => result.to_string(),
            Err(e) => format!("Error: {e}"),
        },
        Err(e) => format!("Parse error: {e}"),
    }
}

fn eval_str(input: &str) -> Result<String, String> {
    let mut env = Environment::new();
    let expr = parse(input)?;
    let result = eval(expr, &mut env)?;
    Ok(result.to_string())
}

fn eval_multi(inputs: &[&str]) -> Result<String, String> {
    let mut env = Environment::new();
    register_stdlib(&mut env);
    let mut result = String::new();
    for input in inputs {
        let expr = parse(input)?;
        let val = eval(expr, &mut env)?;
        result = val.to_string();
    }
    Ok(result)
}

#[test]
fn test_quote() {
    assert_eq!(eval_expr("(quote a)"), "a");
    assert_eq!(eval_expr("(quote (1 2 3))"), "(1 2 3)");
    assert_eq!(eval_expr("'a"), "a");
    assert_eq!(eval_expr("'(1 2 3)"), "(1 2 3)");
}

#[test]
fn test_atom() {
    assert_eq!(eval_expr("(atom 'a)"), "t");
    assert_eq!(eval_expr("(atom 123)"), "t");
    assert_eq!(eval_expr("(atom '(1 2))"), "nil");
    assert_eq!(eval_expr("(atom nil)"), "t");
}

#[test]
fn test_eq() {
    assert_eq!(eval_expr("(eq 'a 'a)"), "t");
    assert_eq!(eval_expr("(eq 'a 'b)"), "nil");
    assert_eq!(eval_expr("(eq 42 42)"), "t");
    assert_eq!(eval_expr("(eq 42 43)"), "nil");
    assert_eq!(eval_expr("(eq nil nil)"), "t");
}

#[test]
fn test_car_cdr() {
    assert_eq!(eval_expr("(car '(1 2 3))"), "1");
    assert_eq!(eval_expr("(cdr '(1 2 3))"), "(2 3)");
    assert_eq!(eval_expr("(car (cdr '(1 2 3)))"), "2");
    assert_eq!(eval_expr("(cdr (cdr '(1 2)))"), "nil");
}

#[test]
fn test_cons() {
    assert_eq!(eval_expr("(cons 1 '(2 3))"), "(1 2 3)");
    assert_eq!(eval_expr("(cons 'a 'b)"), "(a . b)");
    assert_eq!(eval_expr("(cons 1 nil)"), "(1)");
}

#[test]
fn test_cond() {
    assert_eq!(eval_expr("(cond ((eq 1 1) 'yes) (t 'no))"), "yes");
    assert_eq!(eval_expr("(cond ((eq 1 2) 'yes) (t 'no))"), "no");
    assert_eq!(eval_expr("(cond (nil 'a) (t 'b))"), "b");
}

#[test]
fn test_lambda() {
    assert_eq!(eval_expr("((lambda (x) x) 42)"), "42");
    assert_eq!(eval_expr("((lambda (x y) (cons x y)) 1 2)"), "(1 . 2)");
    assert_eq!(eval_expr("((lambda (x) (cons x '(2 3))) 1)"), "(1 2 3)");
}

#[test]
fn test_numbers() {
    assert_eq!(eval_expr("42"), "42");
    assert_eq!(eval_expr("-17"), "-17");
    assert_eq!(eval_expr("(cons 1 (cons 2 (cons 3 nil)))"), "(1 2 3)");
}

#[test]
fn test_label_and_recursion() {
    let mut env = Environment::new();
    let define = parse("(label identity (lambda (x) x))").unwrap();
    eval(define, &mut env).unwrap();
    let use_fn = parse("(identity 42)").unwrap();
    let result = eval(use_fn, &mut env).unwrap();
    assert_eq!(result.to_string(), "42");
}

#[test]
fn test_closure() {
    let mut env = Environment::new();
    let define = parse("(label make-const (lambda (x) (lambda (y) x)))").unwrap();
    eval(define, &mut env).unwrap();
    let create_closure = parse("(label my-const (make-const 42))").unwrap();
    eval(create_closure, &mut env).unwrap();
    let use_closure = parse("(my-const 99)").unwrap();
    let result = eval(use_closure, &mut env).unwrap();
    assert_eq!(result.to_string(), "42");
}

#[test]
fn test_list_construction() {
    assert_eq!(eval_expr("(cons 'a (cons 'b (cons 'c nil)))"), "(a b c)");
    assert_eq!(eval_expr("(cons (cons 1 2) (cons 3 4))"), "((1 . 2) 3 . 4)");
}

#[test]
fn test_nested_lambdas() {
    assert_eq!(eval_expr("((lambda (x) ((lambda (y) (cons x y)) 2)) 1)"), "(1 . 2)");
}

#[test]
fn test_quasiquote_basic() {
    assert_eq!(eval_str("`x").unwrap(), "x");
    assert_eq!(eval_str("`(a b c)").unwrap(), "(a b c)");
}

#[test]
fn test_quasiquote_with_unquote() {
    assert_eq!(eval_str("`(a ,(+ 1 2) c)").unwrap(), "(a 3 c)");
    assert_eq!(eval_str("`(a ,(cons 'x 'y) b)").unwrap(), "(a (x . y) b)");
}

#[test]
fn test_quasiquote_with_unquote_splicing() {
    assert_eq!(eval_str("`(a ,@(cons 1 (cons 2 nil)) b)").unwrap(), "(a 1 2 b)");
}

#[test]
fn test_defmacro_when() {
    let code = r#"
        (label defmacro-when
            (defmacro when (condition body)
                `(cond (,condition ,body) (t nil))))
    "#;
    assert_eq!(eval_str(code).unwrap(), "<macro>");
}

#[test]
fn test_macro_when_usage() {
    let result = eval_multi(&[
        "(defmacro when (condition body) `(cond (,condition ,body) (t nil)))",
        "(when t 42)",
    ])
    .unwrap();
    assert_eq!(result, "42");
    let result2 = eval_multi(&[
        "(defmacro when (condition body) `(cond (,condition ,body) (t nil)))",
        "(when nil 42)",
    ])
    .unwrap();
    assert_eq!(result2, "nil");
}

#[test]
fn test_macro_unless() {
    let result = eval_multi(&[
        "(defmacro unless (condition body) `(cond (,condition nil) (t ,body)))",
        "(unless nil 99)",
    ])
    .unwrap();
    assert_eq!(result, "99");
    let result2 = eval_multi(&[
        "(defmacro unless (condition body) `(cond (,condition nil) (t ,body)))",
        "(unless t 99)",
    ])
    .unwrap();
    assert_eq!(result2, "nil");
}

#[test]
fn test_nested_quasiquote() {
    let result = eval_str("``(a ,,1)").unwrap();
    assert_eq!(result, "(quasiquote (a (unquote 1)))");
}

#[test]
fn test_macro_variable_capture() {
    let result =
        eval_multi(&["(defmacro set-x (val) `(label x ,val))", "(set-x 100)", "x"]).unwrap();
    assert_eq!(result, "100");
}

#[test]
fn factorial_by_label() {
    let result = eval_multi(&[
        "(label fact (lambda (n) (cond ((= n 0) 1) (t (* n (fact (- n 1)))))))",
        "(fact 10)",
    ])
    .unwrap();
    assert_eq!(result, "3628800");
}

#[test]
fn tail_calls_run_in_constant_depth() {
    let result = eval_multi(&[
        "(label count (lambda (n) (cond ((= n 0) 'done) (t (count (- n 1))))))",
        "(count 20000)",
    ])
    .unwrap();
    assert_eq!(result, "done");
}

#[test]
fn deep_non_tail_nesting_hits_the_depth_limit() {
    let mut env = Environment::new();
    let msg = "Maximum recursion depth (10000) exceeded. This usually indicates very deep non-tail recursion."
        .to_string();
    // At the limit itself nothing is evaluated.
    assert_eq!(eval_loop(parse("1").unwrap(), &mut env, 0, 10000, 100), Err(msg.clone()));
    // One below, an argument of `car` is one level too deep.
    assert_eq!(eval_loop(parse("(car '(1))").unwrap(), &mut env, 0, 9999, 100), Err(msg));
    // The operator and arguments of a call are one level deeper.
    assert_eq!(
        eval_loop(parse("((lambda (x) x) 5)").unwrap(), &mut env, 0, 9998, 100).unwrap().to_string(),
        "5"
    );
}

#[test]
fn running_out_of_steps_is_an_error() {
    let mut env = Environment::new();
    let r = eval_loop(
        parse("((label loop (lambda (n) (loop n))) 1)").unwrap(),
        &mut env,
        0,
        0,
        50,
    );
    assert_eq!(r, Err("Evaluation step limit reached".to_string()));
}

#[test]
fn evaluation_errors() {
    assert_eq!(eval_expr("undefined-name"), "Error: Unbound symbol: undefined-name");
    assert_eq!(eval_expr("((lambda (x) x))"), "Error: lambda: expected 1 arguments, got 0");
    assert_eq!(eval_expr("(1 2)"), "Error: Cannot apply non-function: 1");
    assert_eq!(eval_expr("(+ 1 'a)"), "Error: +: expected number, got a");
    assert_eq!(eval_expr("(lambda (1) x)"), "Error: lambda parameters must be symbols");
    assert_eq!(eval_expr("(label 1 2)"), "Error: label: first argument must be a symbol");
    assert_eq!(eval_expr("(/ 1 0)"), "Error: Division by zero");
    assert_eq!(eval_expr("(/ 6 4)"), "3/2");
    assert_eq!(eval_expr("(< 1 2)"), "t");
    assert_eq!(eval_expr("(>= 1 2)"), "nil");
    assert_eq!(eval_expr("(vector-length <<1 2 3>>)"), "3");
    assert_eq!(eval_expr("(vector-ref <<1 2 3>> 1)"), "2");
    assert_eq!(eval_expr("(vector-ref <<1 2 3>> 5)"), "Error: vector-ref: index 5 out of bounds (length 3)");
    assert_eq!(eval_expr("(lambda (x) x)"), "<lambda>");
}

#[test]
fn test_macro_expansion_macroexpand_1() {
    let result = eval_multi(&[
        "(defmacro when (condition body) `(cond (,condition ,body) (t nil)))",
        "(macroexpand-1 '(when t 42))",
    ])
    .unwrap();
    assert!(result.contains("cond"));
}

#[test]
fn test_macroexpand_full() {
    let result = eval_multi(&[
        "(defmacro when (condition body) `(cond (,condition ,body) (t nil)))",
        "(macroexpand '(when (eq 1 1) 42))",
    ])
    .unwrap();
    assert!(result.contains("cond"));
}

// The gensym counter belongs to the environment, so the calls share one.
#[test]
fn test_gensym() {
    let mut env = Environment::new();
    register_stdlib(&mut env);
    let mut run = |code: &str| eval(parse(code).unwrap(), &mut env).map(|v| v.to_string());
    let result1 = run("(gensym)").unwrap();
    let result2 = run("(gensym)").unwrap();
    assert!(result1.starts_with("g__"));
    assert!(result2.starts_with("g__"));
    assert_ne!(result1, result2);
    let result3 = run("(gensym \"temp\")").unwrap();
    assert!(result3.starts_with("temp__"));
    assert_eq!(result3, "temp__2");
    assert_eq!(run("(gensym 1 2)"), Err("gensym: expected 0 or 1 arguments".to_string()));
    assert_eq!(run("(gensym)").unwrap(), "g__3");
}

#[test]
fn natives_are_values() {
    assert_eq!(eval_multi(&["((lambda (f) (f 1 2 3)) +)"]).unwrap(), "6");
    assert_eq!(eval_multi(&["((lambda (f) (f 10 2 3)) -)"]).unwrap(), "5");
    assert_eq!(eval_multi(&["((lambda (f) (f 1 2)) <)"]).unwrap(), "t");
    assert_eq!(eval_multi(&["((lambda (f) (f 1)) +)"]), Err("+: expected at least 2 arguments".to_string()));
    assert_eq!(eval_multi(&["((lambda (f) (f 1 'a)) *)"]), Err("*: expected number, got a".to_string()));
    assert_eq!(eval_multi(&["(vector 1 2)"]).unwrap(), "<<1 2>>");
    assert_eq!(eval_multi(&["car"]).unwrap(), "<native-fn>");
    // The arithmetic forms fold every operand, as the native functions do.
    assert_eq!(eval_multi(&["(+ 1 2 3)"]).unwrap(), "6");
}

#[test]
fn arithmetic_forms_fold_every_operand() {
    assert_eq!(eval_expr("(- 10 3 2)"), "5");
    assert_eq!(eval_expr("(- 42)"), "-42");
    assert_eq!(eval_expr("(+ 1 2 3 4)"), "10");
    assert_eq!(eval_expr("(* 2 3 4)"), "24");
    assert_eq!(eval_expr("(/ 100 5 2)"), "10");
    assert_eq!(eval_expr("(+ 1)"), "Error: +: expected at least 2 arguments");
    assert_eq!(eval_expr("(-)"), "Error: -: expected at least 2 arguments");
    assert_eq!(eval_expr("(< 1 2 3)"), "Error: <: expected 2 arguments");
    assert_eq!(eval_expr("(< 1 2)"), "t");
    assert_eq!(eval_expr("(- 'a)"), "Error: -: expected number, got a");
}

#[test]
fn input_and_output_stop_the_run_until_answered() {
    let mut env = Environment::new();
    register_stdlib(&mut env);
    let base = env.copy();
    let expr = parse("(cons (println \"hi\" 1) (slurp \"f.txt\"))").unwrap();
    // Without answers the run stops at the first request.
    let mut first = base.copy().with_replies(vec![]);
    assert_eq!(eval(expr.copy(), &mut first), Err("input or output requested".to_string()));
    match first.pending_action() {
        Some(Action::Write(t)) => assert_eq!(t, "hi 1\n"),
        _ => panic!("expected a write"),
    }
    // With one answer it stops at the second.
    let mut second = base.copy().with_replies(vec![Ok(Value::Nil)]);
    assert!(eval(expr.copy(), &mut second).is_err());
    match second.pending_action() {
        Some(Action::ReadFile(p)) => assert_eq!(p, "f.txt"),
        _ => panic!("expected a read"),
    }
    // With both answers it finishes.
    let content = parse("\"text\"").unwrap();
    let mut third = base.copy().with_replies(vec![Ok(Value::Nil), Ok(content)]);
    assert_eq!(eval(expr, &mut third).unwrap().to_string(), "(nil . \"text\")");
    assert!(third.pending_action().is_none());
    // Bad arguments need no answer.
    let mut fourth = base.copy().with_replies(vec![]);
    assert_eq!(
        eval(parse("(slurp 1)").unwrap(), &mut fourth),
        Err("Expected string, got 1".to_string())
    );
    assert!(fourth.pending_action().is_none());
}

#[test]
fn lookup_gives_back_what_was_defined() {
    let mut env = Environment::new();
    env.define(0, "x".to_string(), parse("1").unwrap());
    env.define(0, "y".to_string(), parse("2").unwrap());
    env.define(0, "x".to_string(), parse("3").unwrap());
    assert_eq!(env.lookup(0, "x").unwrap().to_string(), "3");
    assert_eq!(env.lookup(0, "y").unwrap().to_string(), "2");
    assert!(env.lookup(0, "z").is_none());
    let f = env.extend(0, &vec!["a".to_string(), "x".to_string()], vec![parse("4").unwrap(), parse("5").unwrap()]);
    assert_eq!(f, 1);
    assert_eq!(env.lookup(f, "a").unwrap().to_string(), "4");
    assert_eq!(env.lookup(f, "x").unwrap().to_string(), "5");
    assert_eq!(env.lookup(f, "y").unwrap().to_string(), "2");
    assert_eq!(env.len(), 2);
}

#[test]
fn extend_hides_only_its_parameters() {
    let mut env = Environment::new();
    env.define(0, "x".to_string(), parse("1").unwrap());
    env.define(0, "y".to_string(), parse("2").unwrap());
    let f = env.extend(0, &vec!["x".to_string()], vec![parse("10").unwrap()]);
    // The parameter shadows the outer binding; the outer frame is unchanged.
    assert_eq!(env.lookup(f, "x").unwrap().to_string(), "10");
    assert_eq!(env.lookup(0, "x").unwrap().to_string(), "1");
    // Other names are looked up through the frame it extends.
    assert_eq!(env.lookup(f, "y").unwrap().to_string(), "2");
    assert!(env.lookup(f, "z").is_none());
    // A later definition in the outer frame is seen from the new frame.
    env.define(0, "z".to_string(), parse("3").unwrap());
    assert_eq!(env.lookup(f, "z").unwrap().to_string(), "3");
    env.define(0, "x".to_string(), parse("4").unwrap());
    assert_eq!(env.lookup(f, "x").unwrap().to_string(), "10");
}

fn create_test_env() -> Environment {
    let mut env = Environment::new();
    register_stdlib(&mut env);
    env
}

#[test]
fn test_now_with_args_fails() {
    let mut env = create_test_env();
    let result = eval(parse("(now 123)").unwrap(), &mut env);
    assert!(result.is_err());
    assert!(result.unwrap_err().contains("expected 0 arguments"));
}

#[test]
fn test_arity_checking() {
    let mut env = create_test_env();
    assert!(eval(parse("(slurp)").unwrap(), &mut env).is_err());
    assert!(eval(parse(r#"(slurp "a" "b")"#).unwrap(), &mut env).is_err());
    assert!(eval(parse(r#"(spit "a")"#).unwrap(), &mut env).is_err());
    assert!(eval(parse(r#"(spit "a" "b" "c")"#).unwrap(), &mut env).is_err());
    assert!(eval(parse("(shell)").unwrap(), &mut env).is_err());
    assert!(eval(parse(r#"(shell "a" "b")"#).unwrap(), &mut env).is_err());
    assert!(eval(parse("(now 1)").unwrap(), &mut env).is_err());
}

/// Evaluates with the requests for writing and for the clock answered here,
/// as the front end answers them.
fn eval_answering(expr: Value, env: &mut Environment) -> Result<Value, String> {
    let mut replies: Vec<Result<Value, String>> = Vec::new();
    loop {
        let answers: Vec<Result<Value, String>> = replies
            .iter()
            .map(|r| match r {
                Ok(v) => Ok(v.copy()),
                Err(m) => Err(m.clone()),
            })
            .collect();
        let mut attempt = env.copy().with_replies(answers);
        let result = eval(expr.copy(), &mut attempt);
        match attempt.pending_action() {
            Some(Action::Write(text)) => {
                println!("{}", text);
                replies.push(Ok(Value::Nil));
            }
            Some(Action::Clock) => {
                let secs = std::time::SystemTime::now()
                    .duration_since(std::time::UNIX_EPOCH)
                    .unwrap()
                    .as_secs() as i64;
                replies.push(Ok(consair::native::make_int(secs)));
            }
            Some(_) => panic!("unexpected request"),
            None => {
                *env = attempt;
                return result;
            }
        }
    }
}

fn extract_int(value: &Value) -> i64 {
    match value {
        Value::Atom(consair::language::AtomType::Number(consair::numeric::NumericType::Int(n))) => *n,
        _ => panic!("Expected integer, got {value:?}"),
    }
}

#[test]
fn test_now() {
    let mut env = create_test_env();
    let result = eval_answering(parse("(now)").unwrap(), &mut env).unwrap();
    let timestamp = extract_int(&result);
    assert!(timestamp > 0);
    let year_2020 = 1577836800;
    let year_2100 = 4102444800;
    assert!(timestamp > year_2020);
    assert!(timestamp < year_2100);
}

#[test]
fn test_print_returns_nil() {
    let mut env = create_test_env();
    let result = eval_answering(parse(r#"(print "hello")"#).unwrap(), &mut env).unwrap();
    assert_eq!(result, Value::Nil);
}

#[test]
fn test_println_returns_nil() {
    let mut env = create_test_env();
    let result = eval_answering(parse(r#"(println "hello")"#).unwrap(), &mut env).unwrap();
    assert_eq!(result, Value::Nil);
}

#[test]
fn test_print_multiple_args() {
    let mut env = create_test_env();
    let result = eval_answering(parse(r#"(print "hello" "world" 123)"#).unwrap(), &mut env);
    assert!(result.is_ok());
    assert_eq!(result.unwrap(), Value::Nil);
}

#[test]
fn test_println_with_numbers() {
    let mut env = create_test_env();
    let result = eval_answering(parse("(println 1 2 3)").unwrap(), &mut env);
    assert!(result.is_ok());
    assert_eq!(result.unwrap(), Value::Nil);
}

#[test]
fn each_request_is_answered_once() {
    let mut env = create_test_env();
    let result = eval_answering(
        parse("(cons (println \"a\") (cons (print \"b\") (now)))").unwrap(),
        &mut env,
    )
    .unwrap();
    assert!(result.to_string().starts_with("(nil nil . "));
}

#[test]
fn exact_arithmetic_on_ratios() {
    assert_eq!(eval_expr("(/ 1 2)"), "1/2");
    assert_eq!(eval_expr("(+ (/ 1 2) (/ 1 3))"), "5/6");
    assert_eq!(eval_expr("(- (/ 1 2) (/ 1 2))"), "0");
    assert_eq!(eval_expr("(* (/ 2 3) 3)"), "2");
    assert_eq!(eval_expr("(/ (/ 1 2) (/ 1 4))"), "2");
    assert_eq!(eval_expr("(- (/ 1 2))"), "-1/2");
    assert_eq!(eval_expr("(+ 1 (/ 1 2) (/ 1 2))"), "2");
    assert_eq!(eval_expr("(< (/ 1 3) (/ 1 2))"), "t");
    assert_eq!(eval_expr("(>= (/ 1 3) (/ 1 2))"), "nil");
    assert_eq!(eval_expr("(= (/ 2 4) (/ 1 2))"), "t");
    assert_eq!(eval_expr("(/ (/ 1 2) 0)"), "Error: Division by zero");
    assert_eq!(eval_expr("(+ 1.5 2)"), "Error: +: expected exact numbers");
    assert_eq!(eval_expr("(< 1.5 2)"), "Error: <: expected exact numbers");
}
