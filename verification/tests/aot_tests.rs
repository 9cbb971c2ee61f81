use consair::aot::{extract_toplevel_label, is_label, is_lambda, read_all_stalls, AotCompiler, AotError};
use consair::jit::JitError;
use consair::language::Value;
use consair::parser::parse;

fn read(s: &str) -> Value {
    parse(s).unwrap()
}

fn codegen_message(e: AotError) -> String {
    match e {
        AotError::CodegenError(m) => m,
        other => panic!("not a code generation error: {other:?}"),
    }
}

fn parse_message(e: AotError) -> String {
    match e {
        AotError::ParseError(m) => m,
        other => panic!("not a parse error: {other:?}"),
    }
}

#[test]
fn test_compiler_new() {
    let compiler = AotCompiler::new();
    assert!(!compiler.debug);
}

#[test]
fn aot_error_conversions() {
    let e: AotError = JitError::syntax("bad").into();
    assert!(matches!(e, AotError::JitError(ref j) if j.message == "bad"));
    let io = std::io::Error::new(std::io::ErrorKind::NotFound, "missing");
    let e: AotError = io.into();
    assert!(matches!(e, AotError::IoError(_)));
    let d = AotCompiler::default();
    assert!(!d.debug);
}

#[test]
fn recognises_keywords() {
    assert!(is_lambda(&read("lambda")));
    assert!(!is_lambda(&read("label")));
    assert!(!is_lambda(&read("(lambda)")));
    assert!(is_label(&read("label")));
    assert!(!is_label(&read("\"label\"")));
}

#[test]
fn toplevel_labels() {
    let (name, lam) = extract_toplevel_label(&read("(label fact (lambda (n) n))")).unwrap();
    assert_eq!(name, "fact");
    assert_eq!(lam.to_string(), "(lambda (n) n)");
    assert!(extract_toplevel_label(&read("(label fact 42)")).is_none());
    assert!(extract_toplevel_label(&read("(label 1 (lambda (n) n))")).is_none());
    assert!(extract_toplevel_label(&read("(fact (lambda (n) n))")).is_none());
    assert!(extract_toplevel_label(&read("(label fact (mu (n) n))")).is_none());
}

#[test]
fn lambda_parameter_counts() {
    let c = AotCompiler::new();
    assert_eq!(c.get_lambda_param_count(&read("(lambda (a b c) a)")).unwrap(), 3);
    assert_eq!(c.get_lambda_param_count(&read("(lambda () 1)")).unwrap(), 0);
    assert_eq!(
        codegen_message(c.get_lambda_param_count(&read("(lambda)")).unwrap_err()),
        "lambda requires parameters"
    );
    assert_eq!(
        codegen_message(c.get_lambda_param_count(&read("(mu (a) a)")).unwrap_err()),
        "Expected lambda expression"
    );
    assert_eq!(
        codegen_message(c.get_lambda_param_count(&read("(lambda x x)")).unwrap_err()),
        "Malformed argument list"
    );
}

#[test]
fn argument_lists() {
    let c = AotCompiler::new();
    let args = read("(1 2 3)");
    assert_eq!(c.get_first_arg(&args).unwrap().to_string(), "1");
    let (a, d) = c.get_car_cdr(&args).unwrap();
    assert_eq!((a.to_string(), d.to_string()), ("1".to_string(), "(2 3)".to_string()));
    assert_eq!(codegen_message(c.get_first_arg(&Value::Nil).unwrap_err()), "Expected argument");
    assert_eq!(codegen_message(c.get_car_cdr(&read("7")).unwrap_err()), "Invalid argument list");
    let items = c.collect_args(&args).unwrap();
    assert_eq!(items.len(), 3);
    assert_eq!(codegen_message(c.collect_args(&read("7")).unwrap_err()), "Malformed argument list");
}

#[test]
fn parses_whole_programs() {
    let c = AotCompiler::new();
    let exprs = c.parse_all("(label f (lambda (x) x))\n; comment\n(f 42)\n").unwrap();
    let shown: Vec<String> = exprs.iter().map(|v| v.to_string()).collect();
    assert_eq!(shown, vec!["(label f (lambda (x) x))", "(f 42)"]);
    assert_eq!(c.parse_all("1 2 3").unwrap().len(), 3);
    assert_eq!(parse_message(c.parse_all("").unwrap_err()), "No expressions to compile");
    assert_eq!(parse_message(c.parse_all("  ; nothing\n").unwrap_err()), "No expressions to compile");
    assert_eq!(parse_message(c.parse_all("(a) )").unwrap_err()), "Unexpected )");
    assert_eq!(parse_message(c.parse_all("(a) (b").unwrap_err()), "Unclosed parenthesis");
}

#[test]
fn checked_reading_of_whole_programs() {
    let c = AotCompiler::new();
    assert!(read_all_stalls("@"));
    assert!(read_all_stalls("(a) (@)"));
    assert!(!read_all_stalls("(a) (b"));
    assert!(c.parse_all_checked("(a) (@)").is_none());
    assert!(c.parse_all_checked("@").is_none());
    match c.parse_all_checked("(a) 2") {
        Some(Ok(vs)) => assert_eq!(vs.len(), 2),
        _ => panic!("expected two expressions"),
    }
    match c.parse_all_checked("") {
        Some(Err(e)) => assert_eq!(parse_message(e), "No expressions to compile"),
        _ => panic!("expected an error"),
    }
}
