use consair::language::{car, cdr, cons, eq, escape_string, is_atom, AtomType, StringType, SymbolType, Value};
use consair::lexer::Lexer;
use consair::numeric::NumericType;
use consair::parser::{list_from, parse, parse_checked, read_stalls, Parser};

fn read(input: &str) -> Value {
    parse(input).unwrap()
}

fn shown(input: &str) -> String {
    read(input).to_string()
}

fn num(n: i64) -> Value {
    Value::Atom(AtomType::Number(NumericType::Int(n)))
}

fn symbol(s: &str) -> Value {
    Value::Atom(AtomType::Symbol(SymbolType::Symbol(s.to_string())))
}

// ---------------------------------------------------------------------------
// Reading
// ---------------------------------------------------------------------------

#[test]
fn reads_atoms() {
    assert_eq!(read("42"), num(42));
    assert_eq!(read("foo"), symbol("foo"));
    assert_eq!(read("nil"), Value::Nil);
    assert_eq!(read("t"), Value::Atom(AtomType::Bool(true)));
    assert_eq!(
        read("\"hi\""),
        Value::Atom(AtomType::String(StringType::Basic("hi".to_string())))
    );
}

#[test]
fn reads_lists_and_vectors() {
    assert_eq!(read("(1 2)"), cons(num(1), cons(num(2), Value::Nil)));
    assert_eq!(read("()"), Value::Nil);
    assert_eq!(shown("(a (b c) <<1 2>>)"), "(a (b c) <<1 2>>)");
    assert_eq!(shown("<<>>"), "<<>>");
}

#[test]
fn reads_quote_forms() {
    assert_eq!(shown("'(a b c)"), "(quote (a b c))");
    assert_eq!(shown("`(a ,b ,@c)"), "(quasiquote (a (unquote b) (unquote-splicing c)))");
}

#[test]
fn reads_only_the_first_expression() {
    assert_eq!(read("1 2 3"), num(1));
    assert_eq!(shown("(a) (b)"), "(a)");
}

#[test]
fn read_errors() {
    assert_eq!(parse(""), Err("Unexpected end of input".to_string()));
    assert_eq!(parse(")"), Err("Unexpected )".to_string()));
    assert_eq!(parse(">>"), Err("Unexpected >>".to_string()));
    assert_eq!(parse("(1 2"), Err("Unclosed parenthesis".to_string()));
    assert_eq!(parse("<<1 2"), Err("Unclosed vector literal".to_string()));
    assert_eq!(parse("(\"abc"), Err("Unterminated string".to_string()));
    // A lexical error in the first token reads as the end of input.
    assert_eq!(parse("\"abc"), Err("Unexpected end of input".to_string()));
}

#[test]
fn readme_examples_print_back() {
    assert_eq!(shown("(quote (1 2 3))"), "(quote (1 2 3))");
    assert_eq!(shown("(cond ((eq 1 1) 'yes) (t 'no))"), "(cond ((eq 1 1) (quote yes)) (t (quote no)))");
    assert_eq!(shown("(lambda (x y) (cons x y))"), "(lambda (x y) (cons x y))");
}

#[test]
fn reading_a_stray_character_in_a_list_never_ends() {
    // `@` starts no token; inside a list it would be read forever.
    assert!(read_stalls("(@)"));
    assert_eq!(parse_checked("(@)"), None);
    assert!(!read_stalls("(1 2)"));
    assert_eq!(parse_checked("(1 2)"), Some(Ok(read("(1 2)"))));
    assert_eq!(parse_checked(")"), Some(Err("Unexpected )".to_string())));
    // At the top level the stray character is the empty symbol.
    assert_eq!(parse_checked("@"), Some(Ok(symbol(""))));
}

#[test]
fn parser_reads_successive_expressions() {
    let mut lexer = Lexer::new("a (b) 3");
    let mut parser = Parser::new(&mut lexer);
    assert_eq!(parser.parse_expression(), Ok(symbol("a")));
    assert_eq!(parser.parse_expression(), Ok(cons(symbol("b"), Value::Nil)));
    assert_eq!(parser.parse_expression(), Ok(num(3)));
    assert_eq!(parser.parse_expression(), Err("Unexpected end of input".to_string()));
}

#[test]
fn list_from_keeps_order() {
    let l = list_from(vec![num(1), num(2), num(3)]);
    assert_eq!(l.to_string(), "(1 2 3)");
    assert_eq!(list_from(vec![]), Value::Nil);
}

// ---------------------------------------------------------------------------
// Printing and primitives
// ---------------------------------------------------------------------------

#[test]
fn prints_values() {
    assert_eq!(cons(num(1), num(2)).to_string(), "(1 . 2)");
    assert_eq!(cons(num(1), cons(num(2), num(3))).to_string(), "(1 2 . 3)");
    assert_eq!(Value::Atom(AtomType::Bool(false)).to_string(), "nil");
    assert_eq!(Value::Atom(AtomType::Bool(true)).to_string(), "t");
    assert_eq!(shown("\"a\\\"b\\nc\""), "\"a\\\"b\\nc\"");
    assert_eq!(shown("-7/21"), "-1/3");
    assert_eq!(num(i64::MIN).to_string(), "-9223372036854775808");
}

#[test]
fn escape_string_escapes() {
    assert_eq!(escape_string("a\"b\\c\nd\te\rf"), "a\\\"b\\\\c\\nd\\te\\rf");
    assert_eq!(escape_string("plain"), "plain");
}

#[test]
fn readme_primitives() {
    // (car '(1 2 3)) => 1
    assert_eq!(car(&read("(1 2 3)")), Ok(num(1)));
    // (cdr '(1 2 3)) => (2 3)
    assert_eq!(cdr(&read("(1 2 3)")).unwrap().to_string(), "(2 3)");
    // (cons 1 '(2 3)) => (1 2 3)
    assert_eq!(cons(num(1), read("(2 3)")).to_string(), "(1 2 3)");
    // (atom 'x) => t, (atom '(1 2)) => nil
    assert!(is_atom(&symbol("x")));
    assert!(!is_atom(&read("(1 2)")));
    assert!(is_atom(&Value::Nil));
    // (eq 'a 'a) => t
    assert!(eq(&symbol("a"), &symbol("a")));
    assert!(!eq(&symbol("a"), &symbol("b")));
    assert!(eq(&Value::Nil, &Value::Nil));
    assert!(!eq(&read("(1)"), &read("(1)")));
    assert!(!eq(&num(1), &symbol("1")));
}

#[test]
fn car_cdr_errors() {
    assert_eq!(car(&num(5)), Err("car: expected cons cell, got 5".to_string()));
    assert_eq!(cdr(&Value::Nil), Err("cdr: expected cons cell, got nil".to_string()));
}

#[test]
fn car_and_cdr_undo_cons() {
    let a = read("(x y)");
    let d = read("<<1 2>>");
    let pair = cons(a.copy(), d.copy());
    assert_eq!(car(&pair), Ok(a));
    assert_eq!(cdr(&pair), Ok(d));
    assert!(!is_atom(&pair));
}

#[test]
fn symbol_resolve_and_copy() {
    let s = SymbolType::Symbol("abc".to_string());
    assert_eq!(s.resolve(), "abc");
    let v = read("(a \"b\" <<1/2 2.5>>)");
    assert_eq!(v.copy(), v);
}

#[test]
fn printed_values_read_back() {
    let texts = [
        "42",
        "-9223372036854775808",
        "nil",
        "t",
        "foo-bar?",
        "<=",
        ">",
        "\"a \\\"q\\\" \\\\ \\n b\"",
        "(1 (2 \"x\") <<3 -4>> sym)",
        "<<(a b) <<>> >= <>>",
        "(< > (<= >=))",
    ];
    for text in texts {
        let v = parse(text).unwrap();
        let printed = v.to_string();
        assert_eq!(parse(&printed).unwrap(), v, "{text}");
    }
    // A vector that ends in the symbol `>` prints as `<<a >>>`, which reads
    // as the end of the vector first.
    let v = parse("<<a > >>").unwrap();
    assert_eq!(v.to_string(), "<<a >>>");
    assert_ne!(parse(&v.to_string()).unwrap(), v);
}
