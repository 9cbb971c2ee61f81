use consair::language::StringType;
use consair::lexer::{Lexer, Token};
use consair::numeric::NumericType;

fn tokens(input: &str) -> Vec<Token> {
    let mut lexer = Lexer::new(input);
    let mut out = Vec::new();
    loop {
        let t = lexer.next_token().unwrap();
        let done = t == Token::Eof;
        out.push(t);
        if done {
            return out;
        }
    }
}

fn sym(s: &str) -> Token {
    Token::Symbol(s.to_string())
}

fn int_tok(n: i64) -> Token {
    Token::Number(NumericType::Int(n))
}

fn string(s: &str) -> Token {
    Token::String(StringType::Basic(s.to_string()))
}

fn first_error(input: &str) -> String {
    let mut lexer = Lexer::new(input);
    loop {
        match lexer.next_token() {
            Ok(Token::Eof) => panic!("no error in {input:?}"),
            Ok(_) => {}
            Err(e) => return e,
        }
    }
}

#[test]
fn lexes_punctuation() {
    assert_eq!(
        tokens("( ) << >> ' ` , ,@"),
        vec![
            Token::LParen,
            Token::RParen,
            Token::VectorOpen,
            Token::VectorClose,
            Token::Quote,
            Token::Quasiquote,
            Token::Unquote,
            Token::UnquoteSplicing,
            Token::Eof
        ]
    );
}

#[test]
fn lexes_comparison_symbols() {
    assert_eq!(
        tokens("< <= > >="),
        vec![sym("<"), sym("<="), sym(">"), sym(">="), Token::Eof]
    );
}

#[test]
fn lexes_list_of_atoms() {
    assert_eq!(
        tokens("(cons 1 -2)"),
        vec![Token::LParen, sym("cons"), int_tok(1), int_tok(-2), Token::RParen, Token::Eof]
    );
}

#[test]
fn lexes_symbols_with_punctuation() {
    assert_eq!(
        tokens("nil? set-car! a/b foo_bar *x* %"),
        vec![sym("nil?"), sym("set-car!"), sym("a/b"), sym("foo_bar"), sym("*x*"), sym("%"), Token::Eof]
    );
    // A minus sign not followed by a digit starts a symbol.
    assert_eq!(tokens("- -x"), vec![sym("-"), sym("-x"), Token::Eof]);
}

#[test]
fn skips_whitespace_and_comments() {
    assert_eq!(
        tokens("  ; a comment\n\t42 ; trailing\n; last"),
        vec![int_tok(42), Token::Eof]
    );
    assert_eq!(tokens(""), vec![Token::Eof]);
    assert_eq!(tokens("   \n ; only a comment"), vec![Token::Eof]);
}

#[test]
fn end_of_input_is_stable() {
    let mut lexer = Lexer::new("x ");
    assert_eq!(lexer.next_token(), Ok(sym("x")));
    assert_eq!(lexer.next_token(), Ok(Token::Eof));
    let p = lexer.position();
    assert_eq!(lexer.next_token(), Ok(Token::Eof));
    assert_eq!(lexer.position(), p);
    assert_eq!(p, 2);
}

#[test]
fn lexes_integers() {
    assert_eq!(tokens("0 42 -17"), vec![int_tok(0), int_tok(42), int_tok(-17), Token::Eof]);
    assert_eq!(
        tokens("9223372036854775807 -9223372036854775808"),
        vec![int_tok(i64::MAX), int_tok(i64::MIN), Token::Eof]
    );
    // Too large for an i64: read as a symbol.
    assert_eq!(tokens("9223372036854775808"), vec![sym("9223372036854775808"), Token::Eof]);
}

#[test]
fn lexes_ratios() {
    assert_eq!(
        tokens("1/2 6/4 -3/9"),
        vec![
            Token::Number(NumericType::Ratio(1, 2)),
            Token::Number(NumericType::Ratio(3, 2)),
            Token::Number(NumericType::Ratio(-1, 3)),
            Token::Eof
        ]
    );
    // A ratio that reduces to a whole number is an integer.
    assert_eq!(tokens("4/2"), vec![int_tok(2), Token::Eof]);
    // A zero denominator makes the text a symbol.
    assert_eq!(tokens("1/0"), vec![sym("1/0"), Token::Eof]);
}

#[test]
fn lexes_floats_as_written() {
    assert_eq!(
        tokens("3.14 -0.5 1e3 2.5E-2"),
        vec![
            Token::Number(NumericType::Float("3.14".to_string())),
            Token::Number(NumericType::Float("-0.5".to_string())),
            Token::Number(NumericType::Float("1e3".to_string())),
            Token::Number(NumericType::Float("2.5E-2".to_string())),
            Token::Eof
        ]
    );
    // An exponent with no digits is not a float.
    assert_eq!(tokens("1e"), vec![sym("1e"), Token::Eof]);
}

#[test]
fn lexes_strings_and_escapes() {
    assert_eq!(tokens("\"hello\""), vec![string("hello"), Token::Eof]);
    assert_eq!(
        tokens(r#""a\nb\tc\\d\"e\'f\0g""#),
        vec![string("a\nb\tc\\d\"e'f\0g"), Token::Eof]
    );
    assert_eq!(tokens(r#""\x41\u{1F600}""#), vec![string("A\u{1F600}"), Token::Eof]);
    assert_eq!(tokens(r#""(not a list)""#), vec![string("(not a list)"), Token::Eof]);
}

#[test]
fn string_errors() {
    assert_eq!(first_error("\"abc"), "Unterminated string");
    assert_eq!(first_error(r#""\q""#), "Unknown escape sequence: \\q");
    assert_eq!(first_error(r#""\xZZ""#), "Invalid hex digit in escape sequence");
    assert_eq!(first_error(r#""\u{12G}""#), "Invalid hex digit in unicode escape");
    assert_eq!(first_error(r#""\u{D800}""#), "Invalid unicode code point: 55296");
    assert_eq!(first_error(r#""\u1""#), "Expected '{', found '1'");
    assert_eq!(
        first_error(r#""\u{}""#),
        "Invalid unicode code point: cannot parse integer from empty string"
    );
    assert_eq!(first_error("$abc"), "Not a string");
}

#[test]
fn empty_symbol_does_not_move() {
    // A character that can start no token reads as the empty symbol and the
    // reading position stays where it was.
    let mut lexer = Lexer::new("@");
    assert_eq!(lexer.next_token(), Ok(sym("")));
    assert_eq!(lexer.position(), 0);
    assert_eq!(lexer.next_token(), Ok(sym("")));
    assert_eq!(lexer.position(), 0);
}

#[test]
fn symbols_are_verbatim_slices() {
    let mut lexer = Lexer::new("  hello-world)");
    assert_eq!(lexer.next_token(), Ok(sym("hello-world")));
    assert_eq!(lexer.position(), 13);
}

#[test]
fn lexing_ends_within_one_call_per_character() {
    let input = "(define x \"a b\") ; note\n<<1 -2.5>> 'y";
    let mut lexer = Lexer::new(input);
    let limit = input.chars().count() + 1;
    let mut calls = 0;
    loop {
        calls += 1;
        match lexer.next_token() {
            Ok(Token::Eof) | Err(_) => break,
            Ok(_) => {}
        }
        assert!(calls <= limit);
    }
    assert!(calls <= limit);
    assert_eq!(lexer.next_token(), Ok(Token::Eof));
    assert_eq!(lexer.next_token(), Ok(Token::Eof));
}
