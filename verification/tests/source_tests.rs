use consair::parser::parse;
use consair::source::{
    is_complete_expression, is_definition_expr, next_expr_is_defined, parse_next_expr,
    parse_next_expr_checked, skip_whitespace_and_comments, split_next_expr,
};

/// Splits a whole program into its top-level expressions the way a file is
/// run: the text is trimmed, then expressions are read until only blank
/// text is left. Each expression is given in its printed form.
fn read_program(content: &str) -> Result<Vec<String>, String> {
    let mut out = Vec::new();
    let mut remaining = content.trim().to_string();
    while !remaining.trim().is_empty() {
        assert!(next_expr_is_defined(&remaining));
        let (expr, rest) = parse_next_expr(&remaining)?;
        out.push(expr.to_string());
        remaining = rest;
    }
    Ok(out)
}

// ---------------------------------------------------------------------------
// Complete entries
// ---------------------------------------------------------------------------

#[test]
fn complete_expressions() {
    assert!(is_complete_expression("(cons 1 2)"));
    assert!(is_complete_expression("42"));
    assert!(is_complete_expression(""));
    assert!(!is_complete_expression("(cons 1"));
    assert!(!is_complete_expression("(println \"a)"));
    assert!(is_complete_expression("(println \"(\")"));
    assert!(is_complete_expression("\"a\\\"b\""));
    assert!(!is_complete_expression("\"a\\\""));
    // More closing than opening parentheses is not complete either.
    assert!(!is_complete_expression("(a))"));
}

// ---------------------------------------------------------------------------
// Blank text
// ---------------------------------------------------------------------------

#[test]
fn skips_blank_text() {
    assert_eq!(skip_whitespace_and_comments("  \n (a)"), "(a)");
    assert_eq!(skip_whitespace_and_comments("; c1\n ; c2\n  x y"), "x y");
    assert_eq!(skip_whitespace_and_comments("; only a comment"), "");
    assert_eq!(skip_whitespace_and_comments("   "), "");
    assert_eq!(skip_whitespace_and_comments("x ; not skipped"), "x ; not skipped");
}

// ---------------------------------------------------------------------------
// Splitting
// ---------------------------------------------------------------------------

#[test]
fn splits_first_expression() {
    assert_eq!(
        split_next_expr("  (a b) (c)"),
        Some(Ok(("(a b)".to_string(), " (c)".to_string())))
    );
    assert_eq!(
        split_next_expr("42 100"),
        Some(Ok(("42".to_string(), " 100".to_string())))
    );
    assert_eq!(
        split_next_expr("'(1 2) x"),
        Some(Ok(("'(1 2)".to_string(), " x".to_string())))
    );
    assert_eq!(
        split_next_expr("'a b"),
        Some(Ok(("'a".to_string(), " b".to_string())))
    );
    assert_eq!(
        split_next_expr("<<1 <<2>> 3>> tail"),
        Some(Ok(("<<1 <<2>> 3>>".to_string(), " tail".to_string())))
    );
    // A string at the top level has no end of its own.
    assert_eq!(
        split_next_expr("\"a (b\" c"),
        Some(Err("Incomplete expression".to_string()))
    );
    assert_eq!(split_next_expr("   "), Some(Err("No expression found".to_string())));
}

#[test]
fn split_errors() {
    assert_eq!(
        split_next_expr("(cons 1 2"),
        Some(Err("Unclosed opening parenthesis".to_string()))
    );
    assert_eq!(
        split_next_expr("<<1 2"),
        Some(Err("Unclosed vector delimiter".to_string()))
    );
    assert_eq!(
        split_next_expr("(println \"hello)"),
        Some(Err("Unclosed opening parenthesis".to_string()))
    );
    assert_eq!(
        split_next_expr("\"hello"),
        Some(Err("Unclosed string literal".to_string()))
    );
}

#[test]
fn split_cut_inside_a_character() {
    // The end of the expression is counted in characters but cut in bytes:
    // with a three-byte character before it, the cut falls inside that
    // character.
    assert_eq!(split_next_expr("(\u{20AC}) x"), None);
    assert!(!next_expr_is_defined("(\u{20AC}) x"));
    assert_eq!(split_next_expr("\u{e9} x"), None);
    // Where the cut lands on a character boundary the expression is cut
    // short of its true end.
    assert_eq!(
        split_next_expr("(\u{e9}) x"),
        Some(Ok(("(\u{e9}".to_string(), ") x".to_string())))
    );
    assert_eq!(parse_next_expr("(\u{e9}) x"), Err("Unclosed parenthesis".to_string()));
}

#[test]
fn parse_next_expr_reads_and_returns_the_rest() {
    let (v, rest) = parse_next_expr("\n(cons 1 2)\n(cons 3 4)\n").unwrap();
    assert_eq!(v.to_string(), "(cons 1 2)");
    assert_eq!(rest, "\n(cons 3 4)\n");
    assert_eq!(parse_next_expr(""), Err("No expression found".to_string()));
    // An atom that is a closing parenthesis reads as an error.
    assert_eq!(parse_next_expr(")"), Err("Unexpected )".to_string()));
}

// The programs of the file runner, read (not evaluated).

#[test]
fn program_multiple_expressions() {
    assert_eq!(
        read_program("\n(cons 1 2)\n(cons 3 4)\n(cons 5 6)\n"),
        Ok(vec!["(cons 1 2)".to_string(), "(cons 3 4)".to_string(), "(cons 5 6)".to_string()])
    );
}

#[test]
fn program_strings_with_delimiters() {
    assert_eq!(
        read_program("\n(println \"hello (world)\")\n(cons 1 2)\n"),
        Ok(vec!["(println \"hello (world)\")".to_string(), "(cons 1 2)".to_string()])
    );
    assert_eq!(
        read_program("\n(println \"test <<vector>>\")\n(cons 1 2)\n"),
        Ok(vec!["(println \"test <<vector>>\")".to_string(), "(cons 1 2)".to_string()])
    );
}

#[test]
fn program_comments() {
    assert_eq!(
        read_program("\n; This is a comment\n(cons 1 2) ; inline comment\n; Another comment\n(cons 3 4)\n"),
        Ok(vec!["(cons 1 2)".to_string(), "(cons 3 4)".to_string()])
    );
    assert_eq!(
        read_program("\n(cons\n  ; first arg\n  1\n  ; second arg\n  2)\n"),
        Ok(vec!["(cons 1 2)".to_string()])
    );
    assert_eq!(
        read_program("\n(cons 1 2) ; this works\n; final value\n100\n"),
        Ok(vec!["(cons 1 2)".to_string(), "100".to_string()])
    );
}

#[test]
fn program_comment_only_is_an_error() {
    assert_eq!(
        read_program("\n; Just comments\n; Nothing else\n"),
        Err("No expression found".to_string())
    );
}

#[test]
fn program_empty_and_blank() {
    assert_eq!(read_program(""), Ok(vec![]));
    assert_eq!(read_program("\n   "), Ok(vec![]));
}

#[test]
fn program_multiline_and_escaped_strings() {
    assert_eq!(
        read_program("\n(println \"line1\nline2\nline3\")\n42\n"),
        Ok(vec!["(println \"line1\\nline2\\nline3\")".to_string(), "42".to_string()])
    );
    assert_eq!(
        read_program("\n(println \"She said \\\"hello\\\"\")\n100\n"),
        Ok(vec!["(println \"She said \\\"hello\\\"\")".to_string(), "100".to_string()])
    );
    assert_eq!(
        read_program("\n(println \"path\\\\to\\\\file\")\n42\n"),
        Ok(vec!["(println \"path\\\\to\\\\file\")".to_string(), "42".to_string()])
    );
}

#[test]
fn program_quotes_vectors_and_nesting() {
    assert_eq!(
        read_program("\n(quote (1 2 3))\n(quote (a b c))\n"),
        Ok(vec!["(quote (1 2 3))".to_string(), "(quote (a b c))".to_string()])
    );
    assert_eq!(
        read_program("\n<<1 2 3>>\n<<4 5 6>>\n"),
        Ok(vec!["<<1 2 3>>".to_string(), "<<4 5 6>>".to_string()])
    );
    assert_eq!(
        read_program("\n(cons (cons 1 2) (cons 3 4))\n"),
        Ok(vec!["(cons (cons 1 2) (cons 3 4))".to_string()])
    );
    assert_eq!(
        read_program("\n42\n100\n200\n"),
        Ok(vec!["42".to_string(), "100".to_string(), "200".to_string()])
    );
}

#[test]
fn program_read_errors() {
    let err = read_program("(cons 1 2").unwrap_err();
    assert!(err.contains("Unclosed") || err.contains("parenthesis"));
    let err = read_program("(println \"hello)").unwrap_err();
    assert!(err.contains("Unclosed") || err.contains("string"));
    // The extra closing parenthesis is read as an expression of its own.
    assert_eq!(read_program("(cons 1 2))"), Err("Unexpected )".to_string()));
}

#[test]
fn program_raw_string_text_fails_to_read() {
    // `r"..."` is no syntax of the language: the text is cut at the first
    // blank into `r"raw`, whose symbol `r` is followed by an unterminated
    // string.
    assert_eq!(
        read_program("\nr\"raw string (with) parens\"\n(cons 1 2)\n"),
        Err("Unterminated string".to_string())
    );
    // With hashes the cut text `r#"raw` is the symbol `r` before a `#`,
    // which starts no string.
    assert_eq!(
        read_program("\nr#\"raw string with \"quotes\"\"#\n(cons 1 2)\n"),
        Err("Not a string".to_string())
    );
}

// ---------------------------------------------------------------------------
// Definitions
// ---------------------------------------------------------------------------

#[test]
fn definitions() {
    assert!(is_definition_expr(&parse("(label identity (lambda (x) x))").unwrap()));
    assert!(is_definition_expr(&parse("(defmacro when (c b) b)").unwrap()));
    assert!(!is_definition_expr(&parse("(identity 42)").unwrap()));
    assert!(!is_definition_expr(&parse("label").unwrap()));
    assert!(!is_definition_expr(&parse("((label) x)").unwrap()));
}

#[test]
fn checked_reading_of_the_next_expression() {
    match parse_next_expr_checked(" (a b) c") {
        Some(Ok((v, rest))) => {
            assert_eq!(v.to_string(), "(a b)");
            assert_eq!(rest, " c");
        }
        other => panic!("unexpected {:?}", other.map(|r| r.map(|(v, s)| (v.to_string(), s)))),
    }
    assert_eq!(
        parse_next_expr_checked(")").map(|r| r.map(|(v, s)| (v.to_string(), s))),
        Some(Err("Unexpected )".to_string()))
    );
    // The cut falls inside a character.
    assert!(parse_next_expr_checked("(\u{20AC}) x").is_none());
    // Reading the expression's text would never finish.
    assert!(parse_next_expr_checked("(@) x").is_none());
}
