use consair::jit::{is_pure_expression, CacheConfig, CacheStats, JitError, JitErrorKind};
use consair::parser::parse;
use consair::jit::ResultCache;
use consair::runtime::RuntimeValue;
use std::hash::{Hash, Hasher};

// ---------------------------------------------------------------------------
// Constructors and display
// ---------------------------------------------------------------------------

#[test]
fn error_test_jit_error_display() {
    let err = JitError::unsupported("test feature");
    assert_eq!(err.to_string(), "test feature");
}

#[test]
fn error_test_jit_error_with_suggestion() {
    let err = JitError::unsupported("BigInt").with_suggestion("use integers within i64 range");
    assert!(err.to_string().contains("use integers"));
}

#[test]
fn test_jit_error_kind() {
    let err = JitError::unbound("x");
    assert_eq!(err.kind, JitErrorKind::UnboundVariable);
}

#[test]
fn error_test_jit_error_into_string() {
    let err = JitError::syntax("missing parenthesis");
    let s: String = err.into_string();
    assert!(s.contains("missing parenthesis"));
}

#[test]
fn test_jit_error_unsupported() {
    let err = JitError::unsupported("macros");
    assert_eq!(err.kind, JitErrorKind::UnsupportedExpression);
    assert_eq!(err.message, "macros");
}

#[test]
fn test_jit_error_unsupported_type() {
    let err = JitError::unsupported_type("BigInt");
    assert_eq!(err.kind, JitErrorKind::UnsupportedType);
}

#[test]
fn test_jit_error_compilation() {
    let err = JitError::compilation("LLVM verification failed");
    assert_eq!(err.kind, JitErrorKind::CompilationError);
}

#[test]
fn test_jit_error_execution() {
    let err = JitError::execution("segmentation fault");
    assert_eq!(err.kind, JitErrorKind::ExecutionError);
}

#[test]
fn test_jit_error_creation() {
    let err = JitError::new(JitErrorKind::UnsupportedExpression, "test error");
    assert_eq!(err.kind, JitErrorKind::UnsupportedExpression);
    assert_eq!(err.message, "test error");
    assert!(err.expression.is_none());
    assert!(err.suggestion.is_none());
}

#[test]
fn test_jit_error_with_expression() {
    let expr = parse("(+ 1 2)").unwrap();
    let err = JitError::unsupported("test").with_expression(&expr);
    assert!(err.expression.is_some());
    assert!(err.expression.as_ref().unwrap().contains("+"));
}

#[test]
fn engine_test_jit_error_with_suggestion() {
    let err = JitError::unsupported("test").with_suggestion("try something else");
    assert_eq!(err.suggestion.as_ref().unwrap(), "try something else");
}

#[test]
fn engine_test_jit_error_display() {
    let err = JitError::unsupported("JIT does not support BigInt");
    assert_eq!(err.to_string(), "JIT does not support BigInt");

    let expr = parse("(+ 1 2)").unwrap();
    let err_with_expr = JitError::unsupported("test error").with_expression(&expr);
    let display = err_with_expr.to_string();
    assert!(display.contains("test error"));
    assert!(display.contains("in:"));
}

#[test]
fn test_jit_error_display_with_suggestion() {
    let err = JitError::unsupported("test").with_suggestion("use interpreter instead");
    let display = err.to_string();
    assert!(display.contains("test"));
    assert!(display.contains("use interpreter instead"));
}

#[test]
fn test_jit_error_helpers() {
    let err = JitError::unsupported_type("BigInt");
    assert_eq!(err.kind, JitErrorKind::UnsupportedType);

    let err = JitError::syntax("missing argument");
    assert_eq!(err.kind, JitErrorKind::InvalidSyntax);

    let err = JitError::unbound("foo");
    assert_eq!(err.kind, JitErrorKind::UnboundVariable);
    assert!(err.message.contains("foo"));

    let err = JitError::compilation("LLVM error");
    assert_eq!(err.kind, JitErrorKind::CompilationError);

    let err = JitError::execution("runtime panic");
    assert_eq!(err.kind, JitErrorKind::ExecutionError);
}

#[test]
fn engine_test_jit_error_into_string() {
    let err = JitError::unsupported("test message");
    let s: String = err.into_string();
    assert_eq!(s, "test message");
}

#[test]
fn test_jit_error_truncates_long_expression() {
    // Create a very long expression
    let long_expr = format!("(+ {} 1)", "1 ".repeat(100));
    let expr = parse(&long_expr).unwrap();
    let err = JitError::unsupported("test").with_expression(&expr);
    let display = err.to_string();
    assert!(display.contains("..."));
    assert!(display.len() < 200); // Should be truncated
}

#[test]
fn jit_error_exact_display() {
    let expr = parse("(+ 1 2)").unwrap();
    let err = JitError::syntax("bad form")
        .with_expression(&expr)
        .with_suggestion("check the arguments");
    assert_eq!(err.to_string(), "bad form in: (+ 1 2) (check the arguments)");
    assert_eq!(JitError::unbound("y").message, "Unbound symbol: y");
}

#[test]
fn jit_error_truncation_boundary() {
    // An expression printing as exactly 60 bytes is shown whole.
    let sixty = format!("({})", "a".repeat(58));
    let expr = parse(&sixty).unwrap();
    let shown = JitError::unsupported("m").with_expression(&expr).to_string();
    assert_eq!(shown, format!("m in: {sixty}"));

    // One byte more and the first 57 bytes are shown, then "...".
    let sixty_one = format!("({})", "a".repeat(59));
    let expr = parse(&sixty_one).unwrap();
    let shown = JitError::unsupported("m").with_expression(&expr).to_string();
    assert_eq!(shown, format!("m in: {}...", &sixty_one[..57]));
}

// ---------------------------------------------------------------------------
// Caching
// ---------------------------------------------------------------------------

#[test]
fn test_is_pure_expression() {
    // Pure expressions
    assert!(is_pure_expression(&parse("42").unwrap()));
    assert!(is_pure_expression(&parse("3.14").unwrap()));
    assert!(is_pure_expression(&parse("\"hello\"").unwrap()));
    assert!(is_pure_expression(&parse("(+ 1 2)").unwrap()));
    assert!(is_pure_expression(&parse("(* (+ 1 2) (- 5 3))").unwrap()));
    assert!(is_pure_expression(&parse("(cons 1 2)").unwrap()));
    assert!(is_pure_expression(&parse("'(1 2 3)").unwrap()));

    // Non-pure expressions (contain symbols)
    assert!(!is_pure_expression(&parse("x").unwrap()));
    assert!(!is_pure_expression(&parse("(+ x 1)").unwrap()));
    assert!(!is_pure_expression(&parse("(foo 1 2)").unwrap())); // Unknown function
}

#[test]
fn cache_defaults() {
    let c = CacheConfig::default();
    assert!(c.enabled);
    assert_eq!(c.max_entries, 1000);
    let s = CacheStats::default();
    assert_eq!((s.hits, s.misses, s.compilations_avoided), (0, 0, 0));
}

// ---------------------------------------------------------------------------
// The result cache
// ---------------------------------------------------------------------------

fn std_hash_of_text(text: &str) -> u64 {
    let mut hasher = std::collections::hash_map::DefaultHasher::new();
    text.to_string().hash(&mut hasher);
    hasher.finish()
}

#[test]
fn expression_hash_is_the_hash_of_the_printed_form() {
    for src in ["(+ 1 2)", "42", "\"h\u{e9}llo\"", "<<1 2 (a b)>>", "nil"] {
        let expr = parse(src).unwrap();
        assert_eq!(
            consair::jit::hash_expression(&expr),
            std_hash_of_text(&expr.to_string()),
            "{src}"
        );
    }
    let a = parse("(+ 1 2)").unwrap();
    let b = parse("(+  1   2)").unwrap();
    assert_eq!(consair::jit::hash_expression(&a), consair::jit::hash_expression(&b));
}

#[test]
fn cache_hits_misses_and_limit() {
    let mut cache = ResultCache::with_config(CacheConfig { enabled: true, max_entries: 2 });
    let pure = parse("(+ 1 2)").unwrap();
    let key = cache.cache_key(&pure).unwrap();
    assert_eq!(key, consair::jit::hash_expression(&pure));
    assert!(cache.cache_key(&parse("(+ x 1)").unwrap()).is_none());

    assert_eq!(cache.lookup(key), None);
    cache.record(key, RuntimeValue::from_int(3));
    assert_eq!(cache.lookup(key), Some(RuntimeValue::from_int(3)));
    let s = cache.cache_stats();
    assert_eq!((s.hits, s.misses, s.compilations_avoided), (1, 1, 1));

    // Two entries fit; a third is not kept.
    cache.record(11, RuntimeValue::from_int(11));
    cache.record(12, RuntimeValue::from_int(12));
    assert_eq!(cache.lookup(11), Some(RuntimeValue::from_int(11)));
    assert_eq!(cache.lookup(12), None);
    assert_eq!(cache.cache_stats().misses, 3);

    cache.clear_cache();
    assert_eq!(cache.lookup(key), None);
    assert_eq!(cache.cache_stats().hits, 2);

    let disabled = ResultCache::with_config(CacheConfig { enabled: false, max_entries: 10 });
    assert!(disabled.cache_key(&pure).is_none());
}
