//! Errors of the compiler, and the cache of results of pure expressions:
//! which expressions are pure, the hash they are cached under, and the
//! cache with its limit and statistics.

use std::collections::hash_map::DefaultHasher;
use std::collections::HashMap;
use std::hash::Hasher;

use vstd::prelude::*;
use vstd::std_specs::hash::DefaultHasherAdditionalSpecFns;
use vstd::utf8::encode_utf8;

use crate::language::{AtomType, SymbolType, Value, ValueModel, display, entries_model, values_model};
use crate::runtime::RuntimeValue;
use crate::text::{char_count_in_bytes, chars_in_bytes, chars_of, utf8_len, utf8_length, string_from_chars};

verus! {

// ============================================================================
// Errors
// ============================================================================

/// Categories of JIT compilation errors.
#[derive(Debug, Clone, Copy, PartialEq, Eq, Structural)]
pub enum JitErrorKind {
    /// Expression type not yet supported by the JIT compiler
    UnsupportedExpression,
    /// Data type not supported (e.g., BigInt, BigRatio)
    UnsupportedType,
    /// Malformed expression structure
    InvalidSyntax,
    /// Reference to undefined variable
    UnboundVariable,
    /// LLVM compilation failure
    CompilationError,
    /// Runtime execution failure
    ExecutionError,
}

/// A JIT compilation or execution error with context.
#[derive(Debug, Clone)]
pub struct JitError {
    /// The category of error
    pub kind: JitErrorKind,
    /// Human-readable error message
    pub message: String,
    /// The expression that caused the error (if available)
    pub expression: Option<String>,
    /// Suggestion for how to fix or work around the error
    pub suggestion: Option<String>,
}

/// How an expression is shown in an error: as it is when its UTF-8
/// encoding takes at most 60 bytes, else its first 57 bytes and `...`.
pub open spec fn shown_expression(x: Seq<char>) -> Seq<char> {
    if utf8_len(x) > 60 {
        x.take(chars_in_bytes(x, 57)->Some_0) + "..."@
    } else {
        x
    }
}

/// Shortening the shown expression cuts on a character boundary.
pub open spec fn expression_cut_ok(x: Seq<char>) -> bool {
    utf8_len(x) > 60 ==> chars_in_bytes(x, 57) is Some
}

impl JitError {
    /// Whether the error can be shown: its expression, when too long to
    /// show whole, is cut on a character boundary.
    pub open spec fn displayable(&self) -> bool {
        self.expression matches Some(x) ==> expression_cut_ok(x@)
    }

    /// The text shown for the error: the message, then ` in: ` and the
    /// (shortened) expression when there is one, then the suggestion in
    /// parentheses when there is one.
    pub open spec fn spec_display(&self) -> Seq<char> {
        self.message@ + match self.expression {
            Some(x) => " in: "@ + shown_expression(x@),
            None => Seq::empty(),
        } + match self.suggestion {
            Some(s) => " ("@ + s@ + ")"@,
            None => Seq::empty(),
        }
    }

    /// Create a new JIT error.
    pub fn new(kind: JitErrorKind, message: &str) -> (r: Self)
        ensures
            r.kind == kind,
            r.message@ == message@,
            r.expression is None,
            r.suggestion is None,
    {
        JitError { kind, message: String::from_str(message), expression: None, suggestion: None }
    }

    /// Add expression context to the error.
    pub fn with_expression(self, expr: &Value) -> (r: Self)
        ensures
            r.kind == self.kind,
            r.message == self.message,
            r.suggestion == self.suggestion,
            r.expression matches Some(x) && x@ == display(expr@),
    {
        let mut s = self;
        s.expression = Some(expr.to_string());
        s
    }

    /// Add a suggestion for fixing the error.
    pub fn with_suggestion(self, suggestion: &str) -> (r: Self)
        ensures
            r.kind == self.kind,
            r.message == self.message,
            r.expression == self.expression,
            r.suggestion matches Some(x) && x@ == suggestion@,
    {
        let mut s = self;
        s.suggestion = Some(String::from_str(suggestion));
        s
    }

    /// Create an unsupported expression error.
    pub fn unsupported(what: &str) -> (r: Self)
        ensures
            r.kind == JitErrorKind::UnsupportedExpression,
            r.message@ == what@,
            r.expression is None,
            r.suggestion is None,
    {
        Self::new(JitErrorKind::UnsupportedExpression, what)
    }

    /// Create an unsupported type error.
    pub fn unsupported_type(what: &str) -> (r: Self)
        ensures
            r.kind == JitErrorKind::UnsupportedType,
            r.message@ == what@,
            r.expression is None,
            r.suggestion is None,
    {
        Self::new(JitErrorKind::UnsupportedType, what)
    }

    /// Create an invalid syntax error.
    pub fn syntax(what: &str) -> (r: Self)
        ensures
            r.kind == JitErrorKind::InvalidSyntax,
            r.message@ == what@,
            r.expression is None,
            r.suggestion is None,
    {
        Self::new(JitErrorKind::InvalidSyntax, what)
    }

    /// Create an unbound variable error.
    pub fn unbound(name: &str) -> (r: Self)
        ensures
            r.kind == JitErrorKind::UnboundVariable,
            r.message@ == "Unbound symbol: "@ + name@,
            r.expression is None,
            r.suggestion is None,
    {
        let mut m = String::from_str("Unbound symbol: ");
        m.append(name);
        JitError { kind: JitErrorKind::UnboundVariable, message: m, expression: None, suggestion: None }
    }

    /// Create a compilation error.
    pub fn compilation(what: &str) -> (r: Self)
        ensures
            r.kind == JitErrorKind::CompilationError,
            r.message@ == what@,
            r.expression is None,
            r.suggestion is None,
    {
        Self::new(JitErrorKind::CompilationError, what)
    }

    /// Create an execution error.
    pub fn execution(what: &str) -> (r: Self)
        ensures
            r.kind == JitErrorKind::ExecutionError,
            r.message@ == what@,
            r.expression is None,
            r.suggestion is None,
    {
        Self::new(JitErrorKind::ExecutionError, what)
    }

    /// The text shown for the error.
    pub fn to_string(&self) -> (r: String)
        requires
            self.displayable(),
        ensures
            r@ == self.spec_display(),
    {
        let mut out = self.message.clone();
        match &self.expression {
            Some(expr) => {
                out.append(" in: ");
                let chars = chars_of(expr.as_str());
                if utf8_length(&chars) > 60 {
                    let k = char_count_in_bytes(&chars, 57).unwrap();
                    proof {
                        crate::text::lemma_chars_in_bytes_bound(chars@, 57);
                    }
                    let head = string_from_chars(&chars, 0, k);
                    out.append(head.as_str());
                    out.append("...");
                } else {
                    out.append(expr.as_str());
                }
            },
            None => {},
        }
        match &self.suggestion {
            Some(s) => {
                out.append(" (");
                out.append(s.as_str());
                out.append(")");
            },
            None => {},
        }
        assert(out@ =~= self.spec_display());
        out
    }

    /// The error as text (what converting it into a `String` gives).
    pub fn into_string(self) -> (r: String)
        requires
            self.displayable(),
        ensures
            r@ == self.spec_display(),
    {
        self.to_string()
    }
}

// ============================================================================
// Caching
// ============================================================================

/// Configuration for JIT compilation caching.
#[derive(Clone, Debug)]
pub struct CacheConfig {
    /// Enable caching of pure expression results
    pub enabled: bool,
    /// Maximum number of entries in the cache
    pub max_entries: usize,
}

impl Default for CacheConfig {
    fn default() -> (r: Self)
        ensures
            r.enabled,
            r.max_entries == 1000,
    {
        CacheConfig { enabled: true, max_entries: 1000 }
    }
}

/// Statistics about JIT cache usage.
#[derive(Clone, Debug)]
pub struct CacheStats {
    /// Number of cache hits
    pub hits: usize,
    /// Number of cache misses
    pub misses: usize,
    /// Number of compilations avoided
    pub compilations_avoided: usize,
}

impl Default for CacheStats {
    fn default() -> (r: Self)
        ensures
            r.hits == 0,
            r.misses == 0,
            r.compilations_avoided == 0,
    {
        CacheStats { hits: 0, misses: 0, compilations_avoided: 0 }
    }
}

/// Operators without side effects.
pub open spec fn pure_ops() -> Seq<Seq<char>> {
    seq![
        "+"@, "-"@, "*"@, "/"@, "="@, "<"@, ">"@, "<="@, ">="@, "eq"@, "atom"@, "nil?"@,
        "number?"@, "cons?"@, "not"@, "cons"@, "car"@, "cdr"@, "cond"@, "vector"@,
        "vector-length"@, "vector-ref"@, "length"@, "append"@, "reverse"@, "nth"@, "t"@, "nil"@,
    ]
}

/// An expression is pure when evaluating it has no side effects and reads
/// no variables: a constant; a quoted form; a call of a pure operator whose
/// arguments are pure; a vector of pure elements.
pub open spec fn spec_pure(v: ValueModel) -> bool
    decreases v, 1nat,
{
    match v {
        ValueModel::Nil | ValueModel::Number(_) | ValueModel::Str(_) | ValueModel::Bool(_) => true,
        ValueModel::Symbol(_) => false,
        ValueModel::Cons(a, d) => match *a {
            ValueModel::Symbol(name) => if name == "quote"@ {
                true
            } else if pure_ops().contains(name) {
                args_pure(*d)
            } else {
                false
            },
            _ => false,
        },
        ValueModel::Vector(items) => all_pure(items),
        ValueModel::HashMap(entries) => all_pure_entries(entries),
        ValueModel::HashSet(items) => all_pure(items),
        ValueModel::Reduced(inner) => spec_pure(*inner),
        ValueModel::Lambda(_, _, _) | ValueModel::Macro(_, _, _) | ValueModel::NativeFn(_) => false,
    }
}

/// All cars along a chain of cons cells are pure.
pub open spec fn args_pure(d: ValueModel) -> bool
    decreases d, 0nat,
{
    match d {
        ValueModel::Cons(a, rest) => spec_pure(*a) && args_pure(*rest),
        _ => true,
    }
}

pub open spec fn all_pure(items: Seq<ValueModel>) -> bool
    decreases items, 0nat,
{
    if items.len() == 0 {
        true
    } else {
        all_pure(items.drop_last()) && spec_pure(items.last())
    }
}

/// Every key and value of the entries is pure.
pub open spec fn all_pure_entries(entries: Seq<(ValueModel, ValueModel)>) -> bool
    decreases entries, 0nat,
{
    if entries.len() == 0 {
        true
    } else {
        all_pure_entries(entries.drop_last()) && spec_pure(entries.last().0) && spec_pure(
            entries.last().1,
        )
    }
}

fn is_pure_op(name: &String) -> (r: bool)
    ensures
        r == pure_ops().contains(name@),
{
    let ops: [&str; 28] = [
        "+",
        "-",
        "*",
        "/",
        "=",
        "<",
        ">",
        "<=",
        ">=",
        "eq",
        "atom",
        "nil?",
        "number?",
        "cons?",
        "not",
        "cons",
        "car",
        "cdr",
        "cond",
        "vector",
        "vector-length",
        "vector-ref",
        "length",
        "append",
        "reverse",
        "nth",
        "t",
        "nil",
    ];
    let mut i: usize = 0;
    while i < 28
        invariant
            i <= 28,
            forall|j: int| 0 <= j < 28 ==> (#[trigger] ops@[j])@ == pure_ops()[j],
            forall|j: int| 0 <= j < i ==> pure_ops()[j] != name@,
        decreases 28 - i,
    {
        if name.eq(&String::from_str(ops[i])) {
            assert(pure_ops()[i as int] == name@);
            return true;
        }
        i += 1;
    }
    false
}

/// Check if an expression is pure (no side effects, no free variables).
/// Pure expressions can have their results cached.
#[verifier::loop_isolation(false)]
pub fn is_pure_expression(expr: &Value) -> (r: bool)
    ensures
        r == spec_pure(expr@),
    decreases expr, 1nat,
{
    proof {
        reveal_with_fuel(crate::language::value_model, 2);
    }
    match expr {
        Value::Nil => true,
        Value::Atom(AtomType::Symbol(_)) => false,
        Value::Atom(_) => true,
        Value::Cons(cell) => {
            if let Value::Atom(AtomType::Symbol(SymbolType::Symbol(name))) = &cell.car {
                if name.eq(&String::from_str("quote")) {
                    return true;
                }
                if is_pure_op(name) {
                    return args_are_pure(&cell.cdr);
                }
            }
            false
        },
        Value::Vector(v) => {
            let ghost items = v.elements@;
            proof {
                crate::language::lemma_values_model(items);
            }
            let mut i: usize = 0;
            while i < v.elements.len()
                invariant
                    items == v.elements@,
                    i <= items.len(),
                    values_model(items).len() == items.len(),
                    forall|j: int|
                        0 <= j < items.len() ==> values_model(items)[j]
                            == crate::language::value_model(#[trigger] items[j]),
                    all_pure(values_model(items).take(i as int)),
                decreases items.len() - i,
            {
                proof {
                    assert(decreases_to!(*expr => **v));
                    assert(decreases_to!(**v => v.elements));
                    assert(decreases_to!(v.elements => v.elements@));
                    assert(decreases_to!(v.elements@ => v.elements@[i as int]));
                }
                let ghost ms = values_model(items);
                assert(ms.take(i + 1).drop_last() =~= ms.take(i as int));
                if !is_pure_expression(&v.elements[i]) {
                    proof {
                        lemma_all_pure_prefix(ms, i + 1);
                    }
                    return false;
                }
                i += 1;
            }
            assert(values_model(items).take(items.len() as int) =~= values_model(items));
            true
        },
        Value::HashSet(v) => {
            let ghost items = v.elements@;
            proof {
                crate::language::lemma_values_model(items);
            }
            let mut i: usize = 0;
            while i < v.elements.len()
                invariant
                    items == v.elements@,
                    i <= items.len(),
                    values_model(items).len() == items.len(),
                    forall|j: int|
                        0 <= j < items.len() ==> values_model(items)[j]
                            == crate::language::value_model(#[trigger] items[j]),
                    all_pure(values_model(items).take(i as int)),
                decreases items.len() - i,
            {
                proof {
                    assert(decreases_to!(*expr => **v));
                    assert(decreases_to!(**v => v.elements));
                    assert(decreases_to!(v.elements => v.elements@));
                    assert(decreases_to!(v.elements@ => v.elements@[i as int]));
                }
                let ghost ms = values_model(items);
                assert(ms.take(i + 1).drop_last() =~= ms.take(i as int));
                if !is_pure_expression(&v.elements[i]) {
                    proof {
                        lemma_all_pure_prefix(ms, i + 1);
                    }
                    return false;
                }
                i += 1;
            }
            assert(values_model(items).take(items.len() as int) =~= values_model(items));
            true
        },
        Value::HashMap(m) => {
            let ghost items = m.entries@;
            proof {
                crate::language::lemma_entries_model(items);
            }
            let mut i: usize = 0;
            while i < m.entries.len()
                invariant
                    items == m.entries@,
                    i <= items.len(),
                    entries_model(items).len() == items.len(),
                    forall|j: int|
                        0 <= j < items.len() ==> #[trigger] entries_model(items)[j] == (
                            crate::language::value_model(items[j].0),
                            crate::language::value_model(items[j].1),
                        ),
                    all_pure_entries(entries_model(items).take(i as int)),
                decreases items.len() - i,
            {
                proof {
                    assert(decreases_to!(*expr => **m));
                    assert(decreases_to!(**m => m.entries));
                    assert(decreases_to!(m.entries => m.entries@));
                    assert(decreases_to!(m.entries@ => m.entries@[i as int]));
                    assert(decreases_to!(m.entries@[i as int] => m.entries@[i as int].0));
                    assert(decreases_to!(m.entries@[i as int] => m.entries@[i as int].1));
                }
                let ghost ms = entries_model(items);
                assert(ms.take(i + 1).drop_last() =~= ms.take(i as int));
                assert(ms[i as int] == (
                    crate::language::value_model(items[i as int].0),
                    crate::language::value_model(items[i as int].1),
                ));
                if !(is_pure_expression(&m.entries[i].0) && is_pure_expression(&m.entries[i].1)) {
                    proof {
                        lemma_all_pure_entries_prefix(ms, i + 1);
                    }
                    return false;
                }
                i += 1;
            }
            assert(entries_model(items).take(items.len() as int) =~= entries_model(items));
            true
        },
        Value::Reduced(inner) => is_pure_expression(inner),
        Value::Lambda(_) | Value::Macro(_) | Value::NativeFn(_) => false,
    }
}

proof fn lemma_all_pure_entries_prefix(items: Seq<(ValueModel, ValueModel)>, k: int)
    requires
        0 <= k <= items.len(),
        !all_pure_entries(items.take(k)),
    ensures
        !all_pure_entries(items),
    decreases items.len() - k,
{
    if k < items.len() {
        assert(items.take(k + 1).drop_last() =~= items.take(k));
        lemma_all_pure_entries_prefix(items, k + 1);
    } else {
        assert(items.take(k) =~= items);
    }
}

proof fn lemma_all_pure_prefix(items: Seq<ValueModel>, k: int)
    requires
        0 <= k <= items.len(),
        !all_pure(items.take(k)),
    ensures
        !all_pure(items),
    decreases items.len() - k,
{
    if k < items.len() {
        assert(items.take(k + 1).drop_last() =~= items.take(k));
        lemma_all_pure_prefix(items, k + 1);
    } else {
        assert(items.take(k) =~= items);
    }
}

fn args_are_pure(d: &Value) -> (r: bool)
    ensures
        r == args_pure(d@),
    decreases d, 0nat,
{
    match d {
        Value::Cons(cell) => is_pure_expression(&cell.car) && args_are_pure(&cell.cdr),
        _ => true,
    }
}

// ============================================================================
// The result cache
// ============================================================================

/// The hash under which a pure expression's result is cached: the default
/// hasher fed the expression's printed form the way a `String` feeds it
/// (its UTF-8 bytes, then the byte `0xFF`).
pub open spec fn spec_expression_hash(v: ValueModel) -> u64 {
    DefaultHasher::spec_finish(seq![encode_utf8(display(v)), seq![0xffu8]])
}

/// Compute a hash of an expression for cache lookup.
pub fn hash_expression(expr: &Value) -> (r: u64)
    ensures
        r == spec_expression_hash(expr@),
{
    let text = expr.to_string();
    let bytes = text.as_str().as_bytes();
    let mut hasher = DefaultHasher::new();
    hasher.write(bytes);
    let end: [u8; 1] = [0xff];
    hasher.write(&end);
    assert(end@ =~= seq![0xffu8]);
    assert(bytes@ == encode_utf8(display(expr@)));
    assert(hasher@ =~= seq![encode_utf8(display(expr@)), seq![0xffu8]]);
    hasher.finish()
}

/// The cache's contents after recording `v` under `k`: recorded while there
/// is room, else unchanged.
pub open spec fn after_record(
    c: Map<u64, (u8, u64)>,
    max_entries: usize,
    k: u64,
    v: (u8, u64),
) -> Map<u64, (u8, u64)> {
    if c.len() < max_entries {
        c.insert(k, v)
    } else {
        c
    }
}

/// The results of pure expressions, keyed by the hash of their printed
/// form, with the statistics of its use. It never holds more entries than
/// its configuration allows.
pub struct ResultCache {
    config: CacheConfig,
    entries: HashMap<u64, (u8, u64)>,
    stats: CacheStats,
}

impl ResultCache {
    #[verifier::type_invariant]
    spec fn within_limit(self) -> bool {
        self.entries@.len() <= self.config.max_entries
    }

    /// The cached results.
    pub closed spec fn contents(self) -> Map<u64, (u8, u64)> {
        self.entries@
    }

    /// How the cache was configured.
    pub closed spec fn spec_config(self) -> CacheConfig {
        self.config
    }

    /// The statistics so far.
    pub closed spec fn spec_stats(self) -> CacheStats {
        self.stats
    }

    /// An empty cache with the given configuration.
    pub fn with_config(config: CacheConfig) -> (r: Self)
        ensures
            r.contents() == Map::<u64, (u8, u64)>::empty(),
            r.contents().len() <= r.spec_config().max_entries,
            r.spec_config() == config,
            r.spec_stats() == (CacheStats { hits: 0, misses: 0, compilations_avoided: 0 }),
    {
        let entries: HashMap<u64, (u8, u64)> = HashMap::new();
        ResultCache {
            config,
            entries,
            stats: CacheStats { hits: 0, misses: 0, compilations_avoided: 0 },
        }
    }

    /// Get cache statistics.
    pub fn cache_stats(&self) -> (r: CacheStats)
        ensures
            r == self.spec_stats(),
            self.contents().len() <= self.spec_config().max_entries,
    {
        proof {
            use_type_invariant(self);
        }
        CacheStats {
            hits: self.stats.hits,
            misses: self.stats.misses,
            compilations_avoided: self.stats.compilations_avoided,
        }
    }

    /// Clear the result cache.
    pub fn clear_cache(&mut self)
        ensures
            final(self).contents() == Map::<u64, (u8, u64)>::empty(),
            final(self).spec_config() == old(self).spec_config(),
            final(self).spec_stats() == old(self).spec_stats(),
    {
        broadcast use vstd::std_specs::hash::group_hash_axioms;

        self.entries = HashMap::new();
    }

    /// The key under which the result of `expr` is cached: its hash when
    /// caching is enabled and the expression is pure, else `None` (the
    /// expression is compiled without the cache).
    pub fn cache_key(&self, expr: &Value) -> (r: Option<u64>)
        ensures
            r == (if self.spec_config().enabled && spec_pure(expr@) {
                Some(spec_expression_hash(expr@))
            } else {
                None
            }),
    {
        if self.config.enabled && is_pure_expression(expr) {
            Some(hash_expression(expr))
        } else {
            None
        }
    }

    /// The cached result under `key`, counted as a hit (and a compilation
    /// avoided); `None` when nothing is cached there.
    pub fn lookup(&mut self, key: u64) -> (r: Option<RuntimeValue>)
        requires
            old(self).spec_stats().hits < usize::MAX,
            old(self).spec_stats().compilations_avoided < usize::MAX,
        ensures
            final(self).contents() == old(self).contents(),
            final(self).spec_config() == old(self).spec_config(),
            match r {
                Some(v) => old(self).contents().contains_key(key) && old(self).contents()[key] == (
                    v.tag,
                    v.data,
                ) && final(self).spec_stats() == (CacheStats {
                    hits: (old(self).spec_stats().hits + 1) as usize,
                    misses: old(self).spec_stats().misses,
                    compilations_avoided: (old(self).spec_stats().compilations_avoided
                        + 1) as usize,
                }),
                None => !old(self).contents().contains_key(key) && final(self).spec_stats() == old(
                    self,
                ).spec_stats(),
            },
    {
        broadcast use vstd::std_specs::hash::group_hash_axioms;

        proof {
            use_type_invariant(&*self);
        }
        match self.entries.get(&key) {
            Some(entry) => {
                let (tag, data) = *entry;
                self.stats.hits = self.stats.hits + 1;
                self.stats.compilations_avoided = self.stats.compilations_avoided + 1;
                Some(RuntimeValue { tag, data })
            },
            None => None,
        }
    }

    /// Records the result of a compiled pure expression under `key` while
    /// there is room, and counts a miss.
    pub fn record(&mut self, key: u64, result: RuntimeValue)
        requires
            old(self).spec_stats().misses < usize::MAX,
        ensures
            final(self).contents() == after_record(
                old(self).contents(),
                old(self).spec_config().max_entries,
                key,
                (result.tag, result.data),
            ),
            final(self).spec_config() == old(self).spec_config(),
            final(self).contents().len() <= final(self).spec_config().max_entries,
            final(self).spec_stats() == (CacheStats {
                hits: old(self).spec_stats().hits,
                misses: (old(self).spec_stats().misses + 1) as usize,
                compilations_avoided: old(self).spec_stats().compilations_avoided,
            }),
    {
        broadcast use vstd::std_specs::hash::group_hash_axioms;

        proof {
            use_type_invariant(&*self);
        }
        if self.entries.len() < self.config.max_entries {
            let mut entries: HashMap<u64, (u8, u64)> = HashMap::new();
            std::mem::swap(&mut entries, &mut self.entries);
            entries.insert(key, (result.tag, result.data));
            assert(entries@.len() <= old(self).entries@.len() + 1);
            self.entries = entries;
        }
        self.stats.misses = self.stats.misses + 1;
        proof {
            use_type_invariant(&*self);
        }
    }
}

/// What a read gives back of a write: a result recorded while the cache
/// has room is what a lookup of its key then finds, and the other entries
/// are unchanged; recording never takes the cache past its limit.
pub proof fn law_cache_returns_what_was_recorded(
    c: Map<u64, (u8, u64)>,
    max_entries: usize,
    k: u64,
    v: (u8, u64),
    other: u64,
)
    requires
        c.dom().finite(),
        c.len() <= max_entries,
    ensures
        c.len() < max_entries ==> after_record(c, max_entries, k, v).contains_key(k) && after_record(
            c,
            max_entries,
            k,
            v,
        )[k] == v,
        other != k ==> after_record(c, max_entries, k, v).contains_key(other) == c.contains_key(
            other,
        ),
        other != k && c.contains_key(other) ==> after_record(c, max_entries, k, v)[other]
            == c[other],
        after_record(c, max_entries, k, v).len() <= max_entries,
{
    if c.len() < max_entries {
        if c.contains_key(k) {
            assert(c.insert(k, v).dom() =~= c.dom());
        } else {
            assert(c.insert(k, v).dom() =~= c.dom().insert(k));
        }
    }
}

} // verus!
