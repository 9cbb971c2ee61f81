//! The evaluator: environments as an arena of frames, and the evaluation of
//! expressions with special forms, closures, macros, quasiquote, tail calls
//! and a limit on the depth of non-tail nesting.

use vstd::prelude::*;

use crate::analysis::collect_list;
use crate::language::{
    AtomType, Builtin, Closure, same_value, SymbolType, Value, ValueModel, car, cdr, cons, display, eq, is_atom,
    lemma_values_model, list_elements, value_equal, list_model, names_model, push_signed, spec_car, spec_cdr,
    spec_eq, spec_is_atom, value_result, values_model,
};
use crate::native::{expected_message, is_truthy, make_bool, make_int, make_symbol, spec_truthy, vec_to_list};
use crate::numeric::{
    NumberModel, NumericType, as_fraction, fraction_compare, fraction_of, fraction_op, spec_fraction_compare,
    spec_fraction_op, spec_make_ratio,
};
use crate::stdlib::{print_line, spec_gensym};
use crate::text::{decimal, push_decimal, signed_decimal, str_eq};

verus! {

// ============================================================================
// Environments
// ============================================================================

/// One scope: its bindings, and the frame it extends.
pub struct Frame {
    pub vars: Vec<(String, Value)>,
    pub parent: Option<usize>,
}

/// The mathematical content of a `Frame`.
pub struct FrameModel {
    pub vars: Seq<(Seq<char>, ValueModel)>,
    pub parent: Option<nat>,
}

/// What a native function that does input or output asks to be done.
pub enum ActionModel {
    Write(Seq<char>),
    ReadFile(Seq<char>),
    WriteFile(Seq<char>, Seq<char>),
    Run(Seq<char>),
    Clock,
}

/// The state that evaluation works on: the frames; the answers to the
/// input and output asked for so far, and how many of them this run has
/// used; the request that stopped this run, if one did; and the counter of
/// `gensym`.
pub struct EnvModel {
    pub frames: Seq<FrameModel>,
    pub replies: Seq<Result<ValueModel, Seq<char>>>,
    pub used: nat,
    pub pending: Option<ActionModel>,
    pub counter: nat,
}

/// A request for input or output.
pub enum Action {
    Write(String),
    ReadFile(String),
    WriteFile(String, String),
    Run(String),
    Clock,
}

pub open spec fn action_model(a: Action) -> ActionModel {
    match a {
        Action::Write(t) => ActionModel::Write(t@),
        Action::ReadFile(p) => ActionModel::ReadFile(p@),
        Action::WriteFile(p, c) => ActionModel::WriteFile(p@, c@),
        Action::Run(c) => ActionModel::Run(c@),
        Action::Clock => ActionModel::Clock,
    }
}

/// All scopes, each named by its position (a closure names the frame it
/// was made in; the first frame is the global scope), with the state of
/// the input and output of a run and the counter of `gensym`.
pub struct Environment {
    frames: Vec<Frame>,
    replies: Vec<Result<Value, String>>,
    used: usize,
    pending: Option<Action>,
    counter: usize,
}

pub open spec fn vars_model(v: Seq<(String, Value)>) -> Seq<(Seq<char>, ValueModel)> {
    v.map_values(|p: (String, Value)| (p.0@, p.1@))
}

pub open spec fn frame_model(f: Frame) -> FrameModel {
    FrameModel { vars: vars_model(f.vars@), parent: match f.parent { Some(p) => Some(p as nat), None => None } }
}

impl View for Environment {
    type V = EnvModel;

    closed spec fn view(&self) -> EnvModel {
        EnvModel {
            frames: self.frames@.map_values(|f: Frame| frame_model(f)),
            replies: self.replies@.map_values(|r: Result<Value, String>| value_result(r)),
            used: self.used as nat,
            pending: match self.pending {
                Some(a) => Some(action_model(a)),
                None => None,
            },
            counter: self.counter as nat,
        }
    }
}

/// The position of the first binding of `name`.
pub open spec fn var_index(vars: Seq<(Seq<char>, ValueModel)>, name: Seq<char>) -> Option<int>
    decreases vars.len(),
{
    if vars.len() == 0 {
        None
    } else {
        match var_index(vars.drop_last(), name) {
            Some(i) => Some(i),
            None => if vars.last().0 == name {
                Some(vars.len() - 1)
            } else {
                None
            },
        }
    }
}

/// The bindings after binding `name` to `v`: an existing binding is
/// replaced in place, else one is added at the end.
pub open spec fn vars_insert(vars: Seq<(Seq<char>, ValueModel)>, name: Seq<char>, v: ValueModel) -> Seq<
    (Seq<char>, ValueModel),
> {
    match var_index(vars, name) {
        Some(i) => vars.update(i, (name, v)),
        None => vars.push((name, v)),
    }
}

/// The bindings of a call's frame: the first `n` parameters bound in turn
/// to the arguments.
pub open spec fn bind(params: Seq<Seq<char>>, args: Seq<ValueModel>, n: nat) -> Seq<
    (Seq<char>, ValueModel),
>
    decreases n,
{
    if n == 0 {
        Seq::empty()
    } else {
        vars_insert(bind(params, args, (n - 1) as nat), params[n - 1], args[n - 1])
    }
}

/// What `name` is bound to, seen from `frame`: its binding there, else in
/// the frames it extends. A parent always comes before its child; a frame
/// that names a later one, or a position past the end, sees nothing.
pub open spec fn spec_lookup(env: EnvModel, frame: nat, name: Seq<char>) -> Option<ValueModel>
    decreases frame,
{
    if frame >= env.frames.len() {
        None
    } else {
        match var_index(env.frames[frame as int].vars, name) {
            Some(i) => Some(env.frames[frame as int].vars[i].1),
            None => match env.frames[frame as int].parent {
                Some(p) => if p < frame {
                    spec_lookup(env, p, name)
                } else {
                    None
                },
                None => None,
            },
        }
    }
}

/// The environment after binding `name` to `v` in `frame` itself.
pub open spec fn spec_define(env: EnvModel, frame: nat, name: Seq<char>, v: ValueModel) -> EnvModel {
    if frame < env.frames.len() {
        EnvModel {
            frames: env.frames.update(
                frame as int,
                FrameModel { vars: vars_insert(env.frames[frame as int].vars, name, v), parent: env.frames[frame as int].parent },
            ),
            ..env
        }
    } else {
        env
    }
}

/// The environment with a new frame (at the end) that extends `parent` and
/// binds the parameters to the arguments.
pub open spec fn spec_extend(env: EnvModel, parent: nat, params: Seq<Seq<char>>, args: Seq<ValueModel>) -> EnvModel {
    EnvModel { frames: env.frames.push(FrameModel { vars: bind(params, args, params.len()), parent: Some(parent) }), ..env }
}

fn find_var(vars: &Vec<(String, Value)>, name: &str) -> (r: Option<usize>)
    ensures
        match r {
            Some(i) => var_index(vars_model(vars@), name@) == Some(i as int),
            None => var_index(vars_model(vars@), name@) is None,
        },
{
    let ghost vm = vars_model(vars@);
    let mut i: usize = 0;
    assert(vm.take(0) =~= Seq::<(Seq<char>, ValueModel)>::empty());
    while i < vars.len()
        invariant
            vm == vars_model(vars@),
            i <= vars.len(),
            var_index(vm.take(i as int), name@) is None,
        decreases vars.len() - i,
    {
        assert(vm.take(i + 1).drop_last() =~= vm.take(i as int));
        if crate::text::str_eq(vars[i].0.as_str(), name) {
            proof {
                lemma_var_index_prefix(vm, name@, i + 1);
            }
            return Some(i);
        }
        i = i + 1;
    }
    assert(vm.take(vars.len() as int) =~= vm);
    None
}

proof fn lemma_var_index_prefix(vs: Seq<(Seq<char>, ValueModel)>, name: Seq<char>, n: int)
    requires
        0 <= n <= vs.len(),
        var_index(vs.take(n), name) is Some,
    ensures
        var_index(vs, name) == var_index(vs.take(n), name),
    decreases vs.len() - n,
{
    if n < vs.len() {
        assert(vs.take(n + 1).drop_last() =~= vs.take(n));
        lemma_var_index_prefix(vs, name, n + 1);
    } else {
        assert(vs.take(n) =~= vs);
    }
}

proof fn lemma_var_index_bound(vs: Seq<(Seq<char>, ValueModel)>, name: Seq<char>)
    ensures
        var_index(vs, name) matches Some(i) ==> 0 <= i < vs.len(),
    decreases vs.len(),
{
    if vs.len() > 0 {
        lemma_var_index_bound(vs.drop_last(), name);
    }
}

fn insert_var(vars: &mut Vec<(String, Value)>, name: String, v: Value)
    ensures
        vars_model(final(vars)@) == vars_insert(vars_model(old(vars)@), name@, v@),
{
    let ghost before = vars_model(vars@);
    proof {
        lemma_var_index_bound(before, name@);
    }
    match find_var(vars, name.as_str()) {
        Some(i) => {
            let ghost nm = name@;
            let ghost vm = v@;
            vars.set(i, (name, v));
            assert(vars_model(vars@) =~= before.update(i as int, (nm, vm)));
        },
        None => {
            let ghost nm = name@;
            let ghost vm = v@;
            vars.push((name, v));
            assert(vars_model(vars@) =~= before.push((nm, vm)));
        },
    }
}

impl Environment {
    /// An environment with one empty global frame, no answers to input or
    /// output, and the `gensym` counter at zero.
    pub fn new() -> (r: Self)
        ensures
            r@.frames == seq![FrameModel { vars: Seq::empty(), parent: None }],
            r@.replies == Seq::<Result<ValueModel, Seq<char>>>::empty(),
            r@.used == 0,
            r@.pending is None,
            r@.counter == 0,
    {
        let mut frames: Vec<Frame> = Vec::new();
        frames.push(Frame { vars: Vec::new(), parent: None });
        let r = Environment { frames, replies: Vec::new(), used: 0, pending: None, counter: 0 };
        assert(vars_model(r.frames@[0].vars@) =~= Seq::<(Seq<char>, ValueModel)>::empty());
        assert(r@.frames =~= seq![FrameModel { vars: Seq::empty(), parent: None }]);
        assert(r@.replies =~= Seq::<Result<ValueModel, Seq<char>>>::empty());
        r
    }

    /// The number of frames.
    pub fn len(&self) -> (r: usize)
        ensures
            r == self@.frames.len(),
    {
        self.frames.len()
    }

    /// Look a name up from `frame`.
    pub fn lookup(&self, frame: usize, name: &str) -> (r: Option<Value>)
        ensures
            match r {
                Some(v) => spec_lookup(self@, frame as nat, name@) == Some(v@),
                None => spec_lookup(self@, frame as nat, name@) is None,
            },
        decreases frame,
    {
        if frame >= self.frames.len() {
            return None;
        }
        let ghost fm = self@.frames[frame as int];
        assert(fm == frame_model(self.frames@[frame as int]));
        proof {
            lemma_var_index_bound(fm.vars, name@);
        }
        match find_var(&self.frames[frame].vars, name) {
            Some(i) => Some(self.frames[frame].vars[i].1.copy()),
            None => match self.frames[frame].parent {
                Some(p) => if p < frame {
                    self.lookup(p, name)
                } else {
                    None
                },
                None => None,
            },
        }
    }

    /// Bind `name` to `v` in `frame` itself.
    pub fn define(&mut self, frame: usize, name: String, v: Value)
        ensures
            final(self)@ == spec_define(old(self)@, frame as nat, name@, v@),
    {
        if frame < self.frames.len() {
            let ghost before = self@;
            let mut f = self.frames.remove(frame);
            assert(frame_model(f) == before.frames[frame as int]);
            insert_var(&mut f.vars, name, v);
            self.frames.insert(frame, f);
            assert(self@.frames =~= spec_define(before, frame as nat, name@, v@).frames);
        }
    }

    /// Add a frame that extends `parent`, binding the parameters to the
    /// arguments in turn; gives the new frame's position.
    pub fn extend(&mut self, parent: usize, params: &Vec<String>, args: Vec<Value>) -> (r: usize)
        requires
            params@.len() == args@.len(),
        ensures
            r == old(self)@.frames.len(),
            final(self)@ == spec_extend(old(self)@, parent as nat, crate::language::names_model(params@), crate::language::values_model(args@)),
    {
        let ghost pm = crate::language::names_model(params@);
        let ghost am = crate::language::values_model(args@);
        proof {
            crate::language::lemma_values_model(args@);
        }
        let mut vars: Vec<(String, Value)> = Vec::new();
        let mut args = args;
        let ghost args0 = args@;
        let mut i: usize = 0;
        assert(vars_model(vars@) =~= bind(pm, am, 0));
        while i < params.len()
            invariant
                i <= params.len(),
                params@.len() == args0.len(),
                am == crate::language::values_model(args0),
                pm == crate::language::names_model(params@),
                forall|j: int| 0 <= j < args0.len() ==> am[j] == (#[trigger] args0[j])@,
                args@.len() == args0.len() - i,
                forall|j: int| 0 <= j < args@.len() ==> args@[j] == args0[j + i],
                vars_model(vars@) == bind(pm, am, i as nat),
            decreases params.len() - i,
        {
            let a = args.remove(0);
            assert(a == args0[i as int]);
            insert_var(&mut vars, params[i].clone(), a);
            i = i + 1;
        }
        let r = self.frames.len();
        let ghost before = self@;
        self.frames.push(Frame { vars, parent: Some(parent) });
        assert(self@.frames =~= spec_extend(before, parent as nat, pm, am).frames);
        r
    }
}

// ============================================================================
// Evaluation: what it gives
// ============================================================================

/// The limit on the nesting of non-tail evaluations.
pub const MAX_DEPTH: usize = 10000;

pub open spec fn depth_message() -> Seq<char> {
    "Maximum recursion depth (10000) exceeded. This usually indicates very deep non-tail recursion."@
}

/// The error given when the evaluation's step budget runs out.
pub open spec fn limit_message() -> Seq<char> {
    "Evaluation step limit reached"@
}

/// What one step of the evaluation loop does: it finishes with a result
/// and an environment, or it goes on with an expression in tail position,
/// the environment, and the frame to evaluate it in.
pub enum Step {
    Done(Result<ValueModel, Seq<char>>, EnvModel),
    Tail(ValueModel, EnvModel, nat),
}

/// The names of a parameter list whose elements are all symbols.
pub open spec fn symbol_names(xs: Seq<ValueModel>) -> Option<Seq<Seq<char>>>
    decreases xs.len(),
{
    if xs.len() == 0 {
        Some(Seq::empty())
    } else {
        match symbol_names(xs.drop_last()) {
            Some(ns) => match xs.last() {
                ValueModel::Symbol(n) => Some(ns.push(n)),
                _ => None,
            },
            None => None,
        }
    }
}

/// The first two elements of an argument list.
pub open spec fn spec_two(args: ValueModel) -> Result<(ValueModel, ValueModel), Seq<char>> {
    match spec_car(args) {
        Err(m) => Err(m),
        Ok(a1) => match spec_cdr(args) {
            Err(m) => Err(m),
            Ok(rest) => match spec_car(rest) {
                Err(m) => Err(m),
                Ok(a2) => Ok((a1, a2)),
            },
        },
    }
}

/// The second element of a list.
pub open spec fn spec_second(x: ValueModel) -> Result<ValueModel, Seq<char>> {
    match spec_cdr(x) {
        Err(m) => Err(m),
        Ok(rest) => spec_car(rest),
    }
}

/// What ends a chain of cons cells.
pub open spec fn list_end(v: ValueModel) -> ValueModel
    decreases v,
{
    match v {
        ValueModel::Cons(_, d) => list_end(*d),
        other => other,
    }
}

/// The message for a call with the wrong number of arguments.
pub open spec fn count_message(what: Seq<char>, expected: nat, got: nat) -> Seq<char> {
    what + ": expected "@ + decimal(expected) + " arguments, got "@ + decimal(got)
}

/// Exact arithmetic: on integers, `+`, `-` and `*` when the result fits in
/// 64 bits, `/` as a ratio in lowest terms; where a ratio takes part, the
/// result of the fractions in lowest terms. Floats are not computed with.
pub open spec fn spec_num_op(op: Seq<char>, a: NumberModel, b: NumberModel) -> Result<NumberModel, Seq<char>> {
    match (a, b) {
        (NumberModel::Int(x), NumberModel::Int(y)) => if op == "/"@ {
            spec_make_ratio(x, y)
        } else {
            let v: int = if op == "+"@ {
                x + y
            } else if op == "-"@ {
                x - y
            } else {
                x * y
            };
            if i64::MIN <= v <= i64::MAX {
                Ok(NumberModel::Int(v as i64))
            } else {
                Err(op + ": integer overflow"@)
            }
        },
        _ => match (as_fraction(a), as_fraction(b)) {
            (Some(p), Some(q)) => spec_fraction_op(op, p, q),
            _ => Err(op + ": expected exact numbers"@),
        },
    }
}

/// Comparison of exact numbers.
pub open spec fn spec_compare(op: Seq<char>, a: NumberModel, b: NumberModel) -> Result<bool, Seq<char>> {
    match (a, b) {
        (NumberModel::Int(x), NumberModel::Int(y)) => Ok(
            if op == "<"@ {
                x < y
            } else if op == ">"@ {
                x > y
            } else if op == "<="@ {
                x <= y
            } else if op == ">="@ {
                x >= y
            } else {
                x == y
            },
        ),
        _ => match (as_fraction(a), as_fraction(b)) {
            (Some(p), Some(q)) => Ok(spec_fraction_compare(op, p, q)),
            _ => Err(op + ": expected exact numbers"@),
        },
    }
}

/// The result of an arithmetic or comparison form on two values.
pub open spec fn spec_numeric_form(op: Seq<char>, v1: ValueModel, v2: ValueModel) -> Result<ValueModel, Seq<char>> {
    match v1 {
        ValueModel::Number(n1) => match v2 {
            ValueModel::Number(n2) => if is_arith_op(op) {
                match spec_num_op(op, n1, n2) {
                    Ok(n) => Ok(ValueModel::Number(n)),
                    Err(m) => Err(m),
                }
            } else {
                match spec_compare(op, n1, n2) {
                    Ok(b) => Ok(ValueModel::Bool(b)),
                    Err(m) => Err(m),
                }
            },
            _ => Err(op + ": expected number, got "@ + display(v2)),
        },
        _ => Err(op + ": expected number, got "@ + display(v1)),
    }
}

pub open spec fn is_arith_op(op: Seq<char>) -> bool {
    op == "+"@ || op == "-"@ || op == "*"@ || op == "/"@
}

pub open spec fn is_compare_op(op: Seq<char>) -> bool {
    op == "<"@ || op == ">"@ || op == "<="@ || op == ">="@ || op == "="@
}

/// `vector-ref` on two values.
pub open spec fn spec_vector_ref(v: ValueModel, i: ValueModel) -> Result<ValueModel, Seq<char>> {
    match v {
        ValueModel::Vector(items) => match i {
            ValueModel::Number(NumberModel::Int(idx)) => if idx < 0 || idx >= items.len() {
                Err(
                    "vector-ref: index "@ + signed_decimal(idx as int) + " out of bounds (length "@
                        + decimal(items.len()) + ")"@,
                )
            } else {
                Ok(items[idx as int])
            },
            _ => Err("vector-ref: index must be an integer"@),
        },
        _ => Err("vector-ref: first argument must be a vector"@),
    }
}

/// `vector-length` on a value.
pub open spec fn spec_vector_length(v: ValueModel) -> Result<ValueModel, Seq<char>> {
    match v {
        ValueModel::Vector(items) => Ok(ValueModel::Number(NumberModel::Int(items.len() as i64))),
        _ => Err("vector-length: expected vector"@),
    }
}

/// Evaluating an expression in `frame`, `depth` non-tail evaluations deep,
/// with a budget of `fuel` steps for each chain of nested evaluations.
pub open spec fn spec_eval(e: ValueModel, env: EnvModel, frame: nat, depth: nat, fuel: nat) -> (
    Result<ValueModel, Seq<char>>,
    EnvModel,
)
    decreases fuel, 1nat, 0nat,
{
    if depth >= MAX_DEPTH {
        (Err(depth_message()), env)
    } else {
        spec_loop(e, env, frame, frame, depth, fuel)
    }
}

/// The evaluation loop: steps until a step finishes, following tail calls;
/// `home` is the frame that `label` and `defmacro` define in.
pub open spec fn spec_loop(e: ValueModel, env: EnvModel, cur: nat, home: nat, depth: nat, fuel: nat) -> (
    Result<ValueModel, Seq<char>>,
    EnvModel,
)
    decreases fuel, 0nat, 0nat,
{
    if fuel == 0 {
        (Err(limit_message()), env)
    } else {
        match spec_step(e, env, cur, home, depth, (fuel - 1) as nat) {
            Step::Done(r, env2) => (r, env2),
            Step::Tail(e2, env2, c2) => spec_loop(e2, env2, c2, home, depth, (fuel - 1) as nat),
        }
    }
}

/// One step of the evaluation loop.
pub open spec fn spec_step(e: ValueModel, env: EnvModel, cur: nat, home: nat, depth: nat, f: nat) -> Step
    decreases f, 5nat, 0nat,
{
    match e {
        ValueModel::Symbol(name) => Step::Done(
            match spec_lookup(env, cur, name) {
                Some(v) => Ok(v),
                None => Err("Unbound symbol: "@ + name),
            },
            env,
        ),
        ValueModel::Cons(_, _) => match spec_expand(e, env, cur, depth, f) {
            (Err(m), env1) => Step::Done(Err(m), env1),
            (Ok(x), env1) => match x {
                ValueModel::Cons(op, args) => spec_form(*op, *args, env1, cur, home, depth, f),
                _ => Step::Done(Ok(x), env1),
            },
        },
        _ => Step::Done(Ok(e), env),
    }
}

/// Expanding macro calls at the head of an expression until none is left.
pub open spec fn spec_expand(e: ValueModel, env: EnvModel, cur: nat, depth: nat, g: nat) -> (
    Result<ValueModel, Seq<char>>,
    EnvModel,
)
    decreases g, 2nat, 0nat,
{
    if g == 0 {
        (Err(limit_message()), env)
    } else {
        match macro_call(e, env, cur) {
            Some((params, body, mframe)) => {
                let args = list_elements(rest_of(e));
                if args.len() != params.len() {
                    (Err(count_message("macro"@, params.len(), args.len())), env)
                } else {
                    let env2 = spec_extend(env, mframe, params, args);
                    match spec_eval(body, env2, env.frames.len(), depth + 1, (g - 1) as nat) {
                        (Ok(x), env3) => spec_expand(x, env3, cur, depth, (g - 1) as nat),
                        (Err(m), env3) => (Err(m), env3),
                    }
                }
            },
            None => (Ok(e), env),
        }
    }
}

/// The macro that an expression calls, when its head is a symbol bound to
/// a macro.
pub open spec fn macro_call(e: ValueModel, env: EnvModel, cur: nat) -> Option<(Seq<Seq<char>>, ValueModel, nat)> {
    match e {
        ValueModel::Cons(op, _) => match *op {
            ValueModel::Symbol(name) => match spec_lookup(env, cur, name) {
                Some(ValueModel::Macro(params, body, mframe)) => Some((params, *body, mframe)),
                _ => None,
            },
            _ => None,
        },
        _ => None,
    }
}

/// Evaluating the first element of an argument list.
pub open spec fn spec_eval_one(args: ValueModel, env: EnvModel, cur: nat, depth: nat, f: nat) -> (
    Result<ValueModel, Seq<char>>,
    EnvModel,
)
    decreases f, 2nat, 0nat,
{
    match spec_car(args) {
        Err(m) => (Err(m), env),
        Ok(a) => spec_eval(a, env, cur, depth + 1, f),
    }
}

/// Evaluating the first two elements of an argument list, in order.
pub open spec fn spec_eval_two(args: ValueModel, env: EnvModel, cur: nat, depth: nat, f: nat) -> (
    Result<(ValueModel, ValueModel), Seq<char>>,
    EnvModel,
)
    decreases f, 2nat, 0nat,
{
    match spec_two(args) {
        Err(m) => (Err(m), env),
        Ok((a1, a2)) => match spec_eval(a1, env, cur, depth + 1, f) {
            (Err(m), e1) => (Err(m), e1),
            (Ok(v1), e1) => match spec_eval(a2, e1, cur, depth + 1, f) {
                (Err(m), e2) => (Err(m), e2),
                (Ok(v2), e2) => (Ok((v1, v2)), e2),
            },
        },
    }
}

/// A result with the environment, as a finished step.
pub open spec fn done_with(r: (Result<ValueModel, Seq<char>>, EnvModel)) -> Step {
    Step::Done(r.0, r.1)
}

/// A special form or a call, with operator `op` and arguments `args`.
pub open spec fn spec_form(op: ValueModel, args: ValueModel, env: EnvModel, cur: nat, home: nat, depth: nat, f: nat) -> Step
    decreases f, 4nat, 0nat,
{
    match op {
        ValueModel::Symbol(name) => if name == "quote"@ {
            Step::Done(spec_car(args), env)
        } else if name == "quasiquote"@ {
            match spec_car(args) {
                Err(m) => Step::Done(Err(m), env),
                Ok(a) => done_with(spec_qq(a, env, cur, depth, 0, f)),
            }
        } else if name == "defmacro"@ {
            spec_defmacro(args, env, cur, home)
        } else if name == "atom"@ {
            match spec_eval_one(args, env, cur, depth, f) {
                (Err(m), e1) => Step::Done(Err(m), e1),
                (Ok(v), e1) => Step::Done(Ok(ValueModel::Bool(spec_is_atom(v))), e1),
            }
        } else if name == "eq"@ {
            match spec_eval_two(args, env, cur, depth, f) {
                (Err(m), e1) => Step::Done(Err(m), e1),
                (Ok((v1, v2)), e1) => Step::Done(Ok(ValueModel::Bool(spec_eq(v1, v2))), e1),
            }
        } else if name == "car"@ {
            match spec_eval_one(args, env, cur, depth, f) {
                (Err(m), e1) => Step::Done(Err(m), e1),
                (Ok(v), e1) => Step::Done(spec_car(v), e1),
            }
        } else if name == "cdr"@ {
            match spec_eval_one(args, env, cur, depth, f) {
                (Err(m), e1) => Step::Done(Err(m), e1),
                (Ok(v), e1) => Step::Done(spec_cdr(v), e1),
            }
        } else if name == "cons"@ {
            match spec_eval_two(args, env, cur, depth, f) {
                (Err(m), e1) => Step::Done(Err(m), e1),
                (Ok((v1, v2)), e1) => Step::Done(
                    Ok(ValueModel::Cons(Box::new(v1), Box::new(v2))),
                    e1,
                ),
            }
        } else if name == "cond"@ {
            spec_cond(list_elements(args), 0, env, cur, depth, f)
        } else if name == "lambda"@ {
            match spec_car(args) {
                Err(m) => Step::Done(Err(m), env),
                Ok(pe) => match spec_second(args) {
                    Err(m) => Step::Done(Err(m), env),
                    Ok(body) => match symbol_names(list_elements(pe)) {
                        None => Step::Done(Err("lambda parameters must be symbols"@), env),
                        Some(ps) => Step::Done(Ok(ValueModel::Lambda(ps, Box::new(body), cur)), env),
                    },
                },
            }
        } else if name == "label"@ {
            match spec_car(args) {
                Err(m) => Step::Done(Err(m), env),
                Ok(ne) => match spec_second(args) {
                    Err(m) => Step::Done(Err(m), env),
                    Ok(fe) => match ne {
                        ValueModel::Symbol(n) => match spec_eval(fe, env, cur, depth + 1, f) {
                            (Err(m), e1) => Step::Done(Err(m), e1),
                            (Ok(v), e1) => Step::Done(Ok(v), spec_define(e1, home, n, v)),
                        },
                        _ => Step::Done(Err("label: first argument must be a symbol"@), env),
                    },
                },
            }
        } else if is_arith_op(name) || is_compare_op(name) {
            let xs = list_elements(args);
            match spec_args(xs, xs.len(), env, cur, depth + 1, f) {
                (Err(m), e1) => Step::Done(Err(m), e1),
                (Ok(vals), e1) => Step::Done(spec_operator_form(name, vals), e1),
            }
        } else if name == "vector-length"@ {
            match spec_eval_one(args, env, cur, depth, f) {
                (Err(m), e1) => Step::Done(Err(m), e1),
                (Ok(v), e1) => Step::Done(spec_vector_length(v), e1),
            }
        } else if name == "vector-ref"@ {
            match spec_eval_two(args, env, cur, depth, f) {
                (Err(m), e1) => Step::Done(Err(m), e1),
                (Ok((v1, v2)), e1) => Step::Done(spec_vector_ref(v1, v2), e1),
            }
        } else {
            spec_apply(op, args, env, cur, depth, f)
        },
        _ => spec_apply(op, args, env, cur, depth, f),
    }
}

/// `defmacro`: binds the name, in the home frame, to a macro closed over
/// the current frame.
pub open spec fn spec_defmacro(args: ValueModel, env: EnvModel, cur: nat, home: nat) -> Step {
    match spec_car(args) {
        Err(m) => Step::Done(Err(m), env),
        Ok(ne) => match spec_cdr(args) {
            Err(m) => Step::Done(Err(m), env),
            Ok(rest) => match spec_car(rest) {
                Err(m) => Step::Done(Err(m), env),
                Ok(pe) => match spec_second(rest) {
                    Err(m) => Step::Done(Err(m), env),
                    Ok(body) => match ne {
                        ValueModel::Symbol(n) => match symbol_names(list_elements(pe)) {
                            None => Step::Done(Err("defmacro parameters must be symbols"@), env),
                            Some(ps) => {
                                let m = ValueModel::Macro(ps, Box::new(body), cur);
                                Step::Done(Ok(m), spec_define(env, home, n, m))
                            },
                        },
                        _ => Step::Done(Err("defmacro: first argument must be a symbol"@), env),
                    },
                },
            },
        },
    }
}

/// A call: the operator, then the arguments in order, are evaluated; a
/// lambda's body is then evaluated in tail position in a new frame that
/// binds its parameters.
pub open spec fn spec_apply(op: ValueModel, args: ValueModel, env: EnvModel, cur: nat, depth: nat, f: nat) -> Step
    decreases f, 3nat, 0nat,
{
    match spec_eval(op, env, cur, depth + 1, f) {
        (Err(m), e1) => Step::Done(Err(m), e1),
        (Ok(func), e1) => {
            let xs = list_elements(args);
            match spec_args(xs, xs.len(), e1, cur, depth + 1, f) {
                (Err(m), e2) => Step::Done(Err(m), e2),
                (Ok(vals), e2) => match func {
                    ValueModel::Lambda(params, body, lframe) => if params.len() != vals.len() {
                        Step::Done(Err(count_message("lambda"@, params.len(), vals.len())), e2)
                    } else {
                        Step::Tail(*body, spec_extend(e2, lframe, params, vals), e2.frames.len())
                    },
                    ValueModel::NativeFn(b) => done_with(spec_native(b, vals, e2, cur, f)),
                    _ => Step::Done(Err("Cannot apply non-function: "@ + display(func)), e2),
                },
            }
        },
    }
}

/// Evaluating the first `n` expressions, in order.
pub open spec fn spec_args(xs: Seq<ValueModel>, n: nat, env: EnvModel, cur: nat, depth: nat, f: nat) -> (
    Result<Seq<ValueModel>, Seq<char>>,
    EnvModel,
)
    decreases f, 2nat, n,
{
    if n == 0 {
        (Ok(Seq::empty()), env)
    } else {
        match spec_args(xs, (n - 1) as nat, env, cur, depth, f) {
            (Err(m), e1) => (Err(m), e1),
            (Ok(vs), e1) => match spec_eval(xs[n - 1], e1, cur, depth, f) {
                (Err(m), e2) => (Err(m), e2),
                (Ok(v), e2) => (Ok(vs.push(v)), e2),
            },
        }
    }
}

/// `cond` from clause `i` on: the first clause whose condition holds goes
/// on with its result expression in tail position; none gives nil.
pub open spec fn spec_cond(cls: Seq<ValueModel>, i: nat, env: EnvModel, cur: nat, depth: nat, f: nat) -> Step
    decreases f, 2nat, cls.len() - i,
{
    if i >= cls.len() {
        Step::Done(Ok(ValueModel::Nil), env)
    } else {
        match spec_car(cls[i as int]) {
            Err(m) => Step::Done(Err(m), env),
            Ok(c) => match spec_second(cls[i as int]) {
                Err(m) => Step::Done(Err(m), env),
                Ok(re) => match spec_eval(c, env, cur, depth + 1, f) {
                    (Err(m), e1) => Step::Done(Err(m), e1),
                    (Ok(cv), e1) => if spec_truthy(cv) {
                        Step::Tail(re, e1, cur)
                    } else {
                        spec_cond(cls, i + 1, e1, cur, depth, f)
                    },
                },
            },
        }
    }
}

/// What follows the head of a cons cell.
pub open spec fn rest_of(v: ValueModel) -> ValueModel {
    match v {
        ValueModel::Cons(_, d) => *d,
        _ => ValueModel::Nil,
    }
}

/// A two-element list.
pub open spec fn list2(a: ValueModel, b: ValueModel) -> ValueModel {
    ValueModel::Cons(Box::new(a), Box::new(ValueModel::Cons(Box::new(b), Box::new(ValueModel::Nil))))
}

/// Quasiquote at nesting `level`: `unquote` at level 0 evaluates, nested
/// quasiquotes and unquotes change the level, lists are rebuilt with
/// `unquote-splicing` spliced in, and other values stand for themselves.
pub open spec fn spec_qq(e: ValueModel, env: EnvModel, cur: nat, depth: nat, level: nat, g: nat) -> (
    Result<ValueModel, Seq<char>>,
    EnvModel,
)
    decreases g, 2nat, 0nat,
{
    if g == 0 {
        (Err(limit_message()), env)
    } else {
        let h = (g - 1) as nat;
        match e {
            ValueModel::Cons(a, d) => {
                let name = match *a {
                    ValueModel::Symbol(n) => n,
                    _ => Seq::empty(),
                };
                if *a is Symbol && name == "unquote"@ && level == 0 {
                    match spec_car(*d) {
                        Err(m) => (Err(m), env),
                        Ok(x) => spec_eval(x, env, cur, depth + 1, h),
                    }
                } else if *a is Symbol && name == "unquote-splicing"@ && level == 0 {
                    (Err("unquote-splicing not in list context"@), env)
                } else if *a is Symbol && (name == "quasiquote"@ || name == "unquote"@) {
                    match spec_car(*d) {
                        Err(m) => (Err(m), env),
                        Ok(x) => match spec_qq(
                            x,
                            env,
                            cur,
                            depth,
                            if name == "quasiquote"@ {
                                level + 1
                            } else {
                                (level - 1) as nat
                            },
                            h,
                        ) {
                            (Err(m), e1) => (Err(m), e1),
                            (Ok(r), e1) => (Ok(list2(ValueModel::Symbol(name), r)), e1),
                        },
                    }
                } else {
                    qq_list_result(e, list_elements(e), env, cur, depth, level, h)
                }
            },
            _ => (Ok(e), env),
        }
    }
}

/// A quasiquoted list rebuilt from its processed elements.
pub open spec fn qq_list_result(e: ValueModel, xs: Seq<ValueModel>, env: EnvModel, cur: nat, depth: nat, level: nat, h: nat) -> (
    Result<ValueModel, Seq<char>>,
    EnvModel,
)
    decreases h, 4nat, 0nat,
{
    match spec_qq_items(xs, xs.len(), env, cur, depth, level, h) {
        (Err(m), e1) => (Err(m), e1),
        (Ok(vals), e1) => if list_end(e) is Nil {
            (Ok(list_model(vals)), e1)
        } else {
            (Err("quasiquote: improper list not fully supported"@), e1)
        },
    }
}

/// Whether an element is `(unquote-splicing x)` (at any length).
pub open spec fn is_splice(x: ValueModel) -> bool {
    match x {
        ValueModel::Cons(a, _) => *a == ValueModel::Symbol("unquote-splicing"@),
        _ => false,
    }
}

/// The elements of a quasiquoted list, processed in order.
pub open spec fn spec_qq_items(xs: Seq<ValueModel>, n: nat, env: EnvModel, cur: nat, depth: nat, level: nat, g: nat) -> (
    Result<Seq<ValueModel>, Seq<char>>,
    EnvModel,
)
    decreases g, 3nat, n,
{
    if n == 0 {
        (Ok(Seq::empty()), env)
    } else {
        match spec_qq_items(xs, (n - 1) as nat, env, cur, depth, level, g) {
            (Err(m), e1) => (Err(m), e1),
            (Ok(acc), e1) => {
                let x = xs[n - 1];
                if is_splice(x) && level == 0 {
                    match spec_car(rest_of(x)) {
                        Err(m) => (Err(m), e1),
                        Ok(se) => match spec_eval(se, e1, cur, depth + 1, g) {
                            (Err(m), e2) => (Err(m), e2),
                            (Ok(sv), e2) => (Ok(acc + list_elements(sv)), e2),
                        },
                    }
                } else {
                    match spec_qq(x, e1, cur, depth, level, g) {
                        (Err(m), e2) => (Err(m), e2),
                        (Ok(p), e2) => (Ok(acc.push(p)), e2),
                    }
                }
            },
        }
    }
}

// ============================================================================
// Native functions: what they give
// ============================================================================

/// The error that stops a run that needs an answer it does not have yet.
pub open spec fn suspend_message() -> Seq<char> {
    "input or output requested"@
}

/// The input or output that a native function asks for, or the error its
/// arguments give.
pub open spec fn spec_io_request(b: Builtin, args: Seq<ValueModel>) -> Result<ActionModel, Seq<char>> {
    match b {
        Builtin::Print => Ok(ActionModel::Write(print_line(args, false))),
        Builtin::Println => Ok(ActionModel::Write(print_line(args, true))),
        Builtin::Slurp => if args.len() != 1 {
            Err("slurp: expected 1 argument (path)"@)
        } else {
            match args[0] {
                ValueModel::Str(s) => Ok(ActionModel::ReadFile(s)),
                other => Err(expected_message("string"@, other)),
            }
        },
        Builtin::Spit => if args.len() != 2 {
            Err("spit: expected 2 arguments (path, content)"@)
        } else {
            match (args[0], args[1]) {
                (ValueModel::Str(p), ValueModel::Str(c)) => Ok(ActionModel::WriteFile(p, c)),
                (ValueModel::Str(_), other) => Err(expected_message("string"@, other)),
                (other, _) => Err(expected_message("string"@, other)),
            }
        },
        Builtin::Shell => if args.len() != 1 {
            Err("shell: expected 1 argument (command)"@)
        } else {
            match args[0] {
                ValueModel::Str(s) => Ok(ActionModel::Run(s)),
                other => Err(expected_message("string"@, other)),
            }
        },
        _ => if args.len() != 0 {
            Err("now: expected 0 arguments"@)
        } else {
            Ok(ActionModel::Clock)
        },
    }
}

pub open spec fn is_io(b: Builtin) -> bool {
    b == Builtin::Print || b == Builtin::Println || b == Builtin::Slurp || b == Builtin::Spit
        || b == Builtin::Shell || b == Builtin::Now
}

/// A native function that does input or output: the next answer of the
/// run when there is one, else the run stops and records the request.
pub open spec fn spec_io(b: Builtin, args: Seq<ValueModel>, env: EnvModel) -> (Result<ValueModel, Seq<char>>, EnvModel) {
    match spec_io_request(b, args) {
        Err(m) => (Err(m), env),
        Ok(a) => if env.used < env.replies.len() {
            (env.replies[env.used as int], EnvModel { used: env.used + 1, ..env })
        } else {
            (Err(suspend_message()), EnvModel { pending: Some(a), ..env })
        },
    }
}

pub open spec fn arith_name(b: Builtin) -> Seq<char> {
    match b {
        Builtin::Add => "+"@,
        Builtin::Sub => "-"@,
        Builtin::Mul => "*"@,
        Builtin::Div => "/"@,
        Builtin::Lt => "<"@,
        Builtin::Gt => ">"@,
        Builtin::Lte => "<="@,
        Builtin::Gte => ">="@,
        _ => "="@,
    }
}

/// Folding the first `n` arguments with an arithmetic operation.
pub open spec fn spec_fold(op: Seq<char>, args: Seq<ValueModel>, n: nat) -> Result<NumberModel, Seq<char>>
    decreases n,
{
    if n <= 1 {
        match args[0] {
            ValueModel::Number(x) => Ok(x),
            other => Err(op + ": expected number, got "@ + display(other)),
        }
    } else {
        match spec_fold(op, args, (n - 1) as nat) {
            Err(m) => Err(m),
            Ok(acc) => match args[n - 1] {
                ValueModel::Number(x) => spec_num_op(op, acc, x),
                other => Err(op + ": expected number, got "@ + display(other)),
            },
        }
    }
}

/// Arithmetic on evaluated operands: at least two, folded from the left.
pub open spec fn spec_arith_args(op: Seq<char>, args: Seq<ValueModel>) -> Result<ValueModel, Seq<char>> {
    if args.len() < 2 {
        Err(op + ": expected at least 2 arguments"@)
    } else {
        match spec_fold(op, args, args.len()) {
            Ok(n) => Ok(ValueModel::Number(n)),
            Err(m) => Err(m),
        }
    }
}

/// A comparison of exactly two evaluated operands.
pub open spec fn spec_compare_args(op: Seq<char>, args: Seq<ValueModel>) -> Result<ValueModel, Seq<char>> {
    if args.len() != 2 {
        Err(op + ": expected 2 arguments"@)
    } else {
        spec_numeric_form(op, args[0], args[1])
    }
}

/// The negation of one operand.
pub open spec fn spec_negate(v: ValueModel) -> Result<ValueModel, Seq<char>> {
    match v {
        ValueModel::Number(n) => match spec_num_op("-"@, NumberModel::Int(0), n) {
            Ok(r) => Ok(ValueModel::Number(r)),
            Err(m) => Err(m),
        },
        other => Err("-: expected number, got "@ + display(other)),
    }
}

/// An arithmetic or comparison form on its evaluated operands: `-` of one
/// operand negates it; arithmetic folds all its operands; a comparison
/// takes exactly two.
pub open spec fn spec_operator_form(op: Seq<char>, args: Seq<ValueModel>) -> Result<ValueModel, Seq<char>> {
    if op == "-"@ && args.len() == 1 {
        spec_negate(args[0])
    } else if is_arith_op(op) {
        spec_arith_args(op, args)
    } else {
        spec_compare_args(op, args)
    }
}

/// A native function on its evaluated arguments.
pub open spec fn spec_native(b: Builtin, args: Seq<ValueModel>, env: EnvModel, cur: nat, f: nat) -> (
    Result<ValueModel, Seq<char>>,
    EnvModel,
)
    decreases f, 2nat, 1nat,
{
    if is_io(b) {
        spec_io(b, args, env)
    } else if b == Builtin::Atom {
        (if args.len() != 1 {
            Err("atom: expected 1 argument"@)
        } else {
            Ok(ValueModel::Bool(spec_is_atom(args[0])))
        }, env)
    } else if b == Builtin::Eq {
        (if args.len() != 2 {
            Err("eq: expected 2 arguments"@)
        } else {
            Ok(ValueModel::Bool(spec_eq(args[0], args[1])))
        }, env)
    } else if b == Builtin::Car {
        (if args.len() != 1 {
            Err("car: expected 1 argument"@)
        } else {
            spec_car(args[0])
        }, env)
    } else if b == Builtin::Cdr {
        (if args.len() != 1 {
            Err("cdr: expected 1 argument"@)
        } else {
            spec_cdr(args[0])
        }, env)
    } else if b == Builtin::Cons {
        (if args.len() != 2 {
            Err("cons: expected 2 arguments"@)
        } else {
            Ok(ValueModel::Cons(Box::new(args[0]), Box::new(args[1])))
        }, env)
    } else if b == Builtin::Vector {
        (Ok(ValueModel::Vector(args)), env)
    } else if b == Builtin::Add || b == Builtin::Sub || b == Builtin::Mul || b == Builtin::Div {
        (spec_arith_args(arith_name(b), args), env)
    } else if b == Builtin::Lt || b == Builtin::Gt || b == Builtin::Lte || b == Builtin::Gte
        || b == Builtin::NumEq {
        (spec_compare_args(arith_name(b), args), env)
    } else if b == Builtin::Gensym {
        if env.counter >= usize::MAX {
            (Err("gensym: counter exhausted"@), env)
        } else {
            match spec_gensym(args, env.counter) {
                Ok(v) => (Ok(v), EnvModel { counter: env.counter + 1, ..env }),
                Err(m) => (Err(m), env),
            }
        }
    } else if b == Builtin::MacroExpand1 {
        if args.len() != 1 {
            (Err("macroexpand-1: expected 1 argument"@), env)
        } else {
            spec_expand_once(args[0], env, cur, f)
        }
    } else {
        if args.len() != 1 {
            (Err("macroexpand: expected 1 argument"@), env)
        } else {
            spec_expand_all(args[0], env, cur, f)
        }
    }
}

/// One macro expansion of an expression, evaluating the macro's body from
/// depth zero; an expression that is no macro call is given back.
pub open spec fn spec_expand_once(e: ValueModel, env: EnvModel, cur: nat, f: nat) -> (
    Result<ValueModel, Seq<char>>,
    EnvModel,
)
    decreases f, 2nat, 0nat,
{
    match macro_call(e, env, cur) {
        Some((params, body, mframe)) => {
            let args = list_elements(rest_of(e));
            if args.len() != params.len() {
                (Err(count_message("macro"@, params.len(), args.len())), env)
            } else {
                spec_eval(body, spec_extend(env, mframe, params, args), env.frames.len(), 0, f)
            }
        },
        None => (Ok(e), env),
    }
}

/// Expanding until an expansion gives back an equal expression.
pub open spec fn spec_expand_all(e: ValueModel, env: EnvModel, cur: nat, g: nat) -> (
    Result<ValueModel, Seq<char>>,
    EnvModel,
)
    decreases g, 2nat, 0nat,
{
    if g == 0 {
        (Err(limit_message()), env)
    } else {
        match spec_expand_once(e, env, cur, (g - 1) as nat) {
            (Err(m), e1) => (Err(m), e1),
            (Ok(n), e1) => if same_value(n, e) {
                (Ok(n), e1)
            } else {
                spec_expand_all(n, e1, cur, (g - 1) as nat)
            },
        }
    }
}

/// Evaluating an expression in the global frame with a budget of `fuel`
/// steps for each chain of nested evaluations.
pub open spec fn spec_run(e: ValueModel, env: EnvModel, fuel: nat) -> (
    Result<ValueModel, Seq<char>>,
    EnvModel,
) {
    spec_eval(e, env, 0, 0, fuel)
}


// ============================================================================
// Evaluation: the helpers
// ============================================================================

fn with_value(prefix: &str, v: &Value) -> (r: String)
    ensures
        r@ == prefix@ + display(v@),
{
    let mut m = String::from_str(prefix);
    v.write_to(&mut m);
    m
}

fn count_msg(what: &str, expected: usize, got: usize) -> (r: String)
    ensures
        r@ == count_message(what@, expected as nat, got as nat),
{
    let mut m = String::from_str(what);
    m.append(": expected ");
    push_decimal(&mut m, expected as u64);
    m.append(" arguments, got ");
    push_decimal(&mut m, got as u64);
    m
}

fn two(args: &Value) -> (r: Result<(Value, Value), String>)
    ensures
        match (r, spec_two(args@)) {
            (Ok((a, b)), Ok((x, y))) => a@ == x && b@ == y,
            (Err(m), Err(n)) => m@ == n,
            _ => false,
        },
{
    let a1 = match car(args) {
        Ok(v) => v,
        Err(m) => return Err(m),
    };
    let rest = match cdr(args) {
        Ok(v) => v,
        Err(m) => return Err(m),
    };
    let a2 = match car(&rest) {
        Ok(v) => v,
        Err(m) => return Err(m),
    };
    Ok((a1, a2))
}

fn second(x: &Value) -> (r: Result<Value, String>)
    ensures
        value_result(r) == spec_second(x@),
{
    match cdr(x) {
        Ok(rest) => car(&rest),
        Err(m) => Err(m),
    }
}

/// The names of a parameter list, when all its elements are symbols.
fn parameter_names(pe: &Value) -> (r: Option<Vec<String>>)
    ensures
        match symbol_names(list_elements(pe@)) {
            Some(ns) => r matches Some(v) && names_model(v@) == ns,
            None => r is None,
        },
{
    let xs = collect_list(pe);
    let ghost xm = values_model(xs@);
    proof {
        lemma_values_model(xs@);
    }
    let mut out: Vec<String> = Vec::new();
    let mut i: usize = 0;
    assert(xm.take(0) =~= Seq::<ValueModel>::empty());
    assert(names_model(out@) =~= Seq::<Seq<char>>::empty());
    while i < xs.len()
        invariant
            xm == values_model(xs@),
            xm == list_elements(pe@),
            xm.len() == xs@.len(),
            forall|j: int| 0 <= j < xs@.len() ==> xm[j] == (#[trigger] xs@[j])@,
            i <= xs.len(),
            symbol_names(xm.take(i as int)) == Some(names_model(out@)),
        decreases xs.len() - i,
    {
        assert(xm.take(i + 1).drop_last() =~= xm.take(i as int));
        match &xs[i] {
            Value::Atom(AtomType::Symbol(SymbolType::Symbol(n))) => {
                let ghost before = out@;
                out.push(n.clone());
                assert(names_model(out@) =~= names_model(before).push(n@));
            },
            _ => {
                proof {
                    lemma_symbol_names_prefix(xm, i + 1);
                }
                return None;
            },
        }
        i = i + 1;
    }
    assert(xm.take(xs.len() as int) =~= xm);
    Some(out)
}

proof fn lemma_symbol_names_prefix(xs: Seq<ValueModel>, n: int)
    requires
        0 <= n <= xs.len(),
        symbol_names(xs.take(n)) is None,
    ensures
        symbol_names(xs) is None,
    decreases xs.len() - n,
{
    if n < xs.len() {
        assert(xs.take(n + 1).drop_last() =~= xs.take(n));
        lemma_symbol_names_prefix(xs, n + 1);
    } else {
        assert(xs.take(n) =~= xs);
    }
}

fn is_arith(op: &str) -> (r: bool)
    ensures
        r == is_arith_op(op@),
{
    str_eq(op, "+") || str_eq(op, "-") || str_eq(op, "*") || str_eq(op, "/")
}

fn is_compare(op: &str) -> (r: bool)
    ensures
        r == is_compare_op(op@),
{
    str_eq(op, "<") || str_eq(op, ">") || str_eq(op, "<=") || str_eq(op, ">=") || str_eq(op, "=")
}

fn num_op(op: &str, x: i64, y: i64) -> (r: Result<NumericType, String>)
    ensures
        match (r, spec_num_op(op@, NumberModel::Int(x), NumberModel::Int(y))) {
            (Ok(a), Ok(b)) => a@ == b,
            (Err(m), Err(n)) => m@ == n,
            _ => false,
        },
{
    if str_eq(op, "/") {
        return NumericType::make_ratio(x, y);
    }
    let v: Option<i64> = if str_eq(op, "+") {
        x.checked_add(y)
    } else if str_eq(op, "-") {
        x.checked_sub(y)
    } else {
        x.checked_mul(y)
    };
    match v {
        Some(n) => Ok(NumericType::Int(n)),
        None => {
            let mut m = String::from_str(op);
            m.append(": integer overflow");
            Err(m)
        },
    }
}

fn compare(op: &str, x: i64, y: i64) -> (r: bool)
    ensures
        spec_compare(op@, NumberModel::Int(x), NumberModel::Int(y)) == Ok::<bool, Seq<char>>(r),
{
    if str_eq(op, "<") {
        x < y
    } else if str_eq(op, ">") {
        x > y
    } else if str_eq(op, "<=") {
        x <= y
    } else if str_eq(op, ">=") {
        x >= y
    } else {
        x == y
    }
}

fn number_op(op: &str, x: &NumericType, y: &NumericType) -> (r: Result<NumericType, String>)
    ensures
        match (r, spec_num_op(op@, x@, y@)) {
            (Ok(a), Ok(b)) => a@ == b,
            (Err(m), Err(n)) => m@ == n,
            _ => false,
        },
{
    if let (NumericType::Int(a), NumericType::Int(b)) = (x, y) {
        return num_op(op, *a, *b);
    }
    match (fraction_of(x), fraction_of(y)) {
        (Some((a, b)), Some((c, d))) => fraction_op(op, a, b, c, d),
        _ => {
            let mut m = String::from_str(op);
            m.append(": expected exact numbers");
            Err(m)
        },
    }
}

fn number_compare(op: &str, x: &NumericType, y: &NumericType) -> (r: Result<bool, String>)
    ensures
        match (r, spec_compare(op@, x@, y@)) {
            (Ok(a), Ok(b)) => a == b,
            (Err(m), Err(n)) => m@ == n,
            _ => false,
        },
{
    if let (NumericType::Int(a), NumericType::Int(b)) = (x, y) {
        return Ok(compare(op, *a, *b));
    }
    match (fraction_of(x), fraction_of(y)) {
        (Some((a, b)), Some((c, d))) => Ok(fraction_compare(op, a, b, c, d)),
        _ => {
            let mut m = String::from_str(op);
            m.append(": expected exact numbers");
            Err(m)
        },
    }
}

fn numeric_form(op: &str, v1: &Value, v2: &Value) -> (r: Result<Value, String>)
    ensures
        value_result(r) == spec_numeric_form(op@, v1@, v2@),
{
    let n1 = match v1 {
        Value::Atom(AtomType::Number(n)) => n,
        _ => return Err(with_value(&format_prefix(op), v1)),
    };
    let n2 = match v2 {
        Value::Atom(AtomType::Number(n)) => n,
        _ => return Err(with_value(&format_prefix(op), v2)),
    };
    if is_arith(op) {
        match number_op(op, n1, n2) {
            Ok(n) => Ok(Value::Atom(AtomType::Number(n))),
            Err(m) => Err(m),
        }
    } else {
        match number_compare(op, n1, n2) {
            Ok(b) => Ok(make_bool(b)),
            Err(m) => Err(m),
        }
    }
}

fn format_prefix(op: &str) -> (r: String)
    ensures
        r@ == op@ + ": expected number, got "@,
{
    let mut m = String::from_str(op);
    m.append(": expected number, got ");
    m
}

fn vector_length(v: &Value) -> (r: Result<Value, String>)
    ensures
        value_result(r) == spec_vector_length(v@),
{
    match v {
        Value::Vector(vec) => {
            proof {
                lemma_values_model(vec.elements@);
            }
            Ok(make_int(vec.elements.len() as i64))
        },
        _ => Err(String::from_str("vector-length: expected vector")),
    }
}

fn vector_ref(v: &Value, i: &Value) -> (r: Result<Value, String>)
    ensures
        value_result(r) == spec_vector_ref(v@, i@),
{
    match v {
        Value::Vector(vec) => {
            proof {
                lemma_values_model(vec.elements@);
            }
            match i {
                Value::Atom(AtomType::Number(NumericType::Int(idx))) => {
                    let len = vec.elements.len();
                    if *idx < 0 || (*idx as u64) >= (len as u64) {
                        let mut m = String::from_str("vector-ref: index ");
                        push_signed(&mut m, *idx);
                        m.append(" out of bounds (length ");
                        push_decimal(&mut m, len as u64);
                        m.append(")");
                        Err(m)
                    } else {
                        Ok(vec.elements[*idx as usize].copy())
                    }
                },
                _ => Err(String::from_str("vector-ref: index must be an integer")),
            }
        },
        _ => Err(String::from_str("vector-ref: first argument must be a vector")),
    }
}

/// Whether a chain of cons cells ends in nil.
fn ends_in_nil(v: &Value) -> (r: bool)
    ensures
        r == (list_end(v@) is Nil),
    decreases v,
{
    match v {
        Value::Cons(c) => ends_in_nil(&c.cdr),
        Value::Nil => true,
        _ => false,
    }
}

// ============================================================================
// Evaluation
// ============================================================================

/// What one step of evaluation does, by values: it finishes, or it goes on
/// with an expression in tail position and the frame to evaluate it in.
pub enum Next {
    Done(Result<Value, String>),
    Tail(Value, usize),
}

pub open spec fn next_model(n: Next, env: EnvModel) -> Step {
    match n {
        Next::Done(r) => Step::Done(value_result(r), env),
        Next::Tail(e, c) => Step::Tail(e@, env, c as nat),
    }
}

pub open spec fn pair_result(r: Result<(Value, Value), String>) -> Result<(ValueModel, ValueModel), Seq<char>> {
    match r {
        Ok((a, b)) => Ok((a@, b@)),
        Err(m) => Err(m@),
    }
}

/// Evaluates an expression in the global frame.
pub fn eval(expr: Value, env: &mut Environment) -> (r: Result<Value, String>)
    ensures
        (value_result(r), final(env)@) == spec_run(expr@, old(env)@, u64::MAX as nat),
{
    eval_loop(expr, env, 0, 0, u64::MAX)
}

/// Evaluates an expression in `frame`, `depth` non-tail evaluations deep.
pub fn eval_loop(expr: Value, env: &mut Environment, frame: usize, depth: usize, fuel: u64) -> (r: Result<Value, String>)
    ensures
        (value_result(r), final(env)@) == spec_eval(expr@, old(env)@, frame as nat, depth as nat, fuel as nat),
    decreases fuel, 1nat, 0nat,
{
    if depth >= MAX_DEPTH {
        return Err(
            String::from_str(
                "Maximum recursion depth (10000) exceeded. This usually indicates very deep non-tail recursion.",
            ),
        );
    }
    let ghost goal = spec_eval(expr@, env@, frame as nat, depth as nat, fuel as nat);
    let ghost e0 = expr@;
    let ghost env0 = env@;
    let mut e = expr;
    let mut cur = frame;
    let mut f = fuel;
    loop
        invariant
            depth < MAX_DEPTH,
            goal == spec_eval(e0, env0, frame as nat, depth as nat, fuel as nat),
            e0 == expr@,
            env0 == old(env)@,
            f <= fuel,
            goal == spec_loop(e@, env@, cur as nat, frame as nat, depth as nat, f as nat),
        decreases f,
    {
        if f == 0 {
            return Err(String::from_str("Evaluation step limit reached"));
        }
        f = f - 1;
        match eval_step(e, env, cur, frame, depth, f) {
            Next::Done(r) => {
                return r;
            },
            Next::Tail(e2, c2) => {
                e = e2;
                cur = c2;
            },
        }
    }
}

fn eval_step(expr: Value, env: &mut Environment, cur: usize, home: usize, depth: usize, f: u64) -> (r: Next)
    requires
        depth < MAX_DEPTH,
    ensures
        next_model(r, final(env)@) == spec_step(expr@, old(env)@, cur as nat, home as nat, depth as nat, f as nat),
    decreases f, 5nat, 0nat,
{
    match expr {
        Value::Atom(AtomType::Symbol(SymbolType::Symbol(name))) => {
            match env.lookup(cur, name.as_str()) {
                Some(v) => Next::Done(Ok(v)),
                None => {
                    let mut m = String::from_str("Unbound symbol: ");
                    m.append(name.as_str());
                    Next::Done(Err(m))
                },
            }
        },
        Value::Cons(cell) => {
            let e = Value::Cons(cell);
            match eval_expand(e, env, cur, depth, f) {
                Err(m) => Next::Done(Err(m)),
                Ok(x) => match x {
                    Value::Cons(c) => {
                        let c = *c;
                        eval_form(c.car, c.cdr, env, cur, home, depth, f)
                    },
                    other => Next::Done(Ok(other)),
                },
            }
        },
        other => Next::Done(Ok(other)),
    }
}

fn find_macro(e: &Value, env: &Environment, cur: usize) -> (r: Option<Closure>)
    ensures
        match macro_call(e@, env@, cur as nat) {
            Some((ps, b, fr)) => r matches Some(c) && names_model(c.params@) == ps && c.body@ == b
                && c.frame as nat == fr,
            None => r is None,
        },
{
    match e {
        Value::Cons(c) => match &c.car {
            Value::Atom(AtomType::Symbol(SymbolType::Symbol(name))) => match env.lookup(cur, name.as_str()) {
                Some(Value::Macro(m)) => {
                    let cl = *m;
                    assert(cl.frame == m.frame);
                    assert(e@ == ValueModel::Cons(Box::new(c.car@), Box::new(c.cdr@)));
                    Some(cl)
                },
                _ => None,
            },
            _ => None,
        },
        _ => None,
    }
}

fn eval_expand(expr: Value, env: &mut Environment, cur: usize, depth: usize, g: u64) -> (r: Result<Value, String>)
    requires
        depth < MAX_DEPTH,
    ensures
        (value_result(r), final(env)@) == spec_expand(expr@, old(env)@, cur as nat, depth as nat, g as nat),
    decreases g, 2nat, 0nat,
{
    let ghost goal = spec_expand(expr@, env@, cur as nat, depth as nat, g as nat);
    let ghost e0 = expr@;
    let ghost env0 = env@;
    let mut e = expr;
    let mut h = g;
    loop
        invariant
            depth < MAX_DEPTH,
            goal == spec_expand(e0, env0, cur as nat, depth as nat, g as nat),
            e0 == expr@,
            env0 == old(env)@,
            h <= g,
            goal == spec_expand(e@, env@, cur as nat, depth as nat, h as nat),
        decreases h,
    {
        if h == 0 {
            return Err(String::from_str("Evaluation step limit reached"));
        }
        h = h - 1;
        match find_macro(&e, env, cur) {
            None => {
                return Ok(e);
            },
            Some(m) => {
                let args = match &e {
                    Value::Cons(c) => collect_list(&c.cdr),
                    _ => Vec::new(),
                };
                proof {
                    lemma_values_model(args@);
                }
                if args.len() != m.params.len() {
                    return Err(count_msg("macro", m.params.len(), args.len()));
                }
                let nf = env.extend(m.frame, &m.params, args);
                match eval_loop(m.body, env, nf, depth + 1, h) {
                    Ok(x) => {
                        e = x;
                    },
                    Err(msg) => {
                        return Err(msg);
                    },
                }
            },
        }
    }
}

fn eval_one(args: &Value, env: &mut Environment, cur: usize, depth: usize, f: u64) -> (r: Result<Value, String>)
    requires
        depth < MAX_DEPTH,
    ensures
        (value_result(r), final(env)@) == spec_eval_one(args@, old(env)@, cur as nat, depth as nat, f as nat),
    decreases f, 2nat, 0nat,
{
    match car(args) {
        Err(m) => Err(m),
        Ok(a) => eval_loop(a, env, cur, depth + 1, f),
    }
}

fn eval_two(args: &Value, env: &mut Environment, cur: usize, depth: usize, f: u64) -> (r: Result<(Value, Value), String>)
    requires
        depth < MAX_DEPTH,
    ensures
        (pair_result(r), final(env)@) == spec_eval_two(args@, old(env)@, cur as nat, depth as nat, f as nat),
    decreases f, 2nat, 0nat,
{
    match two(args) {
        Err(m) => Err(m),
        Ok((a1, a2)) => {
            let v1 = match eval_loop(a1, env, cur, depth + 1, f) {
                Ok(v) => v,
                Err(m) => return Err(m),
            };
            let v2 = match eval_loop(a2, env, cur, depth + 1, f) {
                Ok(v) => v,
                Err(m) => return Err(m),
            };
            Ok((v1, v2))
        },
    }
}

fn eval_defmacro(args: &Value, env: &mut Environment, cur: usize, home: usize) -> (r: Result<Value, String>)
    ensures
        Step::Done(value_result(r), final(env)@) == spec_defmacro(args@, old(env)@, cur as nat, home as nat),
{
    let ne = match car(args) {
        Ok(v) => v,
        Err(m) => return Err(m),
    };
    let rest = match cdr(args) {
        Ok(v) => v,
        Err(m) => return Err(m),
    };
    let pe = match car(&rest) {
        Ok(v) => v,
        Err(m) => return Err(m),
    };
    let body = match second(&rest) {
        Ok(v) => v,
        Err(m) => return Err(m),
    };
    match ne {
        Value::Atom(AtomType::Symbol(SymbolType::Symbol(n))) => match parameter_names(&pe) {
            None => Err(String::from_str("defmacro parameters must be symbols")),
            Some(ps) => {
                let m = Value::Macro(Box::new(Closure { params: ps, body, frame: cur }));
                env.define(home, n, m.copy());
                Ok(m)
            },
        },
        _ => Err(String::from_str("defmacro: first argument must be a symbol")),
    }
}

fn eval_form(op: Value, args: Value, env: &mut Environment, cur: usize, home: usize, depth: usize, f: u64) -> (r: Next)
    requires
        depth < MAX_DEPTH,
    ensures
        next_model(r, final(env)@) == spec_form(op@, args@, old(env)@, cur as nat, home as nat, depth as nat, f as nat),
    decreases f, 4nat, 0nat,
{
    let name: String = match &op {
        Value::Atom(AtomType::Symbol(SymbolType::Symbol(n))) => n.clone(),
        _ => {
            return eval_apply(op, args, env, cur, depth, f);
        },
    };
    let nm = name.as_str();
    if str_eq(nm, "quote") {
        Next::Done(car(&args))
    } else if str_eq(nm, "quasiquote") {
        match car(&args) {
            Err(m) => Next::Done(Err(m)),
            Ok(a) => Next::Done(eval_qq(a, env, cur, depth, 0, f)),
        }
    } else if str_eq(nm, "defmacro") {
        Next::Done(eval_defmacro(&args, env, cur, home))
    } else if str_eq(nm, "atom") {
        match eval_one(&args, env, cur, depth, f) {
            Err(m) => Next::Done(Err(m)),
            Ok(v) => Next::Done(Ok(make_bool(is_atom(&v)))),
        }
    } else if str_eq(nm, "eq") {
        match eval_two(&args, env, cur, depth, f) {
            Err(m) => Next::Done(Err(m)),
            Ok((v1, v2)) => Next::Done(Ok(make_bool(eq(&v1, &v2)))),
        }
    } else if str_eq(nm, "car") {
        match eval_one(&args, env, cur, depth, f) {
            Err(m) => Next::Done(Err(m)),
            Ok(v) => Next::Done(car(&v)),
        }
    } else if str_eq(nm, "cdr") {
        match eval_one(&args, env, cur, depth, f) {
            Err(m) => Next::Done(Err(m)),
            Ok(v) => Next::Done(cdr(&v)),
        }
    } else if str_eq(nm, "cons") {
        match eval_two(&args, env, cur, depth, f) {
            Err(m) => Next::Done(Err(m)),
            Ok((v1, v2)) => Next::Done(Ok(cons(v1, v2))),
        }
    } else if str_eq(nm, "cond") {
        eval_cond(&args, env, cur, depth, f)
    } else if str_eq(nm, "lambda") {
        let pe = match car(&args) {
            Ok(v) => v,
            Err(m) => return Next::Done(Err(m)),
        };
        let body = match second(&args) {
            Ok(v) => v,
            Err(m) => return Next::Done(Err(m)),
        };
        match parameter_names(&pe) {
            None => Next::Done(Err(String::from_str("lambda parameters must be symbols"))),
            Some(ps) => Next::Done(Ok(Value::Lambda(Box::new(Closure { params: ps, body, frame: cur })))),
        }
    } else if str_eq(nm, "label") {
        let ne = match car(&args) {
            Ok(v) => v,
            Err(m) => return Next::Done(Err(m)),
        };
        let fe = match second(&args) {
            Ok(v) => v,
            Err(m) => return Next::Done(Err(m)),
        };
        match ne {
            Value::Atom(AtomType::Symbol(SymbolType::Symbol(n))) => match eval_loop(fe, env, cur, depth + 1, f) {
                Err(m) => Next::Done(Err(m)),
                Ok(v) => {
                    env.define(home, n, v.copy());
                    Next::Done(Ok(v))
                },
            },
            _ => Next::Done(Err(String::from_str("label: first argument must be a symbol"))),
        }
    } else if is_arith(nm) || is_compare(nm) {
        match eval_list(&args, env, cur, depth, f) {
            Err(m) => Next::Done(Err(m)),
            Ok(vals) => Next::Done(operator_form(nm, &vals)),
        }
    } else if str_eq(nm, "vector-length") {
        match eval_one(&args, env, cur, depth, f) {
            Err(m) => Next::Done(Err(m)),
            Ok(v) => Next::Done(vector_length(&v)),
        }
    } else if str_eq(nm, "vector-ref") {
        match eval_two(&args, env, cur, depth, f) {
            Err(m) => Next::Done(Err(m)),
            Ok((v1, v2)) => Next::Done(vector_ref(&v1, &v2)),
        }
    } else {
        eval_apply(op, args, env, cur, depth, f)
    }
}

fn eval_cond(args: &Value, env: &mut Environment, cur: usize, depth: usize, f: u64) -> (r: Next)
    requires
        depth < MAX_DEPTH,
    ensures
        next_model(r, final(env)@) == spec_cond(list_elements(args@), 0, old(env)@, cur as nat, depth as nat, f as nat),
    decreases f, 3nat, 0nat,
{
    let cls = collect_list(args);
    let ghost cm = values_model(cls@);
    proof {
        lemma_values_model(cls@);
    }
    let ghost goal = spec_cond(cm, 0, env@, cur as nat, depth as nat, f as nat);
    let ghost env0 = env@;
    let mut i: usize = 0;
    while i < cls.len()
        invariant
            depth < MAX_DEPTH,
            cm == list_elements(args@),
            goal == spec_cond(cm, 0, env0, cur as nat, depth as nat, f as nat),
            env0 == old(env)@,
            cm == values_model(cls@),
            cm.len() == cls@.len(),
            forall|j: int| 0 <= j < cls@.len() ==> cm[j] == (#[trigger] cls@[j])@,
            i <= cls.len(),
            goal == spec_cond(cm, i as nat, env@, cur as nat, depth as nat, f as nat),
        decreases cls.len() - i,
    {
        let c = match car(&cls[i]) {
            Ok(v) => v,
            Err(m) => return Next::Done(Err(m)),
        };
        let re = match second(&cls[i]) {
            Ok(v) => v,
            Err(m) => return Next::Done(Err(m)),
        };
        match eval_loop(c, env, cur, depth + 1, f) {
            Err(m) => {
                return Next::Done(Err(m));
            },
            Ok(cv) => {
                if is_truthy(&cv) {
                    return Next::Tail(re, cur);
                }
            },
        }
        i = i + 1;
    }
    Next::Done(Ok(Value::Nil))
}

pub open spec fn values_result(r: Result<Vec<Value>, String>) -> Result<Seq<ValueModel>, Seq<char>> {
    match r {
        Ok(v) => Ok(values_model(v@)),
        Err(m) => Err(m@),
    }
}

/// Evaluates the elements of a list in order, one level deeper.
fn eval_list(args: &Value, env: &mut Environment, cur: usize, depth: usize, f: u64) -> (r: Result<Vec<Value>, String>)
    requires
        depth < MAX_DEPTH,
    ensures
        (values_result(r), final(env)@) == spec_args(
            list_elements(args@),
            list_elements(args@).len(),
            old(env)@,
            cur as nat,
            (depth + 1) as nat,
            f as nat,
        ),
    decreases f, 2nat, 0nat,
{
    let xs = collect_list(args);
    let ghost xm = values_model(xs@);
    proof {
        lemma_values_model(xs@);
    }
    let ghost e1 = env@;
    let mut vals: Vec<Value> = Vec::new();
    let mut i: usize = 0;
    assert(values_model(vals@) =~= Seq::<ValueModel>::empty());
    while i < xs.len()
        invariant
            depth < MAX_DEPTH,
            xm == values_model(xs@),
            xm.len() == xs@.len(),
            forall|j: int| 0 <= j < xs@.len() ==> xm[j] == (#[trigger] xs@[j])@,
            i <= xs.len(),
            xm == list_elements(args@),
            e1 == old(env)@,
            spec_args(xm, i as nat, e1, cur as nat, (depth + 1) as nat, f as nat) == (
                Ok::<Seq<ValueModel>, Seq<char>>(values_model(vals@)),
                env@,
            ),
        decreases xs.len() - i,
    {
        match eval_loop(xs[i].copy(), env, cur, depth + 1, f) {
            Err(m) => {
                proof {
                    lemma_args_error(xm, (i + 1) as nat, xs.len() as nat, e1, cur as nat, (depth + 1) as nat, f as nat);
                }
                return Err(m);
            },
            Ok(v) => {
                proof {
                    crate::abstractions::lemma_values_model_push(vals@, v);
                }
                vals.push(v);
            },
        }
        i = i + 1;
    }
    assert(xs.len() == xm.len());
    Ok(vals)
}

fn eval_apply(op: Value, args: Value, env: &mut Environment, cur: usize, depth: usize, f: u64) -> (r: Next)
    requires
        depth < MAX_DEPTH,
    ensures
        next_model(r, final(env)@) == spec_apply(op@, args@, old(env)@, cur as nat, depth as nat, f as nat),
    decreases f, 3nat, 0nat,
{
    let func = match eval_loop(op, env, cur, depth + 1, f) {
        Ok(v) => v,
        Err(m) => return Next::Done(Err(m)),
    };
    let vals = match eval_list(&args, env, cur, depth, f) {
        Ok(v) => v,
        Err(m) => return Next::Done(Err(m)),
    };
    match func {
        Value::Lambda(c) => {
            proof {
                lemma_values_model(vals@);
            }
            if c.params.len() != vals.len() {
                Next::Done(Err(count_msg("lambda", c.params.len(), vals.len())))
            } else {
                let c = *c;
                let nf = env.extend(c.frame, &c.params, vals);
                Next::Tail(c.body, nf)
            }
        },
        Value::NativeFn(b) => Next::Done(eval_native(b, vals, env, cur, f)),
        other => Next::Done(Err(with_value("Cannot apply non-function: ", &other))),
    }
}

fn arith_args(op: &str, args: &Vec<Value>) -> (r: Result<Value, String>)
    ensures
        value_result(r) == spec_arith_args(op@, values_model(args@)),
{
    proof {
        lemma_values_model(args@);
    }
    if args.len() < 2 {
        let mut m = String::from_str(op);
        m.append(": expected at least 2 arguments");
        Err(m)
    } else {
        match fold_numbers(op, args) {
            Ok(n) => Ok(Value::Atom(AtomType::Number(n))),
            Err(m) => Err(m),
        }
    }
}

fn compare_args(op: &str, args: &Vec<Value>) -> (r: Result<Value, String>)
    ensures
        value_result(r) == spec_compare_args(op@, values_model(args@)),
{
    proof {
        lemma_values_model(args@);
    }
    if args.len() != 2 {
        let mut m = String::from_str(op);
        m.append(": expected 2 arguments");
        Err(m)
    } else {
        numeric_form(op, &args[0], &args[1])
    }
}

fn negate(v: &Value) -> (r: Result<Value, String>)
    ensures
        value_result(r) == spec_negate(v@),
{
    match v {
        Value::Atom(AtomType::Number(n)) => match number_op("-", &NumericType::Int(0), n) {
            Ok(r) => Ok(Value::Atom(AtomType::Number(r))),
            Err(m) => Err(m),
        },
        _ => Err(with_value("-: expected number, got ", v)),
    }
}

fn operator_form(op: &str, args: &Vec<Value>) -> (r: Result<Value, String>)
    ensures
        value_result(r) == spec_operator_form(op@, values_model(args@)),
{
    proof {
        lemma_values_model(args@);
    }
    if str_eq(op, "-") && args.len() == 1 {
        negate(&args[0])
    } else if is_arith(op) {
        arith_args(op, args)
    } else {
        compare_args(op, args)
    }
}

/// An error among the first `n` arguments is the error of all `m`.
proof fn lemma_args_error(xs: Seq<ValueModel>, n: nat, m: nat, env: EnvModel, cur: nat, depth: nat, f: nat)
    requires
        n <= m,
        spec_args(xs, n, env, cur, depth, f).0 is Err,
    ensures
        spec_args(xs, m, env, cur, depth, f) == spec_args(xs, n, env, cur, depth, f),
    decreases m - n,
{
    if n < m {
        lemma_args_error(xs, n, (m - 1) as nat, env, cur, depth, f);
    }
}

fn is_cons(e: &Value) -> (r: bool)
    ensures
        r == (e@ is Cons),
{
    match e {
        Value::Cons(_) => true,
        _ => false,
    }
}

/// The name of the symbol at the head of a cons cell.
fn head_symbol(e: &Value) -> (r: Option<String>)
    ensures
        match r {
            Some(n) => e@ matches ValueModel::Cons(a, _) && *a == ValueModel::Symbol(n@),
            None => !(e@ matches ValueModel::Cons(a, _) && *a is Symbol),
        },
{
    match e {
        Value::Cons(c) => match &c.car {
            Value::Atom(AtomType::Symbol(SymbolType::Symbol(n))) => {
                let r = n.clone();
                assert(c.car@ == ValueModel::Symbol(n@));
                assert(e@ == ValueModel::Cons(Box::new(c.car@), Box::new(c.cdr@)));
                Some(r)
            },
            _ => None,
        },
        _ => None,
    }
}

fn is_splice_exec(x: &Value) -> (r: bool)
    ensures
        r == is_splice(x@),
{
    match head_symbol(x) {
        Some(n) => {
            proof {
                reveal_strlit("unquote-splicing");
            }
            str_eq(n.as_str(), "unquote-splicing")
        },
        None => false,
    }
}

fn rest_copy(e: &Value) -> (r: Value)
    ensures
        r@ == rest_of(e@),
{
    match e {
        Value::Cons(c) => c.cdr.copy(),
        _ => Value::Nil,
    }
}

/// Quasiquote at nesting `level`.
fn eval_qq(e: Value, env: &mut Environment, cur: usize, depth: usize, level: u64, g: u64) -> (r: Result<Value, String>)
    requires
        depth < MAX_DEPTH,
        level + g <= u64::MAX,
    ensures
        (value_result(r), final(env)@) == spec_qq(e@, old(env)@, cur as nat, depth as nat, level as nat, g as nat),
    decreases g, 2nat, 0nat,
{
    if g == 0 {
        return Err(String::from_str("Evaluation step limit reached"));
    }
    let h = g - 1;
    if !is_cons(&e) {
        return Ok(e);
    }
    let head = head_symbol(&e);
    let d = rest_copy(&e);
    let ghost em = e@;
    let ghost dm = d@;
    match head {
        Some(name) => {
            let nm = name.as_str();
            if str_eq(nm, "unquote") && level == 0 {
                return match car(&d) {
                    Err(m) => Err(m),
                    Ok(x) => eval_loop(x, env, cur, depth + 1, h),
                };
            } else if str_eq(nm, "unquote-splicing") && level == 0 {
                return Err(String::from_str("unquote-splicing not in list context"));
            } else if str_eq(nm, "quasiquote") || str_eq(nm, "unquote") {
                let x = match car(&d) {
                    Err(m) => return Err(m),
                    Ok(x) => x,
                };
                let lv = if str_eq(nm, "quasiquote") {
                    level + 1
                } else {
                    level - 1
                };
                return match eval_qq(x, env, cur, depth, lv, h) {
                    Err(m) => Err(m),
                    Ok(r) => Ok(cons(make_symbol(nm), cons(r, Value::Nil))),
                };
            }
        },
        None => {},
    }
    let xs = collect_list(&e);
    let ghost xm = values_model(xs@);
    proof {
        lemma_values_model(xs@);
    }
    let ghost e1 = env@;
    let ghost goal = spec_qq(e@, e1, cur as nat, depth as nat, level as nat, g as nat);
    assert(goal == qq_list_result(e@, xm, e1, cur as nat, depth as nat, level as nat, h as nat));
    let mut vals: Vec<Value> = Vec::new();
    let mut i: usize = 0;
    assert(values_model(vals@) =~= Seq::<ValueModel>::empty());
    while i < xs.len()
        invariant
            depth < MAX_DEPTH,
            level + h <= u64::MAX,
            h == g - 1,
            goal == qq_list_result(e@, xm, e1, cur as nat, depth as nat, level as nat, h as nat),
            goal == spec_qq(e@, old(env)@, cur as nat, depth as nat, level as nat, g as nat),
            xm == list_elements(e@),
            xm == values_model(xs@),
            xm.len() == xs@.len(),
            forall|j: int| 0 <= j < xs@.len() ==> xm[j] == (#[trigger] xs@[j])@,
            i <= xs.len(),
            spec_qq_items(xm, i as nat, e1, cur as nat, depth as nat, level as nat, h as nat) == (
                Ok::<Seq<ValueModel>, Seq<char>>(values_model(vals@)),
                env@,
            ),
        decreases xs.len() - i,
    {
        let splice = is_splice_exec(&xs[i]);
        if splice && level == 0 {
            let inner = rest_copy(&xs[i]);
            let se = match car(&inner) {
                Ok(v) => v,
                Err(m) => {
                    proof {
                        lemma_items_error(xm, (i + 1) as nat, xs.len() as nat, e1, cur as nat, depth as nat, level as nat, h as nat);
                    }
                    return Err(m);
                },
            };
            match eval_loop(se, env, cur, depth + 1, h) {
                Err(m) => {
                    proof {
                        lemma_items_error(xm, (i + 1) as nat, xs.len() as nat, e1, cur as nat, depth as nat, level as nat, h as nat);
                    }
                    return Err(m);
                },
                Ok(sv) => {
                    let parts = collect_list(&sv);
                    let ghost before = vals@;
                    let mut k: usize = 0;
                    proof {
                        lemma_values_model(parts@);
                        lemma_values_model(before);
                    }
                    while k < parts.len()
                        invariant
                            k <= parts.len(),
                            values_model(vals@) == values_model(before) + values_model(parts@).take(k as int),
                        decreases parts.len() - k,
                    {
                        let pc = parts[k].copy();
                        proof {
                            crate::abstractions::lemma_values_model_push(vals@, pc);
                            lemma_values_model(parts@);
                        }
                        vals.push(pc);
                        assert(values_model(parts@).take(k + 1) =~= values_model(parts@).take(k as int).push(parts@[k as int]@));
                        k = k + 1;
                    }
                    assert(values_model(parts@).take(parts.len() as int) =~= values_model(parts@));
                },
            }
        } else {
            let xc = xs[i].copy();
            match eval_qq(xc, env, cur, depth, level, h) {
                Err(m) => {
                    proof {
                        lemma_items_error(xm, (i + 1) as nat, xs.len() as nat, e1, cur as nat, depth as nat, level as nat, h as nat);
                    }
                    return Err(m);
                },
                Ok(p) => {
                    proof {
                        crate::abstractions::lemma_values_model_push(vals@, p);
                    }
                    vals.push(p);
                },
            }
        }
        i = i + 1;
    }
    if ends_in_nil(&e) {
        Ok(vec_to_list(vals))
    } else {
        Err(String::from_str("quasiquote: improper list not fully supported"))
    }
}

proof fn lemma_items_error(
    xs: Seq<ValueModel>,
    n: nat,
    m: nat,
    env: EnvModel,
    cur: nat,
    depth: nat,
    level: nat,
    g: nat,
)
    requires
        n <= m,
        spec_qq_items(xs, n, env, cur, depth, level, g).0 is Err,
    ensures
        spec_qq_items(xs, m, env, cur, depth, level, g) == spec_qq_items(xs, n, env, cur, depth, level, g),
    decreases m - n,
{
    if n < m {
        lemma_items_error(xs, n, (m - 1) as nat, env, cur, depth, level, g);
    }
}

// ============================================================================
// Native functions
// ============================================================================

proof fn lemma_args_model(v: Seq<Value>)
    ensures
        crate::stdlib::args_model(v) == values_model(v),
{
    lemma_values_model(v);
    assert(crate::stdlib::args_model(v) =~= values_model(v));
}

fn copy_result(r: &Result<Value, String>) -> (c: Result<Value, String>)
    ensures
        value_result(c) == value_result(*r),
{
    match r {
        Ok(v) => Ok(v.copy()),
        Err(m) => Err(m.clone()),
    }
}

fn io_request(b: Builtin, args: &Vec<Value>) -> (r: Result<Action, String>)
    requires
        is_io(b),
    ensures
        match (r, spec_io_request(b, values_model(args@))) {
            (Ok(a), Ok(m)) => action_model(a) == m,
            (Err(e), Err(m)) => e@ == m,
            _ => false,
        },
{
    proof {
        lemma_args_model(args@);
        lemma_values_model(args@);
    }
    match b {
        Builtin::Print => Ok(Action::Write(crate::stdlib::print_text(args.as_slice(), false))),
        Builtin::Println => Ok(Action::Write(crate::stdlib::print_text(args.as_slice(), true))),
        Builtin::Slurp => match crate::stdlib::slurp_path(args.as_slice()) {
            Ok(p) => Ok(Action::ReadFile(p)),
            Err(m) => Err(m),
        },
        Builtin::Spit => match crate::stdlib::spit_args(args.as_slice()) {
            Ok((p, c)) => Ok(Action::WriteFile(p, c)),
            Err(m) => Err(m),
        },
        Builtin::Shell => match crate::stdlib::shell_command(args.as_slice()) {
            Ok(c) => Ok(Action::Run(c)),
            Err(m) => Err(m),
        },
        _ => match crate::stdlib::now_args(args.as_slice()) {
            Ok(()) => Ok(Action::Clock),
            Err(m) => Err(m),
        },
    }
}

impl Environment {
    /// The next answer of the run, or, when there is none, the request
    /// recorded and the run stopped.
    fn answer(&mut self, a: Action) -> (r: Result<Value, String>)
        ensures
            old(self)@.used < old(self)@.replies.len() ==> (value_result(r)
                == old(self)@.replies[old(self)@.used as int] && final(self)@ == (EnvModel {
                used: old(self)@.used + 1,
                ..old(self)@
            })),
            old(self)@.used >= old(self)@.replies.len() ==> (value_result(r) == Err::<
                ValueModel,
                Seq<char>,
            >(suspend_message()) && final(self)@ == (EnvModel {
                pending: Some(action_model(a)),
                ..old(self)@
            })),
    {
        if self.used < self.replies.len() {
            let r = copy_result(&self.replies[self.used]);
            self.used = self.used + 1;
            r
        } else {
            self.pending = Some(a);
            Err(String::from_str("input or output requested"))
        }
    }
}

fn fold_numbers(op: &str, args: &Vec<Value>) -> (r: Result<NumericType, String>)
    requires
        args@.len() >= 1,
    ensures
        match (r, spec_fold(op@, values_model(args@), args@.len())) {
            (Ok(a), Ok(m)) => a@ == m,
            (Err(e), Err(m)) => e@ == m,
            _ => false,
        },
{
    let ghost am = values_model(args@);
    proof {
        lemma_values_model(args@);
    }
    let mut acc = match &args[0] {
        Value::Atom(AtomType::Number(n)) => n.copy(),
        _ => {
            proof {
                lemma_fold_error(op@, am, 1, args@.len());
            }
            return Err(with_value(&format_prefix(op), &args[0]));
        },
    };
    let mut i: usize = 1;
    while i < args.len()
        invariant
            1 <= i <= args@.len(),
            am == values_model(args@),
            am.len() == args@.len(),
            forall|j: int| 0 <= j < args@.len() ==> am[j] == (#[trigger] args@[j])@,
            spec_fold(op@, am, i as nat) == Ok::<NumberModel, Seq<char>>(acc@),
        decreases args.len() - i,
    {
        let x = match &args[i] {
            Value::Atom(AtomType::Number(n)) => n,
            _ => {
                proof {
                    lemma_fold_error(op@, am, (i + 1) as nat, args@.len());
                }
                return Err(with_value(&format_prefix(op), &args[i]));
            },
        };
        let next = match number_op(op, &acc, x) {
            Ok(n) => n,
            Err(m) => {
                proof {
                    lemma_fold_error(op@, am, (i + 1) as nat, args@.len());
                }
                return Err(m);
            },
        };
        acc = next;
        i = i + 1;
    }
    Ok(acc)
}

proof fn lemma_fold_error(op: Seq<char>, args: Seq<ValueModel>, n: nat, m: nat)
    requires
        1 <= n <= m,
        spec_fold(op, args, n) is Err,
    ensures
        spec_fold(op, args, m) == spec_fold(op, args, n),
    decreases m - n,
{
    if n < m {
        lemma_fold_error(op, args, n, (m - 1) as nat);
    }
}

fn arith_str(b: Builtin) -> (r: &'static str)
    ensures
        r@ == arith_name(b),
{
    match b {
        Builtin::Add => "+",
        Builtin::Sub => "-",
        Builtin::Mul => "*",
        Builtin::Div => "/",
        Builtin::Lt => "<",
        Builtin::Gt => ">",
        Builtin::Lte => "<=",
        Builtin::Gte => ">=",
        _ => "=",
    }
}

fn eval_native(b: Builtin, args: Vec<Value>, env: &mut Environment, cur: usize, f: u64) -> (r: Result<Value, String>)
    ensures
        (value_result(r), final(env)@) == spec_native(b, values_model(args@), old(env)@, cur as nat, f as nat),
    decreases f, 2nat, 1nat,
{
    proof {
        lemma_args_model(args@);
        lemma_values_model(args@);
    }
    let io = match b {
        Builtin::Print | Builtin::Println | Builtin::Slurp | Builtin::Spit | Builtin::Shell
        | Builtin::Now => true,
        _ => false,
    };
    if io {
        return match io_request(b, &args) {
            Err(m) => Err(m),
            Ok(a) => env.answer(a),
        };
    }
    match b {
        Builtin::Atom => crate::stdlib::atom(args.as_slice()),
        Builtin::Eq => crate::stdlib::eq(args.as_slice()),
        Builtin::Car => crate::stdlib::car(args.as_slice()),
        Builtin::Cdr => crate::stdlib::cdr(args.as_slice()),
        Builtin::Cons => crate::stdlib::cons_fn(args.as_slice()),
        Builtin::Vector => crate::stdlib::vector(args.as_slice()),
        Builtin::Add | Builtin::Sub | Builtin::Mul | Builtin::Div => arith_args(arith_str(b), &args),
        Builtin::Lt | Builtin::Gt | Builtin::Lte | Builtin::Gte | Builtin::NumEq => {
            compare_args(arith_str(b), &args)
        },
        Builtin::Gensym => {
            if env.counter == usize::MAX {
                Err(String::from_str("gensym: counter exhausted"))
            } else {
                let r = crate::stdlib::gensym(args.as_slice(), env.counter);
                if r.is_ok() {
                    env.counter = env.counter + 1;
                }
                r
            }
        },
        Builtin::MacroExpand1 => {
            if args.len() != 1 {
                Err(String::from_str("macroexpand-1: expected 1 argument"))
            } else {
                expand_once(args[0].copy(), env, cur, f)
            }
        },
        _ => {
            if args.len() != 1 {
                Err(String::from_str("macroexpand: expected 1 argument"))
            } else {
                expand_all(args[0].copy(), env, cur, f)
            }
        },
    }
}

fn expand_once(e: Value, env: &mut Environment, cur: usize, f: u64) -> (r: Result<Value, String>)
    ensures
        (value_result(r), final(env)@) == spec_expand_once(e@, old(env)@, cur as nat, f as nat),
    decreases f, 2nat, 0nat,
{
    match find_macro(&e, env, cur) {
        None => Ok(e),
        Some(m) => {
            let args = match &e {
                Value::Cons(c) => collect_list(&c.cdr),
                _ => Vec::new(),
            };
            proof {
                lemma_values_model(args@);
            }
            if args.len() != m.params.len() {
                return Err(count_msg("macro", m.params.len(), args.len()));
            }
            let nf = env.extend(m.frame, &m.params, args);
            eval_loop(m.body, env, nf, 0, f)
        },
    }
}

fn expand_all(e: Value, env: &mut Environment, cur: usize, g: u64) -> (r: Result<Value, String>)
    ensures
        (value_result(r), final(env)@) == spec_expand_all(e@, old(env)@, cur as nat, g as nat),
    decreases g, 2nat, 0nat,
{
    let ghost goal = spec_expand_all(e@, env@, cur as nat, g as nat);
    let ghost e0 = e@;
    let ghost env0 = env@;
    let mut x = e;
    let mut h = g;
    loop
        invariant
            h <= g,
            e0 == e@,
            env0 == old(env)@,
            goal == spec_expand_all(e0, env0, cur as nat, g as nat),
            goal == spec_expand_all(x@, env@, cur as nat, h as nat),
        decreases h,
    {
        if h == 0 {
            return Err(String::from_str("Evaluation step limit reached"));
        }
        h = h - 1;
        let prev = x.copy();
        match expand_once(x, env, cur, h) {
            Err(m) => {
                return Err(m);
            },
            Ok(n) => {
                if value_equal(&n, &prev) {
                    return Ok(n);
                }
                x = n;
            },
        }
    }
}

// ============================================================================
// The standard library's bindings, and runs with input and output
// ============================================================================

/// The names that the standard library binds, with their native functions.
pub open spec fn builtin_table() -> Seq<(Seq<char>, Builtin)> {
    seq![
        ("print"@, Builtin::Print),
        ("println"@, Builtin::Println),
        ("slurp"@, Builtin::Slurp),
        ("spit"@, Builtin::Spit),
        ("shell"@, Builtin::Shell),
        ("now"@, Builtin::Now),
        ("gensym"@, Builtin::Gensym),
        ("macroexpand-1"@, Builtin::MacroExpand1),
        ("macroexpand"@, Builtin::MacroExpand),
        ("atom"@, Builtin::Atom),
        ("eq"@, Builtin::Eq),
        ("car"@, Builtin::Car),
        ("cdr"@, Builtin::Cdr),
        ("cons"@, Builtin::Cons),
        ("+"@, Builtin::Add),
        ("-"@, Builtin::Sub),
        ("*"@, Builtin::Mul),
        ("/"@, Builtin::Div),
        ("<"@, Builtin::Lt),
        (">"@, Builtin::Gt),
        ("<="@, Builtin::Lte),
        (">="@, Builtin::Gte),
        ("="@, Builtin::NumEq),
        ("vector"@, Builtin::Vector),
    ]
}

/// The environment after binding the first `n` names of the table in the
/// global frame, in order.
pub open spec fn spec_register(env: EnvModel, n: nat) -> EnvModel
    decreases n,
{
    if n == 0 {
        env
    } else {
        let (name, b) = builtin_table()[n - 1];
        spec_define(spec_register(env, (n - 1) as nat), 0, name, ValueModel::NativeFn(b))
    }
}

fn builtin_entry(i: usize) -> (r: (&'static str, Builtin))
    requires
        i < 24,
    ensures
        r.0@ == builtin_table()[i as int].0,
        r.1 == builtin_table()[i as int].1,
{
    match i {
        0 => ("print", Builtin::Print),
        1 => ("println", Builtin::Println),
        2 => ("slurp", Builtin::Slurp),
        3 => ("spit", Builtin::Spit),
        4 => ("shell", Builtin::Shell),
        5 => ("now", Builtin::Now),
        6 => ("gensym", Builtin::Gensym),
        7 => ("macroexpand-1", Builtin::MacroExpand1),
        8 => ("macroexpand", Builtin::MacroExpand),
        9 => ("atom", Builtin::Atom),
        10 => ("eq", Builtin::Eq),
        11 => ("car", Builtin::Car),
        12 => ("cdr", Builtin::Cdr),
        13 => ("cons", Builtin::Cons),
        14 => ("+", Builtin::Add),
        15 => ("-", Builtin::Sub),
        16 => ("*", Builtin::Mul),
        17 => ("/", Builtin::Div),
        18 => ("<", Builtin::Lt),
        19 => (">", Builtin::Gt),
        20 => ("<=", Builtin::Lte),
        21 => (">=", Builtin::Gte),
        22 => ("=", Builtin::NumEq),
        _ => ("vector", Builtin::Vector),
    }
}

/// Binds the standard library's native functions in the global frame.
pub fn register_stdlib(env: &mut Environment)
    ensures
        final(env)@ == spec_register(old(env)@, 24),
{
    let ghost env0 = env@;
    let mut i: usize = 0;
    while i < 24
        invariant
            i <= 24,
            env0 == old(env)@,
            env@ == spec_register(env0, i as nat),
        decreases 24 - i,
    {
        let (name, b) = builtin_entry(i);
        env.define(0, String::from_str(name), Value::NativeFn(b));
        i = i + 1;
    }
}

pub open spec fn replies_model(r: Seq<Result<Value, String>>) -> Seq<Result<ValueModel, Seq<char>>> {
    r.map_values(|x: Result<Value, String>| value_result(x))
}

fn copy_frame(f: &Frame) -> (r: Frame)
    ensures
        frame_model(r) == frame_model(*f),
{
    let mut vars: Vec<(String, Value)> = Vec::new();
    let mut i: usize = 0;
    while i < f.vars.len()
        invariant
            i <= f.vars.len(),
            vars@.len() == i,
            forall|j: int| 0 <= j < i ==> vars@[j].0@ == f.vars@[j].0@ && vars@[j].1@ == f.vars@[j].1@,
        decreases f.vars.len() - i,
    {
        vars.push((f.vars[i].0.clone(), f.vars[i].1.copy()));
        i = i + 1;
    }
    assert(vars_model(vars@) =~= vars_model(f.vars@));
    Frame { vars, parent: f.parent }
}

fn copy_action(a: &Action) -> (r: Action)
    ensures
        action_model(r) == action_model(*a),
{
    match a {
        Action::Write(t) => Action::Write(t.clone()),
        Action::ReadFile(p) => Action::ReadFile(p.clone()),
        Action::WriteFile(p, c) => Action::WriteFile(p.clone(), c.clone()),
        Action::Run(c) => Action::Run(c.clone()),
        Action::Clock => Action::Clock,
    }
}

impl Environment {
    /// A copy of the environment.
    pub fn copy(&self) -> (r: Environment)
        ensures
            r@ == self@,
    {
        let mut frames: Vec<Frame> = Vec::new();
        let mut i: usize = 0;
        while i < self.frames.len()
            invariant
                i <= self.frames.len(),
                frames@.len() == i,
                forall|j: int| 0 <= j < i ==> frame_model(#[trigger] frames@[j]) == frame_model(self.frames@[j]),
            decreases self.frames.len() - i,
        {
            frames.push(copy_frame(&self.frames[i]));
            i = i + 1;
        }
        let mut replies: Vec<Result<Value, String>> = Vec::new();
        let mut k: usize = 0;
        while k < self.replies.len()
            invariant
                k <= self.replies.len(),
                replies@.len() == k,
                forall|j: int| 0 <= j < k ==> value_result(#[trigger] replies@[j]) == value_result(self.replies@[j]),
            decreases self.replies.len() - k,
        {
            replies.push(copy_result(&self.replies[k]));
            k = k + 1;
        }
        let pending = match &self.pending {
            Some(a) => Some(copy_action(a)),
            None => None,
        };
        let r = Environment { frames, replies, used: self.used, pending, counter: self.counter };
        assert(r@.frames =~= self@.frames);
        assert(r@.replies =~= self@.replies);
        r
    }

    /// The environment ready for a run that has the given answers to input
    /// and output, in order.
    pub fn with_replies(self, replies: Vec<Result<Value, String>>) -> (r: Environment)
        ensures
            r@ == (EnvModel { replies: replies_model(replies@), used: 0, pending: None, ..self@ }),
    {
        Environment { frames: self.frames, replies, used: 0, pending: None, counter: self.counter }
    }

    /// The input or output that stopped the last run, if any.
    pub fn pending_action(&self) -> (r: Option<Action>)
        ensures
            match self@.pending {
                Some(a) => r matches Some(x) && action_model(x) == a,
                None => r is None,
            },
    {
        match &self.pending {
            Some(a) => Some(copy_action(a)),
            None => None,
        }
    }
}

// ============================================================================
// Laws of environments and evaluation
// ============================================================================

proof fn lemma_var_index(vs: Seq<(Seq<char>, ValueModel)>, name: Seq<char>)
    ensures
        match var_index(vs, name) {
            Some(i) => 0 <= i < vs.len() && vs[i].0 == name && forall|j: int|
                0 <= j < i ==> (#[trigger] vs[j]).0 != name,
            None => forall|j: int| 0 <= j < vs.len() ==> (#[trigger] vs[j]).0 != name,
        },
    decreases vs.len(),
{
    if vs.len() > 0 {
        lemma_var_index(vs.drop_last(), name);
        assert forall|j: int| 0 <= j < vs.len() - 1 implies #[trigger] vs[j] == vs.drop_last()[j] by {}
    }
}

proof fn lemma_var_index_unique(vs: Seq<(Seq<char>, ValueModel)>, name: Seq<char>, i: int)
    requires
        0 <= i < vs.len(),
        vs[i].0 == name,
        forall|j: int| 0 <= j < i ==> (#[trigger] vs[j]).0 != name,
    ensures
        var_index(vs, name) == Some(i),
{
    lemma_var_index(vs, name);
}

proof fn lemma_vars_insert(vs: Seq<(Seq<char>, ValueModel)>, name: Seq<char>, v: ValueModel, other: Seq<char>)
    ensures
        ({
            let ws = vars_insert(vs, name, v);
            &&& var_index(ws, name) matches Some(i) && ws[i].1 == v
            &&& other != name ==> (var_index(ws, other) == var_index(vs, other) && (var_index(vs, other) matches Some(k) ==> ws[k].1 == vs[k].1))
        }),
{
    lemma_var_index(vs, name);
    lemma_var_index(vs, other);
    let ws = vars_insert(vs, name, v);
    match var_index(vs, name) {
        Some(i) => {
            assert forall|j: int| 0 <= j < i implies (#[trigger] ws[j]).0 != name by {
                assert(ws[j] == vs[j]);
            }
            lemma_var_index_unique(ws, name, i);
            if other != name {
                match var_index(vs, other) {
                    Some(k) => {
                        assert forall|j: int| 0 <= j < k implies (#[trigger] ws[j]).0 != other by {
                            if j != i {
                                assert(ws[j] == vs[j]);
                            }
                        }
                        lemma_var_index_unique(ws, other, k);
                    },
                    None => {
                        lemma_var_index(ws, other);
                        if let Some(k) = var_index(ws, other) {
                            if k != i {
                                assert(ws[k] == vs[k]);
                            }
                        }
                    },
                }
            }
        },
        None => {
            assert forall|j: int| 0 <= j < vs.len() implies (#[trigger] ws[j]).0 != name by {
                assert(ws[j] == vs[j]);
            }
            lemma_var_index_unique(ws, name, vs.len() as int);
            if other != name {
                match var_index(vs, other) {
                    Some(k) => {
                        assert forall|j: int| 0 <= j < k implies (#[trigger] ws[j]).0 != other by {
                            assert(ws[j] == vs[j]);
                        }
                        lemma_var_index_unique(ws, other, k);
                    },
                    None => {
                        lemma_var_index(ws, other);
                        if let Some(k) = var_index(ws, other) {
                            if k < vs.len() {
                                assert(ws[k] == vs[k]);
                            }
                        }
                    },
                }
            }
        },
    }
}

proof fn lemma_lookup_below(env: EnvModel, frame: nat, name: Seq<char>, v: ValueModel, q: nat, other: Seq<char>)
    requires
        q < frame,
        frame < env.frames.len(),
    ensures
        spec_lookup(spec_define(env, frame, name, v), q, other) == spec_lookup(env, q, other),
    decreases q,
{
    let e2 = spec_define(env, frame, name, v);
    assert(e2.frames[q as int] == env.frames[q as int]);
    match env.frames[q as int].parent {
        Some(p) => if p < q {
            lemma_lookup_below(env, frame, name, v, p, other);
        },
        None => {},
    }
}

/// What a lookup gives back of a definition: after `name` is bound to `v`
/// in a frame, looking `name` up from that frame gives `v`, and looking up
/// any other name gives what it gave before.
pub proof fn law_lookup_after_define(env: EnvModel, frame: nat, name: Seq<char>, v: ValueModel, other: Seq<char>)
    requires
        frame < env.frames.len(),
    ensures
        spec_lookup(spec_define(env, frame, name, v), frame, name) == Some(v),
        other != name ==> spec_lookup(spec_define(env, frame, name, v), frame, other) == spec_lookup(
            env,
            frame,
            other,
        ),
{
    let e2 = spec_define(env, frame, name, v);
    lemma_vars_insert(env.frames[frame as int].vars, name, v, other);
    assert(e2.frames[frame as int].vars == vars_insert(env.frames[frame as int].vars, name, v));
    assert(e2.frames[frame as int].parent == env.frames[frame as int].parent);
    if other != name {
        match env.frames[frame as int].parent {
            Some(p) => if p < frame {
                lemma_lookup_below(env, frame, name, v, p, other);
            },
            None => {},
        }
    }
}

/// A call's frame binds each parameter to its argument: looking up a
/// parameter that occurs once in the new frame gives its argument.
pub proof fn law_extend_binds_parameters(env: EnvModel, parent: nat, params: Seq<Seq<char>>, args: Seq<ValueModel>, i: int)
    requires
        params.len() == args.len(),
        0 <= i < params.len(),
        forall|j: int| 0 <= j < params.len() && j != i ==> params[j] != params[i],
    ensures
        spec_lookup(spec_extend(env, parent, params, args), env.frames.len(), params[i]) == Some(args[i]),
{
    let e2 = spec_extend(env, parent, params, args);
    lemma_bind_lookup(params, args, params.len(), i);
    assert(e2.frames[env.frames.len() as int].vars == bind(params, args, params.len()));
}

/// Adding a frame at the end changes no lookup from the frames before it.
proof fn lemma_lookup_after_push(env: EnvModel, f: FrameModel, q: nat, name: Seq<char>)
    requires
        q < env.frames.len(),
    ensures
        spec_lookup(EnvModel { frames: env.frames.push(f), ..env }, q, name) == spec_lookup(env, q, name),
    decreases q,
{
    let e2 = EnvModel { frames: env.frames.push(f), ..env };
    assert(e2.frames[q as int] == env.frames[q as int]);
    match env.frames[q as int].parent {
        Some(p) => if p < q {
            lemma_lookup_after_push(env, f, p, name);
        },
        None => {},
    }
}

/// A name that is no parameter has no binding in a call's frame.
proof fn lemma_bind_absent(params: Seq<Seq<char>>, args: Seq<ValueModel>, n: nat, name: Seq<char>)
    requires
        n <= params.len(),
        !params.contains(name),
    ensures
        var_index(bind(params, args, n), name) is None,
    decreases n,
{
    if n > 0 {
        lemma_bind_absent(params, args, (n - 1) as nat, name);
        assert(params[n - 1] != name);
        lemma_vars_insert(bind(params, args, (n - 1) as nat), params[n - 1], args[n - 1], name);
    }
}

/// A call's frame hides only its parameters: from the new frame, a name
/// that is no parameter is looked up as from the frame it extends; from
/// every frame that was there before, every lookup gives what it gave
/// before.
pub proof fn law_lookup_after_extend(
    env: EnvModel,
    parent: nat,
    params: Seq<Seq<char>>,
    args: Seq<ValueModel>,
    name: Seq<char>,
    q: nat,
)
    requires
        params.len() == args.len(),
        parent < env.frames.len(),
    ensures
        !params.contains(name) ==> spec_lookup(spec_extend(env, parent, params, args), env.frames.len(), name)
            == spec_lookup(env, parent, name),
        q < env.frames.len() ==> spec_lookup(spec_extend(env, parent, params, args), q, name) == spec_lookup(
            env,
            q,
            name,
        ),
{
    let f = FrameModel { vars: bind(params, args, params.len()), parent: Some(parent) };
    let e2 = spec_extend(env, parent, params, args);
    assert(e2 == EnvModel { frames: env.frames.push(f), ..env });
    lemma_lookup_after_push(env, f, parent, name);
    if q < env.frames.len() {
        lemma_lookup_after_push(env, f, q, name);
    }
    if !params.contains(name) {
        lemma_bind_absent(params, args, params.len(), name);
        assert(e2.frames[env.frames.len() as int] == f);
    }
}

/// A definition made in the frame a call's frame extends is seen from the
/// call's frame, unless a parameter of the call has that name.
pub proof fn law_define_in_parent_seen_by_child(
    env: EnvModel,
    parent: nat,
    params: Seq<Seq<char>>,
    args: Seq<ValueModel>,
    name: Seq<char>,
    v: ValueModel,
)
    requires
        params.len() == args.len(),
        parent < env.frames.len(),
        !params.contains(name),
    ensures
        spec_lookup(spec_define(spec_extend(env, parent, params, args), parent, name, v), env.frames.len(), name)
            == Some(v),
{
    let f = FrameModel { vars: bind(params, args, params.len()), parent: Some(parent) };
    let e2 = spec_extend(env, parent, params, args);
    let e3 = spec_define(e2, parent, name, v);
    lemma_bind_absent(params, args, params.len(), name);
    assert(e3.frames[env.frames.len() as int] == f);
    law_lookup_after_define(e2, parent, name, v, name);
}

proof fn lemma_bind_lookup(params: Seq<Seq<char>>, args: Seq<ValueModel>, n: nat, i: int)
    requires
        n <= params.len(),
        params.len() == args.len(),
        0 <= i < n,
        forall|j: int| 0 <= j < params.len() && j != i ==> params[j] != params[i],
    ensures
        var_index(bind(params, args, n), params[i]) matches Some(k) && bind(params, args, n)[k].1 == args[i],
    decreases n,
{
    let prev = bind(params, args, (n - 1) as nat);
    if i == n - 1 {
        lemma_vars_insert(prev, params[i], args[i], params[i]);
    } else {
        lemma_bind_lookup(params, args, (n - 1) as nat, i);
        lemma_vars_insert(prev, params[n - 1], args[n - 1], params[i]);
    }
}

/// `gensym` moves its counter on by one each time it makes a symbol and
/// leaves the state as it was when it fails; so two symbols made one after
/// the other are different.
pub proof fn law_successive_gensyms_differ(
    a1: Seq<ValueModel>,
    a2: Seq<ValueModel>,
    env: EnvModel,
    cur: nat,
    f: nat,
)
    ensures
        spec_native(Builtin::Gensym, a1, env, cur, f).0 is Ok ==> spec_native(Builtin::Gensym, a1, env, cur, f).1
            == (EnvModel { counter: env.counter + 1, ..env }),
        spec_native(Builtin::Gensym, a1, env, cur, f).0 is Err ==> spec_native(Builtin::Gensym, a1, env, cur, f).1
            == env,
        ({
            let (r1, e1) = spec_native(Builtin::Gensym, a1, env, cur, f);
            let (r2, e2) = spec_native(Builtin::Gensym, a2, e1, cur, f);
            r1 is Ok && r2 is Ok ==> r1 != r2
        }),
{
    if env.counter < usize::MAX && spec_gensym(a1, env.counter) is Ok && env.counter + 1 < usize::MAX
        && spec_gensym(a2, env.counter + 1) is Ok {
        crate::stdlib::law_gensym_names_differ(a1, env.counter, a2, env.counter + 1);
    }
}

/// A self-evaluating value evaluates to itself in one step at any depth
/// below the limit.
proof fn lemma_eval_self(a: ValueModel, env: EnvModel, cur: nat, depth: nat, f: nat)
    requires
        f > 0,
        depth < MAX_DEPTH,
        a is Number || a is Str || a is Bool || a is Nil,
    ensures
        spec_eval(a, env, cur, depth, f) == (Ok::<ValueModel, Seq<char>>(a), env),
{
    assert(spec_step(a, env, cur, cur, depth, (f - 1) as nat) == Step::Done(Ok::<ValueModel, Seq<char>>(a), env));
}

/// A form whose head is a symbol not bound to a macro is decided by that
/// symbol without expansion.
proof fn lemma_form_without_macro(name: Seq<char>, args: ValueModel, env: EnvModel, fuel: nat)
    requires
        fuel > 1,
        !(spec_lookup(env, 0, name) matches Some(ValueModel::Macro(_, _, _))),
    ensures
        spec_run(ValueModel::Cons(Box::new(ValueModel::Symbol(name)), Box::new(args)), env, fuel) == match spec_form(
            ValueModel::Symbol(name),
            args,
            env,
            0,
            0,
            0,
            (fuel - 1) as nat,
        ) {
            Step::Done(r, e2) => (r, e2),
            Step::Tail(e2, env2, c2) => spec_loop(e2, env2, c2, 0, 0, (fuel - 1) as nat),
        },
{
    let e = ValueModel::Cons(Box::new(ValueModel::Symbol(name)), Box::new(args));
    let f = (fuel - 1) as nat;
    assert(macro_call(e, env, 0) is None);
    assert(spec_expand(e, env, 0, 0, f) == (Ok::<ValueModel, Seq<char>>(e), env));
}

/// The integer `x` as a value.
pub open spec fn int_value(x: i64) -> ValueModel {
    ValueModel::Number(NumberModel::Int(x))
}

/// A form whose head is a symbol not bound to a macro, evaluated at any
/// frame and depth, is decided by that symbol without expansion.
proof fn lemma_form_at(name: Seq<char>, args: ValueModel, env: EnvModel, cur: nat, depth: nat, fuel: nat)
    requires
        fuel > 1,
        depth < MAX_DEPTH,
        !(spec_lookup(env, cur, name) matches Some(ValueModel::Macro(_, _, _))),
    ensures
        spec_eval(ValueModel::Cons(Box::new(ValueModel::Symbol(name)), Box::new(args)), env, cur, depth, fuel)
            == match spec_form(ValueModel::Symbol(name), args, env, cur, cur, depth, (fuel - 1) as nat) {
            Step::Done(r, e2) => (r, e2),
            Step::Tail(e2, env2, c2) => spec_loop(e2, env2, c2, cur, depth, (fuel - 1) as nat),
        },
{
    let e = ValueModel::Cons(Box::new(ValueModel::Symbol(name)), Box::new(args));
    let f = (fuel - 1) as nat;
    assert(macro_call(e, env, cur) is None);
    assert(spec_expand(e, env, cur, depth, f) == (Ok::<ValueModel, Seq<char>>(e), env));
}

/// The names `car`, `cdr` and `cons` differ from each other and from the
/// special forms tested before them.
proof fn lemma_pair_form_names()
    ensures
        "cons"@ != "quote"@ && "cons"@ != "quasiquote"@ && "cons"@ != "defmacro"@ && "cons"@ != "atom"@
            && "cons"@ != "eq"@ && "cons"@ != "car"@ && "cons"@ != "cdr"@,
        "car"@ != "quote"@ && "car"@ != "quasiquote"@ && "car"@ != "defmacro"@ && "car"@ != "atom"@
            && "car"@ != "eq"@,
        "cdr"@ != "quote"@ && "cdr"@ != "quasiquote"@ && "cdr"@ != "defmacro"@ && "cdr"@ != "atom"@
            && "cdr"@ != "eq"@ && "cdr"@ != "car"@,
{
    reveal_strlit("quote");
    reveal_strlit("quasiquote");
    reveal_strlit("defmacro");
    reveal_strlit("atom");
    reveal_strlit("eq");
    reveal_strlit("car");
    reveal_strlit("cdr");
    reveal_strlit("cons");
    assert("quote"@.len() == 5 && "quasiquote"@.len() == 10 && "defmacro"@.len() == 8 && "atom"@.len() == 4
        && "eq"@.len() == 2 && "car"@.len() == 3 && "cdr"@.len() == 3 && "cons"@.len() == 4);
    assert("cons"@[0] == 'c' && "atom"@[0] == 'a' && "car"@[1] == 'a' && "cdr"@[1] == 'd');
}

/// `(cons a b)` evaluated at depth `depth`, for self-evaluating `a`, `b`.
proof fn lemma_cons_form(a: ValueModel, b: ValueModel, env: EnvModel, depth: nat, fuel: nat)
    requires
        fuel > 1,
        depth + 1 < MAX_DEPTH,
        a is Number || a is Str || a is Bool || a is Nil,
        b is Number || b is Str || b is Bool || b is Nil,
        !(spec_lookup(env, 0, "cons"@) matches Some(ValueModel::Macro(_, _, _))),
    ensures
        spec_eval(list3(ValueModel::Symbol("cons"@), a, b), env, 0, depth, fuel) == (
            Ok::<ValueModel, Seq<char>>(ValueModel::Cons(Box::new(a), Box::new(b))),
            env,
        ),
{
    reveal_strlit("quote");
    reveal_strlit("quasiquote");
    reveal_strlit("defmacro");
    reveal_strlit("atom");
    reveal_strlit("eq");
    reveal_strlit("car");
    reveal_strlit("cdr");
    reveal_strlit("cons");
    lemma_pair_form_names();
    let f = (fuel - 1) as nat;
    let args = list2(a, b);
    lemma_form_at("cons"@, args, env, 0, depth, fuel);
    lemma_eval_self(a, env, 0, depth + 1, f);
    lemma_eval_self(b, env, 0, depth + 1, f);
    assert(spec_two(args) == Ok::<(ValueModel, ValueModel), Seq<char>>((a, b)));
    assert(spec_form(ValueModel::Symbol("cons"@), args, env, 0, 0, depth, f) == Step::Done(
        Ok::<ValueModel, Seq<char>>(ValueModel::Cons(Box::new(a), Box::new(b))),
        env,
    ));
}

/// `cons` builds a pair of its evaluated operands, and `car` and `cdr` take
/// it apart again: `(car (cons a b))` is `a` and `(cdr (cons a b))` is `b`
/// (for numbers, strings, booleans and nil, unless these names have been
/// bound to macros).
#[verifier::spinoff_prover]
#[verifier::rlimit(60)]
pub proof fn law_car_and_cdr_undo_cons(a: ValueModel, b: ValueModel, env: EnvModel, fuel: nat)
    requires
        fuel > 2,
        a is Number || a is Str || a is Bool || a is Nil,
        b is Number || b is Str || b is Bool || b is Nil,
        !(spec_lookup(env, 0, "cons"@) matches Some(ValueModel::Macro(_, _, _))),
    ensures
        spec_run(list3(ValueModel::Symbol("cons"@), a, b), env, fuel) == (
            Ok::<ValueModel, Seq<char>>(ValueModel::Cons(Box::new(a), Box::new(b))),
            env,
        ),
        !(spec_lookup(env, 0, "car"@) matches Some(ValueModel::Macro(_, _, _))) ==> spec_run(
            list2(ValueModel::Symbol("car"@), list3(ValueModel::Symbol("cons"@), a, b)),
            env,
            fuel,
        ) == (Ok::<ValueModel, Seq<char>>(a), env),
        !(spec_lookup(env, 0, "cdr"@) matches Some(ValueModel::Macro(_, _, _))) ==> spec_run(
            list2(ValueModel::Symbol("cdr"@), list3(ValueModel::Symbol("cons"@), a, b)),
            env,
            fuel,
        ) == (Ok::<ValueModel, Seq<char>>(b), env),
{
    reveal_strlit("quote");
    reveal_strlit("quasiquote");
    reveal_strlit("defmacro");
    reveal_strlit("atom");
    reveal_strlit("eq");
    reveal_strlit("car");
    reveal_strlit("cdr");
    reveal_strlit("cons");
    lemma_pair_form_names();
    let f = (fuel - 1) as nat;
    let inner = list3(ValueModel::Symbol("cons"@), a, b);
    let pair = ValueModel::Cons(Box::new(a), Box::new(b));
    lemma_cons_form(a, b, env, 0, fuel);
    lemma_cons_form(a, b, env, 1, f);
    let args = ValueModel::Cons(Box::new(inner), Box::new(ValueModel::Nil));
    assert(spec_eval_one(args, env, 0, 0, f) == (Ok::<ValueModel, Seq<char>>(pair), env));
    if !(spec_lookup(env, 0, "car"@) matches Some(ValueModel::Macro(_, _, _))) {
        lemma_form_at("car"@, args, env, 0, 0, fuel);
        assert(spec_form(ValueModel::Symbol("car"@), args, env, 0, 0, 0, f) == Step::Done(
            Ok::<ValueModel, Seq<char>>(a),
            env,
        ));
    }
    if !(spec_lookup(env, 0, "cdr"@) matches Some(ValueModel::Macro(_, _, _))) {
        lemma_form_at("cdr"@, args, env, 0, 0, fuel);
        assert(spec_form(ValueModel::Symbol("cdr"@), args, env, 0, 0, 0, f) == Step::Done(
            Ok::<ValueModel, Seq<char>>(b),
            env,
        ));
    }
}

/// The three-element list `(a b c)`.
pub open spec fn list3(a: ValueModel, b: ValueModel, c: ValueModel) -> ValueModel {
    ValueModel::Cons(Box::new(a), Box::new(list2(b, c)))
}

/// The names of the comparison operators differ from each other and from
/// the arithmetic ones.
proof fn lemma_operator_names()
    ensures
        !is_arith_op("<"@) && !is_arith_op(">"@) && !is_arith_op("<="@) && !is_arith_op(">="@)
            && !is_arith_op("="@),
        ">"@ != "<"@,
        "<="@ != "<"@ && "<="@ != ">"@,
        ">="@ != "<"@ && ">="@ != ">"@ && ">="@ != "<="@,
        "="@ != "<"@ && "="@ != ">"@ && "="@ != "<="@ && "="@ != ">="@,
        "+"@ != "-"@ && "+"@ != "*"@ && "+"@ != "/"@ && "-"@ != "*"@ && "-"@ != "/"@ && "*"@ != "/"@,
        forall|op: Seq<char>| is_compare_op(op) || is_arith_op(op) ==> op != "quote"@,
        forall|op: Seq<char>| is_compare_op(op) || is_arith_op(op) ==> op != "quasiquote"@,
        forall|op: Seq<char>| is_compare_op(op) || is_arith_op(op) ==> op != "defmacro"@,
        forall|op: Seq<char>| is_compare_op(op) || is_arith_op(op) ==> op != "atom"@,
        forall|op: Seq<char>| is_compare_op(op) || is_arith_op(op) ==> op != "eq"@,
        forall|op: Seq<char>| is_compare_op(op) || is_arith_op(op) ==> op != "car"@,
        forall|op: Seq<char>| is_compare_op(op) || is_arith_op(op) ==> op != "cdr"@,
        forall|op: Seq<char>| is_compare_op(op) || is_arith_op(op) ==> op != "cons"@,
        forall|op: Seq<char>| is_compare_op(op) || is_arith_op(op) ==> op != "cond"@,
        forall|op: Seq<char>| is_compare_op(op) || is_arith_op(op) ==> op != "lambda"@,
        forall|op: Seq<char>| is_compare_op(op) || is_arith_op(op) ==> op != "label"@,
{
    reveal_strlit("<");
    reveal_strlit(">");
    reveal_strlit("<=");
    reveal_strlit(">=");
    reveal_strlit("=");
    reveal_strlit("+");
    reveal_strlit("-");
    reveal_strlit("*");
    reveal_strlit("/");
    let names = seq!["<"@, ">"@, "<="@, ">="@, "="@, "+"@, "-"@, "*"@, "/"@];
    assert("<"@[0] == '<' && ">"@[0] == '>' && "<="@[0] == '<' && ">="@[0] == '>' && "="@[0] == '=');
    assert("+"@[0] == '+' && "-"@[0] == '-' && "*"@[0] == '*' && "/"@[0] == '/');
    assert("<="@[1] == '=' && ">="@[1] == '=');
    assert("<"@.len() == 1 && "<="@.len() == 2 && ">"@.len() == 1 && ">="@.len() == 2 && "="@.len() == 1);
    reveal_strlit("quote");
    reveal_strlit("quasiquote");
    reveal_strlit("defmacro");
    reveal_strlit("atom");
    reveal_strlit("eq");
    reveal_strlit("car");
    reveal_strlit("cdr");
    reveal_strlit("cons");
    reveal_strlit("cond");
    reveal_strlit("lambda");
    reveal_strlit("label");
    assert("quote"@.len() == 5 && "quasiquote"@.len() == 10 && "defmacro"@.len() == 8 && "atom"@.len() == 4 && "eq"@.len() == 2 && "car"@.len() == 3 && "cdr"@.len() == 3 && "cons"@.len() == 4 && "cond"@.len() == 4 && "lambda"@.len() == 6 && "label"@.len() == 5);
    assert("eq"@[0] == 'e');
    assert("+"@.len() == 1 && "-"@.len() == 1 && "*"@.len() == 1 && "/"@.len() == 1);
}

#[verifier::spinoff_prover]
#[verifier::rlimit(80)]
proof fn lemma_compare_form(op: Seq<char>, x: i64, y: i64, env: EnvModel, fuel: nat)
    requires
        fuel > 1,
        is_compare_op(op),
        !(spec_lookup(env, 0, op) matches Some(ValueModel::Macro(_, _, _))),
    ensures
        spec_run(
            list3(ValueModel::Symbol(op), ValueModel::Number(NumberModel::Int(x)), ValueModel::Number(NumberModel::Int(y))),
            env,
            fuel,
        ) == (spec_numeric_form(op, ValueModel::Number(NumberModel::Int(x)), ValueModel::Number(NumberModel::Int(y))), env),
{
    reveal_strlit("quote");
    reveal_strlit("quasiquote");
    reveal_strlit("defmacro");
    reveal_strlit("atom");
    reveal_strlit("eq");
    reveal_strlit("car");
    reveal_strlit("cdr");
    reveal_strlit("cons");
    reveal_strlit("cond");
    reveal_strlit("lambda");
    reveal_strlit("label");
    reveal_strlit("<");
    reveal_strlit(">");
    reveal_strlit("<=");
    reveal_strlit(">=");
    reveal_strlit("=");
    reveal_strlit("-");
    reveal_strlit("+");
    reveal_strlit("*");
    reveal_strlit("/");
    lemma_operator_names();
    let xv = ValueModel::Number(NumberModel::Int(x));
    let yv = ValueModel::Number(NumberModel::Int(y));
    let args = list2(xv, yv);
    let f = (fuel - 1) as nat;
    lemma_form_without_macro(op, args, env, fuel);
    let xs = list_elements(args);
    assert(list_elements(ValueModel::Nil) =~= Seq::<ValueModel>::empty());
    assert(list_elements(ValueModel::Cons(Box::new(yv), Box::new(ValueModel::Nil))) =~= seq![yv]);
    assert(xs =~= seq![xv, yv]);
    lemma_eval_self(xv, env, 0, 1, f);
    lemma_eval_self(yv, env, 0, 1, f);
    assert(spec_args(xs, 0, env, 0, 1, f) == (Ok::<Seq<ValueModel>, Seq<char>>(Seq::empty()), env));
    assert(spec_args(xs, 1, env, 0, 1, f) == (Ok::<Seq<ValueModel>, Seq<char>>(seq![xv]), env));
    assert(seq![xv].push(yv) =~= seq![xv, yv]);
    assert(spec_args(xs, 2, env, 0, 1, f) == (Ok::<Seq<ValueModel>, Seq<char>>(seq![xv, yv]), env));
    assert(!is_arith_op(op));
    assert(spec_operator_form(op, seq![xv, yv]) == spec_numeric_form(op, xv, yv));
    assert(spec_form(ValueModel::Symbol(op), args, env, 0, 0, 0, f) == Step::Done(
        spec_numeric_form(op, xv, yv),
        env,
    ));
}

/// Evaluating an operator form whose operands are integer literals, in a
/// state where the operator is no macro.
#[verifier::spinoff_prover]
#[verifier::rlimit(80)]
proof fn lemma_operator_form_ints(op: Seq<char>, xs: Seq<ValueModel>, env: EnvModel, fuel: nat)
    requires
        fuel > 1,
        is_arith_op(op) || is_compare_op(op),
        !(spec_lookup(env, 0, op) matches Some(ValueModel::Macro(_, _, _))),
        forall|i: int| 0 <= i < xs.len() ==> (#[trigger] xs[i]) is Number,
    ensures
        spec_run(ValueModel::Cons(Box::new(ValueModel::Symbol(op)), Box::new(list_model(xs))), env, fuel) == (
            spec_operator_form(op, xs),
            env,
        ),
{
    lemma_operator_names();
    reveal_strlit("+");
    reveal_strlit("-");
    reveal_strlit("*");
    reveal_strlit("/");
    let f = (fuel - 1) as nat;
    let args = list_model(xs);
    lemma_form_without_macro(op, args, env, fuel);
    crate::native::law_list_roundtrip(xs);
    lemma_args_of_numbers(xs, xs.len(), env, f);
    assert(xs.take(xs.len() as int) =~= xs);
    assert(spec_form(ValueModel::Symbol(op), args, env, 0, 0, 0, f) == Step::Done(spec_operator_form(op, xs), env));
}

proof fn lemma_args_of_numbers(xs: Seq<ValueModel>, n: nat, env: EnvModel, f: nat)
    requires
        f > 0,
        n <= xs.len(),
        forall|i: int| 0 <= i < xs.len() ==> (#[trigger] xs[i]) is Number,
    ensures
        spec_args(xs, n, env, 0, 1, f) == (Ok::<Seq<ValueModel>, Seq<char>>(xs.take(n as int)), env),
    decreases n,
{
    if n > 0 {
        lemma_args_of_numbers(xs, (n - 1) as nat, env, f);
        lemma_eval_self(xs[n - 1], env, 0, 1, f);
        assert(xs.take(n - 1).push(xs[n - 1]) =~= xs.take(n as int));
    } else {
        assert(xs.take(0) =~= Seq::<ValueModel>::empty());
    }
}

/// What the arithmetic forms compute on integer operands.
proof fn lemma_integer_operator_values(x: i64, y: i64, z: i64)
    ensures
        i64::MIN <= x + y <= i64::MAX ==> spec_operator_form("+"@, seq![int_value(x), int_value(y)])
            == Ok::<ValueModel, Seq<char>>(int_value((x + y) as i64)),
        i64::MIN <= x - y <= i64::MAX ==> spec_operator_form("-"@, seq![int_value(x), int_value(y)])
            == Ok::<ValueModel, Seq<char>>(int_value((x - y) as i64)),
        i64::MIN <= x * y <= i64::MAX ==> spec_operator_form("*"@, seq![int_value(x), int_value(y)])
            == Ok::<ValueModel, Seq<char>>(int_value((x * y) as i64)),
        i64::MIN <= x - y <= i64::MAX && i64::MIN <= x - y - z <= i64::MAX ==> spec_operator_form(
            "-"@,
            seq![int_value(x), int_value(y), int_value(z)],
        ) == Ok::<ValueModel, Seq<char>>(int_value((x - y - z) as i64)),
        x > i64::MIN ==> spec_operator_form("-"@, seq![int_value(x)]) == Ok::<ValueModel, Seq<char>>(
            int_value((-x) as i64),
        ),
{
    lemma_operator_names();
    reveal_strlit("+");
    reveal_strlit("-");
    reveal_strlit("*");
    reveal_strlit("/");
    let two = seq![int_value(x), int_value(y)];
    let three = seq![int_value(x), int_value(y), int_value(z)];
    assert(spec_fold("+"@, two, 1) == Ok::<NumberModel, Seq<char>>(NumberModel::Int(x)));
    assert(spec_fold("-"@, two, 1) == Ok::<NumberModel, Seq<char>>(NumberModel::Int(x)));
    assert(spec_fold("*"@, two, 1) == Ok::<NumberModel, Seq<char>>(NumberModel::Int(x)));
    assert(spec_fold("-"@, three, 1) == Ok::<NumberModel, Seq<char>>(NumberModel::Int(x)));
    if i64::MIN <= x - y <= i64::MAX {
        assert(spec_num_op("-"@, NumberModel::Int(x), NumberModel::Int(y)) == Ok::<NumberModel, Seq<char>>(
            NumberModel::Int((x - y) as i64),
        ));
        assert(spec_fold("-"@, three, 2) == Ok::<NumberModel, Seq<char>>(NumberModel::Int((x - y) as i64)));
    }
}

/// `(+ x y)`, `(- x y)` and `(* x y)` on integers give their sum,
/// difference and product where it fits in 64 bits (unless the operator
/// has been bound to a macro).
pub proof fn law_integer_arithmetic(x: i64, y: i64, env: EnvModel, fuel: nat)
    requires
        fuel > 1,
    ensures
        !(spec_lookup(env, 0, "+"@) matches Some(ValueModel::Macro(_, _, _))) && i64::MIN <= x + y <= i64::MAX
            ==> spec_run(list3(ValueModel::Symbol("+"@), int_value(x), int_value(y)), env, fuel) == (
            Ok::<ValueModel, Seq<char>>(int_value((x + y) as i64)),
            env,
        ),
        !(spec_lookup(env, 0, "-"@) matches Some(ValueModel::Macro(_, _, _))) && i64::MIN <= x - y <= i64::MAX
            ==> spec_run(list3(ValueModel::Symbol("-"@), int_value(x), int_value(y)), env, fuel) == (
            Ok::<ValueModel, Seq<char>>(int_value((x - y) as i64)),
            env,
        ),
        !(spec_lookup(env, 0, "*"@) matches Some(ValueModel::Macro(_, _, _))) && i64::MIN <= x * y <= i64::MAX
            ==> spec_run(list3(ValueModel::Symbol("*"@), int_value(x), int_value(y)), env, fuel) == (
            Ok::<ValueModel, Seq<char>>(int_value((x * y) as i64)),
            env,
        ),
{
    lemma_operator_names();
    reveal_strlit("+");
    reveal_strlit("-");
    reveal_strlit("*");
    reveal_strlit("/");
    let two = seq![int_value(x), int_value(y)];
    assert(list_model(two) == list2(int_value(x), int_value(y))) by {
        assert(two.drop_first() =~= seq![int_value(y)]);
        assert(seq![int_value(y)].drop_first() =~= Seq::<ValueModel>::empty());
        assert(list_model(Seq::<ValueModel>::empty()) == ValueModel::Nil);
        assert(list_model(seq![int_value(y)]) == ValueModel::Cons(Box::new(int_value(y)), Box::new(ValueModel::Nil)));
        assert(two[0] == int_value(x));
    }
    lemma_integer_operator_values(x, y, 0);
    if !(spec_lookup(env, 0, "+"@) matches Some(ValueModel::Macro(_, _, _))) {
        lemma_operator_form_ints("+"@, two, env, fuel);
    }
    if !(spec_lookup(env, 0, "-"@) matches Some(ValueModel::Macro(_, _, _))) {
        lemma_operator_form_ints("-"@, two, env, fuel);
    }
    if !(spec_lookup(env, 0, "*"@) matches Some(ValueModel::Macro(_, _, _))) {
        lemma_operator_form_ints("*"@, two, env, fuel);
    }
}

/// `-` subtracts every further operand from the first, `(- x y z)` giving
/// `x - y - z`, and negates a single operand (unless `-` has been bound to
/// a macro).
pub proof fn law_subtraction_folds_and_negates(x: i64, y: i64, z: i64, env: EnvModel, fuel: nat)
    requires
        fuel > 1,
        !(spec_lookup(env, 0, "-"@) matches Some(ValueModel::Macro(_, _, _))),
    ensures
        i64::MIN <= x - y <= i64::MAX && i64::MIN <= x - y - z <= i64::MAX ==> spec_run(
            ValueModel::Cons(
                Box::new(ValueModel::Symbol("-"@)),
                Box::new(list_model(seq![int_value(x), int_value(y), int_value(z)])),
            ),
            env,
            fuel,
        ) == (Ok::<ValueModel, Seq<char>>(int_value((x - y - z) as i64)), env),
        x > i64::MIN ==> spec_run(list2(ValueModel::Symbol("-"@), int_value(x)), env, fuel) == (
            Ok::<ValueModel, Seq<char>>(int_value((-x) as i64)),
            env,
        ),
{
    let one = seq![int_value(x)];
    assert(list_model(one) == ValueModel::Cons(Box::new(int_value(x)), Box::new(ValueModel::Nil))) by {
        assert(one.drop_first() =~= Seq::<ValueModel>::empty());
        assert(list_model(Seq::<ValueModel>::empty()) == ValueModel::Nil);
    }
    lemma_operator_names();
    reveal_strlit("-");
    lemma_integer_operator_values(x, y, z);
    lemma_operator_form_ints("-"@, seq![int_value(x), int_value(y), int_value(z)], env, fuel);
    lemma_operator_form_ints("-"@, one, env, fuel);
}

/// Comparing two integers: `(< x y)`, `(> x y)`, `(<= x y)`, `(>= x y)`
/// and `(= x y)` give `t` exactly when the integers are so ordered, else
/// `nil`, and leave the environment as it was (unless the operator has been
/// bound to a macro).
#[verifier::spinoff_prover]
pub proof fn law_integer_comparisons(x: i64, y: i64, env: EnvModel, fuel: nat)
    requires
        fuel > 1,
    ensures
        !(spec_lookup(env, 0, "<"@) matches Some(ValueModel::Macro(_, _, _))) ==> spec_run(
            list3(ValueModel::Symbol("<"@), ValueModel::Number(NumberModel::Int(x)), ValueModel::Number(NumberModel::Int(y))),
            env,
            fuel,
        ) == (Ok::<ValueModel, Seq<char>>(ValueModel::Bool(x < y)), env),
        !(spec_lookup(env, 0, ">"@) matches Some(ValueModel::Macro(_, _, _))) ==> spec_run(
            list3(ValueModel::Symbol(">"@), ValueModel::Number(NumberModel::Int(x)), ValueModel::Number(NumberModel::Int(y))),
            env,
            fuel,
        ) == (Ok::<ValueModel, Seq<char>>(ValueModel::Bool(x > y)), env),
        !(spec_lookup(env, 0, "<="@) matches Some(ValueModel::Macro(_, _, _))) ==> spec_run(
            list3(ValueModel::Symbol("<="@), ValueModel::Number(NumberModel::Int(x)), ValueModel::Number(NumberModel::Int(y))),
            env,
            fuel,
        ) == (Ok::<ValueModel, Seq<char>>(ValueModel::Bool(x <= y)), env),
        !(spec_lookup(env, 0, ">="@) matches Some(ValueModel::Macro(_, _, _))) ==> spec_run(
            list3(ValueModel::Symbol(">="@), ValueModel::Number(NumberModel::Int(x)), ValueModel::Number(NumberModel::Int(y))),
            env,
            fuel,
        ) == (Ok::<ValueModel, Seq<char>>(ValueModel::Bool(x >= y)), env),
        !(spec_lookup(env, 0, "="@) matches Some(ValueModel::Macro(_, _, _))) ==> spec_run(
            list3(ValueModel::Symbol("="@), ValueModel::Number(NumberModel::Int(x)), ValueModel::Number(NumberModel::Int(y))),
            env,
            fuel,
        ) == (Ok::<ValueModel, Seq<char>>(ValueModel::Bool(x == y)), env),
{
    reveal_strlit("<");
    reveal_strlit(">");
    reveal_strlit("<=");
    reveal_strlit(">=");
    reveal_strlit("=");
    reveal_strlit("+");
    reveal_strlit("-");
    reveal_strlit("*");
    reveal_strlit("/");
    lemma_operator_names();
    if !(spec_lookup(env, 0, "<"@) matches Some(ValueModel::Macro(_, _, _))) {
        lemma_compare_form("<"@, x, y, env, fuel);
        assert(spec_numeric_form("<"@, ValueModel::Number(NumberModel::Int(x)), ValueModel::Number(NumberModel::Int(y)))
            == Ok::<ValueModel, Seq<char>>(ValueModel::Bool(x < y)));
    }
    if !(spec_lookup(env, 0, ">"@) matches Some(ValueModel::Macro(_, _, _))) {
        lemma_compare_form(">"@, x, y, env, fuel);
        assert(spec_numeric_form(">"@, ValueModel::Number(NumberModel::Int(x)), ValueModel::Number(NumberModel::Int(y)))
            == Ok::<ValueModel, Seq<char>>(ValueModel::Bool(x > y)));
    }
    if !(spec_lookup(env, 0, "<="@) matches Some(ValueModel::Macro(_, _, _))) {
        lemma_compare_form("<="@, x, y, env, fuel);
        assert(spec_numeric_form("<="@, ValueModel::Number(NumberModel::Int(x)), ValueModel::Number(NumberModel::Int(y)))
            == Ok::<ValueModel, Seq<char>>(ValueModel::Bool(x <= y)));
    }
    if !(spec_lookup(env, 0, ">="@) matches Some(ValueModel::Macro(_, _, _))) {
        lemma_compare_form(">="@, x, y, env, fuel);
        assert(spec_numeric_form(">="@, ValueModel::Number(NumberModel::Int(x)), ValueModel::Number(NumberModel::Int(y)))
            == Ok::<ValueModel, Seq<char>>(ValueModel::Bool(x >= y)));
    }
    if !(spec_lookup(env, 0, "="@) matches Some(ValueModel::Macro(_, _, _))) {
        lemma_compare_form("="@, x, y, env, fuel);
        assert(spec_numeric_form("="@, ValueModel::Number(NumberModel::Int(x)), ValueModel::Number(NumberModel::Int(y)))
            == Ok::<ValueModel, Seq<char>>(ValueModel::Bool(x == y)));
    }
}

/// `atom` of a number, string, boolean or the empty list gives `t`, and so
/// does `eq` of such a value with itself (unless `atom` or `eq` has been
/// bound to a macro).
#[verifier::spinoff_prover]
#[verifier::rlimit(60)]
pub proof fn law_atom_and_eq_of_self_evaluating_atoms(a: ValueModel, env: EnvModel, fuel: nat)
    requires
        fuel > 1,
        a is Number || a is Str || a is Bool || a is Nil,
    ensures
        !(spec_lookup(env, 0, "atom"@) matches Some(ValueModel::Macro(_, _, _))) ==> spec_run(
            list2(ValueModel::Symbol("atom"@), a),
            env,
            fuel,
        ) == (Ok::<ValueModel, Seq<char>>(ValueModel::Bool(true)), env),
        !(spec_lookup(env, 0, "eq"@) matches Some(ValueModel::Macro(_, _, _))) ==> spec_run(
            list3(ValueModel::Symbol("eq"@), a, a),
            env,
            fuel,
        ) == (Ok::<ValueModel, Seq<char>>(ValueModel::Bool(true)), env),
{
    reveal_strlit("quote");
    reveal_strlit("quasiquote");
    reveal_strlit("defmacro");
    reveal_strlit("atom");
    reveal_strlit("eq");
    let f = (fuel - 1) as nat;
    lemma_eval_self(a, env, 0, 1, f);
    let nil = ValueModel::Nil;
    if !(spec_lookup(env, 0, "atom"@) matches Some(ValueModel::Macro(_, _, _))) {
        let args = ValueModel::Cons(Box::new(a), Box::new(nil));
        lemma_form_without_macro("atom"@, args, env, fuel);
        assert(spec_eval_one(args, env, 0, 0, f) == (Ok::<ValueModel, Seq<char>>(a), env));
        assert(spec_form(ValueModel::Symbol("atom"@), args, env, 0, 0, 0, f) == Step::Done(
            Ok::<ValueModel, Seq<char>>(ValueModel::Bool(true)),
            env,
        ));
    }
    if !(spec_lookup(env, 0, "eq"@) matches Some(ValueModel::Macro(_, _, _))) {
        let args = list2(a, a);
        lemma_form_without_macro("eq"@, args, env, fuel);
        assert(spec_two(args) == Ok::<(ValueModel, ValueModel), Seq<char>>((a, a)));
        assert(spec_eval_two(args, env, 0, 0, f) == (Ok::<(ValueModel, ValueModel), Seq<char>>((a, a)), env));
        assert(spec_form(ValueModel::Symbol("eq"@), args, env, 0, 0, 0, f) == Step::Done(
            Ok::<ValueModel, Seq<char>>(ValueModel::Bool(true)),
            env,
        ));
    }
}

/// Numbers, strings, booleans, nil, vectors and closures stand for
/// themselves, and leave the environment as it was.
pub proof fn law_self_evaluating(e: ValueModel, env: EnvModel, fuel: nat)
    requires
        fuel > 0,
        !(e is Symbol) && !(e is Cons),
    ensures
        spec_run(e, env, fuel) == (Ok::<ValueModel, Seq<char>>(e), env),
{
}

/// `quote` gives its argument unevaluated, unless `quote` has been bound
/// to a macro.
pub proof fn law_quote(x: ValueModel, env: EnvModel, fuel: nat)
    requires
        fuel > 1,
        !(spec_lookup(env, 0, "quote"@) matches Some(ValueModel::Macro(_, _, _))),
    ensures
        spec_run(list2(ValueModel::Symbol("quote"@), x), env, fuel) == (Ok::<ValueModel, Seq<char>>(x), env),
{
    let e = list2(ValueModel::Symbol("quote"@), x);
    let f = (fuel - 1) as nat;
    assert(macro_call(e, env, 0) is None);
    if f > 0 {
        assert(spec_expand(e, env, 0, 0, f) == (Ok::<ValueModel, Seq<char>>(e), env));
    }
}

// ============================================================================
// Answers to input and output: more answers change no finished run
// ============================================================================

/// The state with more answers to input and output after those it has.
pub open spec fn more_replies(env: EnvModel, x: Seq<Result<ValueModel, Seq<char>>>) -> EnvModel {
    EnvModel { replies: env.replies + x, ..env }
}

/// What a run gives and what the same run with more answers gives agree:
/// a run that stopped for a request failed, and a run that did not stop
/// gives the same result, with the same state but for the added answers.
pub open spec fn replay_agrees<T>(
    r: (Result<T, Seq<char>>, EnvModel),
    r2: (Result<T, Seq<char>>, EnvModel),
    x: Seq<Result<ValueModel, Seq<char>>>,
) -> bool {
    &&& r.1.pending is Some ==> r.0 is Err
    &&& r.1.pending is None ==> r2 == (r.0, more_replies(r.1, x))
}

pub open spec fn step_agrees(s: Step, s2: Step, x: Seq<Result<ValueModel, Seq<char>>>) -> bool {
    match s {
        Step::Done(r, e) => {
            &&& e.pending is Some ==> r is Err
            &&& e.pending is None ==> s2 == Step::Done(r, more_replies(e, x))
        },
        Step::Tail(ex, e, c) => e.pending is None && s2 == Step::Tail(ex, more_replies(e, x), c),
    }
}

proof fn lemma_lookup_frames(a: EnvModel, b: EnvModel, frame: nat, name: Seq<char>)
    requires
        a.frames == b.frames,
    ensures
        spec_lookup(a, frame, name) == spec_lookup(b, frame, name),
    decreases frame,
{
    if frame < a.frames.len() {
        if let Some(p) = a.frames[frame as int].parent {
            if p < frame {
                lemma_lookup_frames(a, b, p, name);
            }
        }
    }
}

proof fn lemma_replay_eval(e: ValueModel, env: EnvModel, frame: nat, depth: nat, fuel: nat, x: Seq<Result<ValueModel, Seq<char>>>)
    requires
        env.pending is None,
    ensures
        replay_agrees(spec_eval(e, env, frame, depth, fuel), spec_eval(e, more_replies(env, x), frame, depth, fuel), x),
    decreases fuel, 1nat, 0nat,
{
    if depth < MAX_DEPTH {
        lemma_replay_loop(e, env, frame, frame, depth, fuel, x);
    }
}

proof fn lemma_replay_loop(e: ValueModel, env: EnvModel, cur: nat, home: nat, depth: nat, fuel: nat, x: Seq<Result<ValueModel, Seq<char>>>)
    requires
        env.pending is None,
    ensures
        replay_agrees(spec_loop(e, env, cur, home, depth, fuel), spec_loop(e, more_replies(env, x), cur, home, depth, fuel), x),
    decreases fuel, 0nat, 0nat,
{
    if fuel > 0 {
        let f = (fuel - 1) as nat;
        lemma_replay_step(e, env, cur, home, depth, f, x);
        match spec_step(e, env, cur, home, depth, f) {
            Step::Tail(e2, env2, c2) => {
                lemma_replay_loop(e2, env2, c2, home, depth, f, x);
            },
            _ => {},
        }
    }
}

proof fn lemma_replay_step(e: ValueModel, env: EnvModel, cur: nat, home: nat, depth: nat, f: nat, x: Seq<Result<ValueModel, Seq<char>>>)
    requires
        env.pending is None,
    ensures
        step_agrees(spec_step(e, env, cur, home, depth, f), spec_step(e, more_replies(env, x), cur, home, depth, f), x),
    decreases f, 5nat, 0nat,
{
    let env2 = more_replies(env, x);
    match e {
        ValueModel::Symbol(name) => {
            lemma_lookup_frames(env, env2, cur, name);
        },
        ValueModel::Cons(_, _) => {
            lemma_replay_expand(e, env, cur, depth, f, x);
            match spec_expand(e, env, cur, depth, f) {
                (Ok(ValueModel::Cons(op, args)), env1) => {
                    lemma_replay_form(*op, *args, env1, cur, home, depth, f, x);
                },
                _ => {},
            }
        },
        _ => {},
    }
}

proof fn lemma_replay_expand(e: ValueModel, env: EnvModel, cur: nat, depth: nat, g: nat, x: Seq<Result<ValueModel, Seq<char>>>)
    requires
        env.pending is None,
    ensures
        replay_agrees(spec_expand(e, env, cur, depth, g), spec_expand(e, more_replies(env, x), cur, depth, g), x),
    decreases g, 2nat, 0nat,
{
    let env2 = more_replies(env, x);
    if g > 0 {
        if let ValueModel::Cons(op, _) = e {
            if let ValueModel::Symbol(name) = *op {
                lemma_lookup_frames(env, env2, cur, name);
            }
        }
        match macro_call(e, env, cur) {
            Some((params, body, mframe)) => {
                let args = list_elements(rest_of(e));
                if args.len() == params.len() {
                    let e2 = spec_extend(env, mframe, params, args);
                    assert(spec_extend(env2, mframe, params, args) == more_replies(e2, x));
                    lemma_replay_eval(body, e2, env.frames.len(), depth + 1, (g - 1) as nat, x);
                    match spec_eval(body, e2, env.frames.len(), depth + 1, (g - 1) as nat) {
                        (Ok(y), e3) => {
                            if e3.pending is None {
                                lemma_replay_expand(y, e3, cur, depth, (g - 1) as nat, x);
                            }
                        },
                        _ => {},
                    }
                }
            },
            None => {},
        }
    }
}

proof fn lemma_replay_one(args: ValueModel, env: EnvModel, cur: nat, depth: nat, f: nat, x: Seq<Result<ValueModel, Seq<char>>>)
    requires
        env.pending is None,
    ensures
        replay_agrees(spec_eval_one(args, env, cur, depth, f), spec_eval_one(args, more_replies(env, x), cur, depth, f), x),
    decreases f, 2nat, 0nat,
{
    if let Ok(a) = spec_car(args) {
        lemma_replay_eval(a, env, cur, depth + 1, f, x);
    }
}

proof fn lemma_replay_two(args: ValueModel, env: EnvModel, cur: nat, depth: nat, f: nat, x: Seq<Result<ValueModel, Seq<char>>>)
    requires
        env.pending is None,
    ensures
        replay_agrees(spec_eval_two(args, env, cur, depth, f), spec_eval_two(args, more_replies(env, x), cur, depth, f), x),
    decreases f, 2nat, 0nat,
{
    if let Ok((a1, a2)) = spec_two(args) {
        lemma_replay_eval(a1, env, cur, depth + 1, f, x);
        match spec_eval(a1, env, cur, depth + 1, f) {
            (Ok(_), e1) => {
                if e1.pending is None {
                    lemma_replay_eval(a2, e1, cur, depth + 1, f, x);
                }
            },
            _ => {},
        }
    }
}

#[verifier::rlimit(60)]
proof fn lemma_replay_form(op: ValueModel, args: ValueModel, env: EnvModel, cur: nat, home: nat, depth: nat, f: nat, x: Seq<Result<ValueModel, Seq<char>>>)
    requires
        env.pending is None,
    ensures
        step_agrees(spec_form(op, args, env, cur, home, depth, f), spec_form(op, args, more_replies(env, x), cur, home, depth, f), x),
    decreases f, 4nat, 0nat,
{
    let env2 = more_replies(env, x);
    match op {
        ValueModel::Symbol(name) => if name == "quote"@ {
        } else if name == "quasiquote"@ {
            if let Ok(a) = spec_car(args) {
                lemma_replay_qq(a, env, cur, depth, 0, f, x);
            }
        } else if name == "defmacro"@ {
            lemma_replay_defmacro(args, env, cur, home, x);
        } else if name == "atom"@ {
            lemma_replay_one(args, env, cur, depth, f, x);
        } else if name == "eq"@ {
            lemma_replay_two(args, env, cur, depth, f, x);
        } else if name == "car"@ {
            lemma_replay_one(args, env, cur, depth, f, x);
        } else if name == "cdr"@ {
            lemma_replay_one(args, env, cur, depth, f, x);
        } else if name == "cons"@ {
            lemma_replay_two(args, env, cur, depth, f, x);
        } else if name == "cond"@ {
            lemma_replay_cond(list_elements(args), 0, env, cur, depth, f, x);
        } else if name == "lambda"@ {
        } else if name == "label"@ {
            lemma_replay_label(args, env, cur, home, depth, f, x);
        } else if is_arith_op(name) || is_compare_op(name) {
            lemma_replay_args(list_elements(args), list_elements(args).len(), env, cur, depth + 1, f, x);
        } else if name == "vector-length"@ {
            lemma_replay_one(args, env, cur, depth, f, x);
        } else if name == "vector-ref"@ {
            lemma_replay_two(args, env, cur, depth, f, x);
        } else {
            lemma_replay_apply(op, args, env, cur, depth, f, x);
        },
        _ => {
            lemma_replay_apply(op, args, env, cur, depth, f, x);
        },
    }
}

proof fn lemma_replay_defmacro(args: ValueModel, env: EnvModel, cur: nat, home: nat, x: Seq<Result<ValueModel, Seq<char>>>)
    requires
        env.pending is None,
    ensures
        step_agrees(spec_defmacro(args, env, cur, home), spec_defmacro(args, more_replies(env, x), cur, home), x),
{
    if let Ok(ValueModel::Symbol(n)) = spec_car(args) {
        if let Ok(rest) = spec_cdr(args) {
            if let Ok(pe) = spec_car(rest) {
                if let Ok(body) = spec_second(rest) {
                    if let Some(ps) = symbol_names(list_elements(pe)) {
                        let m = ValueModel::Macro(ps, Box::new(body), cur);
                        assert(spec_define(more_replies(env, x), home, n, m) == more_replies(spec_define(env, home, n, m), x));
                    }
                }
            }
        }
    }
}

proof fn lemma_replay_label(args: ValueModel, env: EnvModel, cur: nat, home: nat, depth: nat, f: nat, x: Seq<Result<ValueModel, Seq<char>>>)
    requires
        env.pending is None,
    ensures
        ({
            let s1 = match spec_car(args) {
                Err(m) => Step::Done(Err(m), env),
                Ok(ne) => match spec_second(args) {
                    Err(m) => Step::Done(Err(m), env),
                    Ok(fe) => match ne {
                        ValueModel::Symbol(n) => match spec_eval(fe, env, cur, depth + 1, f) {
                            (Err(m), e1) => Step::Done(Err(m), e1),
                            (Ok(v), e1) => Step::Done(Ok(v), spec_define(e1, home, n, v)),
                        },
                        _ => Step::Done(Err("label: first argument must be a symbol"@), env),
                    },
                },
            };
            let env2 = more_replies(env, x);
            let s2 = match spec_car(args) {
                Err(m) => Step::Done(Err(m), env2),
                Ok(ne) => match spec_second(args) {
                    Err(m) => Step::Done(Err(m), env2),
                    Ok(fe) => match ne {
                        ValueModel::Symbol(n) => match spec_eval(fe, env2, cur, depth + 1, f) {
                            (Err(m), e1) => Step::Done(Err(m), e1),
                            (Ok(v), e1) => Step::Done(Ok(v), spec_define(e1, home, n, v)),
                        },
                        _ => Step::Done(Err("label: first argument must be a symbol"@), env2),
                    },
                },
            };
            step_agrees(s1, s2, x)
        }),
    decreases f, 3nat, 0nat,
{
    if let Ok(fe) = spec_second(args) {
        if let Ok(ValueModel::Symbol(n)) = spec_car(args) {
            lemma_replay_eval(fe, env, cur, depth + 1, f, x);
            match spec_eval(fe, env, cur, depth + 1, f) {
                (Ok(v), e1) => {
                    if e1.pending is None {
                        assert(spec_define(more_replies(e1, x), home, n, v) == more_replies(spec_define(e1, home, n, v), x));
                    }
                },
                _ => {},
            }
        }
    }
}

proof fn lemma_replay_cond(cls: Seq<ValueModel>, i: nat, env: EnvModel, cur: nat, depth: nat, f: nat, x: Seq<Result<ValueModel, Seq<char>>>)
    requires
        env.pending is None,
    ensures
        step_agrees(spec_cond(cls, i, env, cur, depth, f), spec_cond(cls, i, more_replies(env, x), cur, depth, f), x),
    decreases f, 2nat, cls.len() - i,
{
    if i < cls.len() {
        if let Ok(c) = spec_car(cls[i as int]) {
            if let Ok(re) = spec_second(cls[i as int]) {
                lemma_replay_eval(c, env, cur, depth + 1, f, x);
                match spec_eval(c, env, cur, depth + 1, f) {
                    (Ok(cv), e1) => {
                        if e1.pending is None && !spec_truthy(cv) {
                            lemma_replay_cond(cls, i + 1, e1, cur, depth, f, x);
                        }
                    },
                    _ => {},
                }
            }
        }
    }
}

proof fn lemma_replay_apply(op: ValueModel, args: ValueModel, env: EnvModel, cur: nat, depth: nat, f: nat, x: Seq<Result<ValueModel, Seq<char>>>)
    requires
        env.pending is None,
    ensures
        step_agrees(spec_apply(op, args, env, cur, depth, f), spec_apply(op, args, more_replies(env, x), cur, depth, f), x),
    decreases f, 3nat, 0nat,
{
    lemma_replay_eval(op, env, cur, depth + 1, f, x);
    match spec_eval(op, env, cur, depth + 1, f) {
        (Ok(func), e1) => {
            if e1.pending is None {
                let xs = list_elements(args);
                lemma_replay_args(xs, xs.len(), e1, cur, depth + 1, f, x);
                match spec_args(xs, xs.len(), e1, cur, depth + 1, f) {
                    (Ok(vals), e2) => {
                        if e2.pending is None {
                            match func {
                                ValueModel::Lambda(params, body, lframe) => {
                                    assert(spec_extend(more_replies(e2, x), lframe, params, vals) == more_replies(spec_extend(e2, lframe, params, vals), x));
                                },
                                ValueModel::NativeFn(b) => {
                                    lemma_replay_native(b, vals, e2, cur, f, x);
                                },
                                _ => {},
                            }
                        }
                    },
                    _ => {},
                }
            }
        },
        _ => {},
    }
}

proof fn lemma_replay_args(xs: Seq<ValueModel>, n: nat, env: EnvModel, cur: nat, depth: nat, f: nat, x: Seq<Result<ValueModel, Seq<char>>>)
    requires
        env.pending is None,
    ensures
        replay_agrees(spec_args(xs, n, env, cur, depth, f), spec_args(xs, n, more_replies(env, x), cur, depth, f), x),
    decreases f, 2nat, n,
{
    if n > 0 {
        lemma_replay_args(xs, (n - 1) as nat, env, cur, depth, f, x);
        match spec_args(xs, (n - 1) as nat, env, cur, depth, f) {
            (Ok(_), e1) => {
                if e1.pending is None {
                    lemma_replay_eval(xs[n - 1], e1, cur, depth, f, x);
                }
            },
            _ => {},
        }
    }
}

proof fn lemma_replay_qq(e: ValueModel, env: EnvModel, cur: nat, depth: nat, level: nat, g: nat, x: Seq<Result<ValueModel, Seq<char>>>)
    requires
        env.pending is None,
    ensures
        replay_agrees(spec_qq(e, env, cur, depth, level, g), spec_qq(e, more_replies(env, x), cur, depth, level, g), x),
    decreases g, 2nat, 0nat,
{
    if g > 0 {
        let h = (g - 1) as nat;
        if let ValueModel::Cons(a, d) = e {
            if let Ok(y) = spec_car(*d) {
                lemma_replay_eval(y, env, cur, depth + 1, h, x);
                lemma_replay_qq(y, env, cur, depth, level + 1, h, x);
                lemma_replay_qq(y, env, cur, depth, (level - 1) as nat, h, x);
            }
            lemma_replay_qq_list(e, list_elements(e), env, cur, depth, level, h, x);
        }
    }
}

proof fn lemma_replay_qq_list(e: ValueModel, xs: Seq<ValueModel>, env: EnvModel, cur: nat, depth: nat, level: nat, h: nat, x: Seq<Result<ValueModel, Seq<char>>>)
    requires
        env.pending is None,
    ensures
        replay_agrees(qq_list_result(e, xs, env, cur, depth, level, h), qq_list_result(e, xs, more_replies(env, x), cur, depth, level, h), x),
    decreases h, 4nat, 0nat,
{
    lemma_replay_items(xs, xs.len(), env, cur, depth, level, h, x);
}

proof fn lemma_replay_items(xs: Seq<ValueModel>, n: nat, env: EnvModel, cur: nat, depth: nat, level: nat, g: nat, x: Seq<Result<ValueModel, Seq<char>>>)
    requires
        env.pending is None,
    ensures
        replay_agrees(spec_qq_items(xs, n, env, cur, depth, level, g), spec_qq_items(xs, n, more_replies(env, x), cur, depth, level, g), x),
    decreases g, 3nat, n,
{
    if n > 0 {
        lemma_replay_items(xs, (n - 1) as nat, env, cur, depth, level, g, x);
        match spec_qq_items(xs, (n - 1) as nat, env, cur, depth, level, g) {
            (Ok(_), e1) => {
                if e1.pending is None {
                    let y = xs[n - 1];
                    if let Ok(se) = spec_car(rest_of(y)) {
                        lemma_replay_eval(se, e1, cur, depth + 1, g, x);
                    }
                    lemma_replay_qq(y, e1, cur, depth, level, g, x);
                }
            },
            _ => {},
        }
    }
}

proof fn lemma_replay_native(b: Builtin, args: Seq<ValueModel>, env: EnvModel, cur: nat, f: nat, x: Seq<Result<ValueModel, Seq<char>>>)
    requires
        env.pending is None,
    ensures
        replay_agrees(spec_native(b, args, env, cur, f), spec_native(b, args, more_replies(env, x), cur, f), x),
    decreases f, 2nat, 1nat,
{
    if args.len() == 1 {
        lemma_replay_expand_once(args[0], env, cur, f, x);
        lemma_replay_expand_all(args[0], env, cur, f, x);
    }
    let env2 = more_replies(env, x);
    if env.used < env.replies.len() {
        assert(env2.replies[env.used as int] == env.replies[env.used as int]);
    }
}

proof fn lemma_replay_expand_once(e: ValueModel, env: EnvModel, cur: nat, f: nat, x: Seq<Result<ValueModel, Seq<char>>>)
    requires
        env.pending is None,
    ensures
        replay_agrees(spec_expand_once(e, env, cur, f), spec_expand_once(e, more_replies(env, x), cur, f), x),
    decreases f, 2nat, 0nat,
{
    let env2 = more_replies(env, x);
    if let ValueModel::Cons(op, _) = e {
        if let ValueModel::Symbol(name) = *op {
            lemma_lookup_frames(env, env2, cur, name);
        }
    }
    match macro_call(e, env, cur) {
        Some((params, body, mframe)) => {
            let args = list_elements(rest_of(e));
            if args.len() == params.len() {
                let e2 = spec_extend(env, mframe, params, args);
                assert(spec_extend(env2, mframe, params, args) == more_replies(e2, x));
                lemma_replay_eval(body, e2, env.frames.len(), 0, f, x);
            }
        },
        None => {},
    }
}

proof fn lemma_replay_expand_all(e: ValueModel, env: EnvModel, cur: nat, g: nat, x: Seq<Result<ValueModel, Seq<char>>>)
    requires
        env.pending is None,
    ensures
        replay_agrees(spec_expand_all(e, env, cur, g), spec_expand_all(e, more_replies(env, x), cur, g), x),
    decreases g, 2nat, 0nat,
{
    if g > 0 {
        lemma_replay_expand_once(e, env, cur, (g - 1) as nat, x);
        match spec_expand_once(e, env, cur, (g - 1) as nat) {
            (Ok(n), e1) => {
                if e1.pending is None && !same_value(n, e) {
                    lemma_replay_expand_all(n, e1, cur, (g - 1) as nat, x);
                }
            },
            _ => {},
        }
    }
}

/// More answers change no finished run: a run that did not stop for input
/// or output gives the same result, and the same state but for the added
/// answers, when it is given more answers; and a run that stopped, failed.
/// So a caller that answers each request and runs again from the same
/// state performs every request once and ends with the run's true result.
pub proof fn law_more_answers_change_no_finished_run(e: ValueModel, env: EnvModel, fuel: nat, x: Seq<Result<ValueModel, Seq<char>>>)
    requires
        env.pending is None,
    ensures
        replay_agrees(spec_run(e, env, fuel), spec_run(e, more_replies(env, x), fuel), x),
{
    lemma_replay_eval(e, env, 0, 0, fuel, x);
}

} // verus!
