use itertools::Itertools;
use vstd::prelude::*;

use crate::printer::print;
use crate::types::env::{
    define, lookup, native, with_child, EnvVal, EnvValView, Environment, EnvironmentBuilder,
    FrameView, Frames,
};
use crate::types::{
    lemma_views, names, outcome, views, EvalError, EvalErrorView, EvalResult, MalAtom, MalFn,
    MalVal, Value,
};

pub mod builtin;
pub mod laws;

verus! {

/// What an evaluation yields, together with the arena it leaves behind. A failure leaves
/// the arena as it was when the failure was met: nothing is rolled back.
pub type Step = (Result<Value, EvalErrorView>, Seq<FrameView>);

/// The meaning of an expression: its value in frame `env` of arena `s`, and the arena
/// afterwards. `fuel` bounds how deep closure calls may nest.
pub open spec fn eval_spec(fuel: nat, ast: Value, env: nat, s: Seq<FrameView>) -> Step
    decreases 2 * fuel + 1, ast, 1nat,
{
    match ast {
        Value::List(list) => {
            if list.len() == 0 {
                (Ok(ast), s)
            } else if list[0] == Value::Sym("def!"@) {
                def_spec(fuel, list, env, s)
            } else if list[0] == Value::Sym("let*"@) {
                let_spec(fuel, list, env, s)
            } else if list[0] == Value::Sym("fn*"@) {
                (fn_spec(list, env), s)
            } else if list[0] == Value::Sym("do"@) {
                do_spec(fuel, list, 1, env, s, Value::Nil)
            } else {
                match eval_items(fuel, list, 0, env, s, Seq::empty()) {
                    (Ok(values), s1) => apply_spec(fuel, values[0], values.skip(1), env, s1),
                    (Err(e), s1) => (Err(e), s1),
                }
            }
        },
        _ => eval_ast_spec(fuel, ast, env, s),
    }
}

/// The values of the items of `list` from `i` on, each evaluated in `env`, left to right,
/// in the arena that the one before left; they follow `done`, the values of the items
/// before `i`.
pub open spec fn eval_items(
    fuel: nat,
    list: Seq<Value>,
    i: nat,
    env: nat,
    s: Seq<FrameView>,
    done: Seq<Value>,
) -> (Result<Seq<Value>, EvalErrorView>, Seq<FrameView>)
    decreases 2 * fuel + 1, list, list.len() - i,
{
    if i >= list.len() {
        (Ok(done), s)
    } else {
        match eval_spec(fuel, list[i as int], env, s) {
            (Ok(v), s1) => eval_items(fuel, list, i + 1, env, s1, done.push(v)),
            (Err(e), s1) => (Err(e), s1),
        }
    }
}

/// The meaning of an expression that is not a form to dispatch on: a symbol stands for
/// what it resolves to, a native name for itself; the items of a list are evaluated in
/// order; the other atoms stand for themselves.
pub open spec fn eval_ast_spec(fuel: nat, ast: Value, env: nat, s: Seq<FrameView>) -> Step
    decreases 2 * fuel + 1, ast, 0nat,
{
    match ast {
        Value::Sym(name) => match lookup(s, env, name) {
            Some(EnvValView::Val(v)) => (Ok(v), s),
            Some(EnvValView::NativeFn(_)) => (Ok(ast), s),
            None => (Err(EvalErrorView::SymbolNotFound(name)), s),
        },
        Value::List(list) => match eval_items(fuel, list, 0, env, s, Seq::empty()) {
            (Ok(values), s1) => (Ok(Value::List(values)), s1),
            (Err(e), s1) => (Err(e), s1),
        },
        Value::Vector(_) => (Err(EvalErrorView::UnsupportedExpression), s),
        Value::AssocArray(_) => (Err(EvalErrorView::UnsupportedExpression), s),
        Value::Fn { .. } => (Err(EvalErrorView::UnsupportedExpression), s),
        _ => (Ok(ast), s),
    }
}

/// `(def! name expr)`: the value of `expr`, bound to `name` in `env` itself.
pub open spec fn def_spec(fuel: nat, list: Seq<Value>, env: nat, s: Seq<FrameView>) -> Step
    decreases 2 * fuel + 1, list, 0nat,
{
    if list.len() != 3 {
        (Err(EvalErrorView::InvalidArgs), s)
    } else {
        match list[1] {
            Value::Sym(name) => match eval_spec(fuel, list[2], env, s) {
                (Ok(v), s1) => (Ok(v), define(s1, env, name, v)),
                (Err(e), s1) => (Err(e), s1),
            },
            _ => (Err(EvalErrorView::NotASymbol), s),
        }
    }
}

/// `(let* (name expr ...) body)`: the value of `body` in a new child of `env` in which
/// each name is bound in turn, every `expr` seeing the names before it.
pub open spec fn let_spec(fuel: nat, list: Seq<Value>, env: nat, s: Seq<FrameView>) -> Step
    decreases 2 * fuel + 1, list, 0nat,
{
    if list.len() != 3 {
        (Err(EvalErrorView::InvalidArgs), s)
    } else {
        match list[1] {
            Value::List(vars) => {
                if vars.len() % 2 != 0 {
                    (Err(EvalErrorView::InvalidArgs), s)
                } else {
                    match let_bindings(fuel, vars, 0, s.len(), with_child(s, env)) {
                        (None, s1) => eval_spec(fuel, list[2], s.len(), s1),
                        (Some(e), s1) => (Err(e), s1),
                    }
                }
            },
            _ => (Err(EvalErrorView::NotAList), s),
        }
    }
}

/// The arena after the pairs of `vars` from item `i` on are bound in frame `child`, one
/// after the other, or the failure that stopped the binding.
pub open spec fn let_bindings(
    fuel: nat,
    vars: Seq<Value>,
    i: nat,
    child: nat,
    s: Seq<FrameView>,
) -> (Option<EvalErrorView>, Seq<FrameView>)
    decreases 2 * fuel + 1, vars, vars.len() - i,
{
    if i + 2 > vars.len() {
        (None, s)
    } else {
        match vars[i as int] {
            Value::Sym(name) => match eval_spec(fuel, vars[i + 1int], child, s) {
                (Ok(v), s1) => let_bindings(fuel, vars, i + 2, child, define(s1, child, name, v)),
                (Err(e), s1) => (Some(e), s1),
            },
            _ => (Some(EvalErrorView::NotASymbol), s),
        }
    }
}

/// Every item is a symbol.
pub open spec fn all_symbols(vars: Seq<Value>) -> bool {
    forall|i: int| 0 <= i < vars.len() ==> vars[i] is Sym
}

/// The names of a run of symbols.
pub open spec fn symbol_names(vars: Seq<Value>) -> Seq<Seq<char>> {
    Seq::new(vars.len(), |i: int| vars[i]->Sym_0)
}

/// `(fn* (name ...) body)`: a closure over `env` with the names as parameters and the
/// body unevaluated. Whatever stands in the place of the parameters and is no list of
/// symbols is `NotASymbol`, whether it is a list or not.
pub open spec fn fn_spec(list: Seq<Value>, env: nat) -> Result<Value, EvalErrorView> {
    if list.len() != 3 {
        Err(EvalErrorView::InvalidArgs)
    } else {
        match list[1] {
            Value::List(vars) => {
                if all_symbols(vars) {
                    Ok(Value::Fn { env, binds: symbol_names(vars), body: Box::new(list[2]) })
                } else {
                    Err(EvalErrorView::NotASymbol)
                }
            },
            _ => Err(EvalErrorView::NotASymbol),
        }
    }
}

/// `(do expr ...)` from item `i` of the list on: the value of the last expression, or
/// `last`, the value of the one before `i`, where none is left.
pub open spec fn do_spec(
    fuel: nat,
    list: Seq<Value>,
    i: nat,
    env: nat,
    s: Seq<FrameView>,
    last: Value,
) -> Step
    decreases 2 * fuel + 1, list, list.len() - i,
{
    if i >= list.len() {
        (Ok(last), s)
    } else {
        match eval_spec(fuel, list[i as int], env, s) {
            (Ok(v), s1) => do_spec(fuel, list, i + 1, env, s1, v),
            (Err(e), s1) => (Err(e), s1),
        }
    }
}

/// The arena after the first `n` names of `binds` are bound in frame `at`, each to the
/// value in the same place of `args`, in order.
pub open spec fn bind_all(
    s: Seq<FrameView>,
    at: nat,
    binds: Seq<Seq<char>>,
    args: Seq<Value>,
    n: nat,
) -> Seq<FrameView>
    decreases n,
{
    if n == 0 || n > binds.len() || n > args.len() {
        s
    } else {
        define(bind_all(s, at, binds, args, (n - 1) as nat), at, binds[n - 1], args[n - 1])
    }
}

/// The application of an evaluated head to evaluated arguments. A name is looked up in
/// the registries seen from `env`. A closure gets a fresh child of the frame it captured,
/// with its parameters bound to the arguments, and its body is evaluated there.
pub open spec fn apply_spec(
    fuel: nat,
    head: Value,
    args: Seq<Value>,
    env: nat,
    s: Seq<FrameView>,
) -> Step
    decreases 2 * fuel, head, 0nat,
{
    match head {
        Value::Sym(name) => match native(s, env, name) {
            Some(f) => (f.call_spec(args), s),
            None => (Err(EvalErrorView::FunctionUndefined(name)), s),
        },
        Value::Fn { env: captured, binds, body } => {
            if binds.len() != args.len() {
                (Err(EvalErrorView::InvalidArgs), s)
            } else if fuel == 0 {
                (Err(EvalErrorView::RecursionLimit), s)
            } else {
                eval_spec(
                    (fuel - 1) as nat,
                    *body,
                    s.len(),
                    bind_all(with_child(s, captured), s.len(), binds, args, binds.len()),
                )
            }
        },
        _ => (Err(EvalErrorView::BadFunctionDesignator(print(head))), s),
    }
}

/// Evaluates `ast` in frame `env` of the arena. Closure calls may nest as deep as the
/// machine's word allows.
pub fn eval(ast: MalVal, env: &Environment, frames: &mut Frames) -> (r: EvalResult<MalVal>)
    ensures
        (outcome(r), final(frames)@) == eval_spec(usize::MAX as nat, ast@, env@, old(frames)@),
{
    eval_within(&ast, env, frames, usize::MAX)
}

/// Evaluates `ast` in frame `env` of the arena, with closure calls nested at most `depth`
/// deep.
pub fn eval_within(ast: &MalVal, env: &Environment, frames: &mut Frames, depth: usize) -> (r:
    EvalResult<MalVal>)
    ensures
        (outcome(r), final(frames)@) == eval_spec(depth as nat, ast@, env@, old(frames)@),
    decreases 2 * depth + 1, ast, 1nat,
{
    match ast {
        MalVal::List(list) => {
            proof {
                lemma_views(list@);
            }
            if list.is_empty() {
                let empty: Vec<MalVal> = Vec::new();
                assert(views(empty@) =~= views(list@));
                Ok(MalVal::List(empty))
            } else if is_symbol(&list[0], "def!") {
                handle_def(env, list, frames, depth)
            } else if is_symbol(&list[0], "let*") {
                handle_let(env, list, frames, depth)
            } else if is_symbol(&list[0], "fn*") {
                handle_fn(env, list)
            } else if is_symbol(&list[0], "do") {
                handle_do(env, list, frames, depth)
            } else {
                match eval_list(list, env, frames, depth) {
                    Ok(evaluated) => {
                        let mut args = evaluated;
                        let head = args.remove(0);
                        proof {
                            lemma_views(evaluated@);
                            lemma_views(args@);
                            assert(views(args@) =~= views(evaluated@).skip(1));
                        }
                        apply(head, args, env, frames, depth)
                    },
                    Err(e) => Err(e),
                }
            }
        },
        _ => eval_ast(ast, env, frames, depth),
    }
}

/// Whether `v` is the symbol `name`.
fn is_symbol(v: &MalVal, name: &str) -> (b: bool)
    ensures
        b == (v@ == Value::Sym(name@)),
{
    match v {
        MalVal::Atom(MalAtom::Sym(s)) => *s == name.to_owned(),
        _ => false,
    }
}

/// Evaluates the items of `list` in order and collects their values.
fn eval_list(list: &Vec<MalVal>, env: &Environment, frames: &mut Frames, depth: usize) -> (r:
    EvalResult<Vec<MalVal>>)
    ensures
        match r {
            Ok(values) => (Ok::<Seq<Value>, EvalErrorView>(views(values@)), final(frames)@),
            Err(e) => (Err::<Seq<Value>, EvalErrorView>(e@), final(frames)@),
        } == eval_items(depth as nat, views(list@), 0, env@, old(frames)@, Seq::empty()),
        r matches Ok(values) ==> values.len() == list.len(),
    decreases 2 * depth + 1, list, list.len() + 1,
{
    let mut evaluated: Vec<MalVal> = Vec::new();
    let mut i: usize = 0;
    proof {
        lemma_views(list@);
        assert(views(evaluated@) =~= Seq::<Value>::empty());
    }
    while i < list.len()
        invariant
            i <= list.len(),
            evaluated.len() == i,
            views(list@).len() == list.len(),
            forall|j: int| 0 <= j < list.len() ==> #[trigger] views(list@)[j] == list@[j]@,
            eval_items(depth as nat, views(list@), i as nat, env@, frames@, views(evaluated@))
                == eval_items(depth as nat, views(list@), 0, env@, old(frames)@, Seq::empty()),
        decreases list.len() - i,
    {
        let ghost before = views(evaluated@);
        match eval_within(&list[i], env, frames, depth) {
            Ok(v) => {
                evaluated.push(v);
                proof {
                    lemma_views(evaluated@);
                    assert(views(evaluated@) =~= before.push(v@));
                }
            },
            Err(e) => {
                return Err(e);
            },
        }
        i += 1;
    }
    Ok(evaluated)
}

/// Evaluates an expression that is no form to dispatch on.
fn eval_ast(ast: &MalVal, env: &Environment, frames: &mut Frames, depth: usize) -> (r: EvalResult<
    MalVal,
>)
    ensures
        (outcome(r), final(frames)@) == eval_ast_spec(depth as nat, ast@, env@, old(frames)@),
    decreases 2 * depth + 1, ast, 0nat,
{
    match ast {
        MalVal::Atom(atom) => match atom {
            MalAtom::Sym(sym) => {
                match env.get(frames, sym.as_str()) {
                    Some(env_val) => match env_val {
                        EnvVal::NativeFn(_) => Ok(MalVal::Atom(MalAtom::Sym(sym.clone()))),
                        EnvVal::Val(v) => Ok(v),
                    },
                    None => Err(EvalError::SymbolNotFound(sym.clone())),
                }
            },
            _ => Ok(MalVal::Atom(atom.clone())),
        },
        MalVal::List(list) => {
            match eval_list(list, env, frames, depth) {
                Ok(evaluated) => Ok(MalVal::List(evaluated)),
                Err(e) => Err(e),
            }
        },
        MalVal::Vector(_) => Err(EvalError::UnsupportedExpression),
        MalVal::AssocArray(_) => Err(EvalError::UnsupportedExpression),
        MalVal::Fn(_) => Err(EvalError::UnsupportedExpression),
    }
}

/// `(def! name expr)`
fn handle_def(env: &Environment, list: &Vec<MalVal>, frames: &mut Frames, depth: usize) -> (r:
    EvalResult<MalVal>)
    ensures
        (outcome(r), final(frames)@) == def_spec(depth as nat, views(list@), env@, old(frames)@),
    decreases 2 * depth + 1, list, 0nat,
{
    proof {
        lemma_views(list@);
    }
    if list.len() != 3 {
        return Err(EvalError::InvalidArgs);
    }
    match &list[1] {
        MalVal::Atom(MalAtom::Sym(sym_name)) => {
            match eval_within(&list[2], env, frames, depth) {
                Ok(evaluated) => {
                    env.set(frames, sym_name.clone(), evaluated.clone());
                    Ok(evaluated)
                },
                Err(e) => Err(e),
            }
        },
        _ => Err(EvalError::NotASymbol),
    }
}

/// `Itertools::next_tuple` on the items of `items` from `at` on: the next two of them,
/// in order, where at least two are left, and `None` where fewer are.
#[verifier::external_body]
fn pair_at(items: &Vec<MalVal>, at: usize) -> (r: Option<(&MalVal, &MalVal)>)
    ensures
        match r {
            Some((first, second)) => at + 2 <= items.len() && *first == items@[at as int]
                && *second == items@[at + 1],
            None => at + 2 > items.len(),
        },
{
    items.iter().skip(at).next_tuple()
}

/// `(let* (name expr ...) body)`
#[verifier::loop_isolation(false)]
fn handle_let(env: &Environment, list: &Vec<MalVal>, frames: &mut Frames, depth: usize) -> (r:
    EvalResult<MalVal>)
    ensures
        (outcome(r), final(frames)@) == let_spec(depth as nat, views(list@), env@, old(frames)@),
    decreases 2 * depth + 1, list, 0nat,
{
    proof {
        lemma_views(list@);
    }
    if list.len() != 3 {
        return Err(EvalError::InvalidArgs);
    }
    match &list[1] {
        MalVal::List(vars) => {
            proof {
                lemma_views(vars@);
            }
            if vars.len() % 2 != 0 {
                return Err(EvalError::InvalidArgs);
            }
            let ghost start = with_child(frames@, env@);
            let child_env = EnvironmentBuilder::new().with_parent(env).build(frames);
            let mut at: usize = 0;
            let mut pair = pair_at(vars, at);
            while pair.is_some()
                invariant
                    at <= vars.len(),
                    at % 2 == 0,
                    match pair {
                        Some((first, second)) => at + 2 <= vars.len() && *first == vars@[at as int]
                            && *second == vars@[at + 1],
                        None => at + 2 > vars.len(),
                    },
                    let_bindings(depth as nat, views(vars@), at as nat, child_env@, frames@)
                        == let_bindings(depth as nat, views(vars@), 0, child_env@, start),
                decreases vars.len() - at,
            {
                let (sym, to_eval) = pair.unwrap();
                proof {
                    assert(decreases_to!(list => list[1]));
                    assert(decreases_to!(list[1] => vars));
                    assert(decreases_to!(vars => vars[at + 1]));
                }
                match sym {
                    MalVal::Atom(MalAtom::Sym(sym_name)) => {
                        match eval_within(to_eval, &child_env, frames, depth) {
                            Ok(evaluated) => {
                                child_env.set(frames, sym_name.clone(), evaluated);
                            },
                            Err(e) => {
                                return Err(e);
                            },
                        }
                    },
                    _ => {
                        return Err(EvalError::NotASymbol);
                    },
                }
                at += 2;
                pair = pair_at(vars, at);
            }
            eval_within(&list[2], &child_env, frames, depth)
        },
        _ => Err(EvalError::NotAList),
    }
}

/// `(fn* (name ...) body)`
#[verifier::loop_isolation(false)]
fn handle_fn(env: &Environment, list: &Vec<MalVal>) -> (r: EvalResult<MalVal>)
    ensures
        outcome(r) == fn_spec(views(list@), env@),
{
    proof {
        lemma_views(list@);
    }
    if list.len() != 3 {
        return Err(EvalError::InvalidArgs);
    }
    match &list[1] {
        MalVal::List(vars) => {
            proof {
                lemma_views(vars@);
            }
            let mut binds: Vec<String> = Vec::new();
            let mut i: usize = 0;
            while i < vars.len()
                invariant
                    i <= vars.len(),
                    views(vars@).len() == vars.len(),
                    forall|j: int| 0 <= j < vars.len() ==> #[trigger] views(vars@)[j] == vars@[j]@,
                    binds@.len() == i,
                    forall|j: int|
                        0 <= j < i ==> views(vars@)[j] == Value::Sym(#[trigger] binds@[j]@),
                decreases vars.len() - i,
            {
                match &vars[i] {
                    MalVal::Atom(MalAtom::Sym(sym_name)) => {
                        binds.push(sym_name.clone());
                    },
                    _ => {
                        assert(!(views(vars@)[i as int] is Sym));
                        return Err(EvalError::NotASymbol);
                    },
                }
                i += 1;
            }
            assert(names(binds@) =~= symbol_names(views(vars@)));
            assert forall|j: int| 0 <= j < vars.len() implies views(vars@)[j] is Sym by {
                let _ = binds@[j]@;
            }
            let body = list[2].clone();
            Ok(MalVal::Fn(Box::new(MalFn { env: *env, body, binds })))
        },
        _ => Err(EvalError::NotASymbol),
    }
}

/// `(do expr ...)`
fn handle_do(env: &Environment, list: &Vec<MalVal>, frames: &mut Frames, depth: usize) -> (r:
    EvalResult<MalVal>)
    requires
        list.len() > 0,
    ensures
        (outcome(r), final(frames)@) == do_spec(
            depth as nat,
            views(list@),
            1,
            env@,
            old(frames)@,
            Value::Nil,
        ),
    decreases 2 * depth + 1, list, 0nat,
{
    proof {
        lemma_views(list@);
    }
    let mut ret = MalVal::Atom(MalAtom::Nil);
    let mut i: usize = 1;
    while i < list.len()
        invariant
            1 <= i <= list.len(),
            views(list@).len() == list.len(),
            forall|j: int| 0 <= j < list.len() ==> #[trigger] views(list@)[j] == list@[j]@,
            do_spec(depth as nat, views(list@), i as nat, env@, frames@, ret@) == do_spec(
                depth as nat,
                views(list@),
                1,
                env@,
                old(frames)@,
                Value::Nil,
            ),
        decreases list.len() - i,
    {
        match eval_within(&list[i], env, frames, depth) {
            Ok(v) => {
                ret = v;
            },
            Err(e) => {
                return Err(e);
            },
        }
        i += 1;
    }
    Ok(ret)
}

/// Applies an evaluated head to evaluated arguments.
pub fn apply(
    head: MalVal,
    args: Vec<MalVal>,
    env: &Environment,
    frames: &mut Frames,
    depth: usize,
) -> (r: EvalResult<MalVal>)
    ensures
        (outcome(r), final(frames)@) == apply_spec(
            depth as nat,
            head@,
            views(args@),
            env@,
            old(frames)@,
        ),
    decreases 2 * depth, head, 0nat,
{
    proof {
        lemma_views(args@);
    }
    match head {
        MalVal::Atom(MalAtom::Sym(sym_name)) => {
            match env.get_native(frames, sym_name.as_str()) {
                Some(f) => f.call(args),
                None => Err(EvalError::FunctionUndefined(sym_name)),
            }
        },
        MalVal::Fn(f) => {
            if f.binds.len() != args.len() {
                return Err(EvalError::InvalidArgs);
            }
            if depth == 0 {
                return Err(EvalError::RecursionLimit);
            }
            let ghost start = with_child(frames@, f.env@);
            let ghost values = views(args@);
            let child_env = EnvironmentBuilder::new().with_parent(&f.env).build(frames);
            let mut args = args;
            let mut i: usize = 0;
            while i < f.binds.len()
                invariant
                    i <= f.binds.len(),
                    f.binds.len() == args.len(),
                    values.len() == args.len(),
                    forall|j: int| i <= j < args.len() ==> values[j] == #[trigger] args@[j]@,
                    frames@ == bind_all(start, child_env@, names(f.binds@), values, i as nat),
                decreases f.binds.len() - i,
            {
                let mut v = MalVal::Atom(MalAtom::Nil);
                std::mem::swap(&mut v, &mut args[i]);
                child_env.set(frames, f.binds[i].clone(), v);
                i += 1;
            }
            eval_within(&f.body, &child_env, frames, depth - 1)
        },
        _ => Err(EvalError::BadFunctionDesignator(head.to_string())),
    }
}

} // verus!
