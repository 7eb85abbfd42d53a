use vstd::prelude::*;

use crate::eval::{
    apply_spec, bind_all, def_spec, do_spec, eval_ast_spec, eval_items, eval_spec, let_bindings,
    let_spec,
};
use crate::types::env::{
    define, law_define_then_lookup, lemma_same_before, lookup, native, value_frame, with_child,
    EnvValView, FrameView,
};
use crate::eval::builtin::{
    as_ints, fits, int_values, law_add_is_sum, law_mul_is_product, law_sub_is_difference,
    law_sub_negates, product, sum,
};
use crate::types::{EvalErrorView, NativeFn, Value};

verus! {

/// Every frame of `s` stands in `t`, in its place and as it was.
pub open spec fn extends(s: Seq<FrameView>, t: Seq<FrameView>) -> bool {
    &&& s.len() <= t.len()
    &&& forall|i: int| 0 <= i < s.len() ==> #[trigger] t[i] == s[i]
}

/// Every frame of `s` stands in `t`, in its place and as it was, but that frame `at` may
/// hold other bindings.
pub open spec fn extends_but(s: Seq<FrameView>, t: Seq<FrameView>, at: nat) -> bool {
    &&& s.len() <= t.len()
    &&& forall|i: int| 0 <= i < s.len() && i != at ==> #[trigger] t[i] == s[i]
    &&& at < s.len() ==> t[at as int].parent == s[at as int].parent && t[at as int].builtin
        == s[at as int].builtin
}

/// Binding parameters writes into the one frame only.
pub proof fn lemma_bind_all_frames(
    s: Seq<FrameView>,
    at: nat,
    binds: Seq<Seq<char>>,
    args: Seq<Value>,
    n: nat,
)
    ensures
        extends_but(s, bind_all(s, at, binds, args, n), at),
        bind_all(s, at, binds, args, n).len() == s.len(),
    decreases n,
{
    if !(n == 0 || n > binds.len() || n > args.len()) {
        lemma_bind_all_frames(s, at, binds, args, (n - 1) as nat);
    }
}

/// An evaluation adds frames, binds names in the frame it runs in, and leaves every
/// other frame as it was.
pub proof fn lemma_eval_frames(fuel: nat, ast: Value, env: nat, s: Seq<FrameView>)
    ensures
        extends_but(s, eval_spec(fuel, ast, env, s).1, env),
    decreases 2 * fuel + 1, ast, 1nat,
{
    match ast {
        Value::List(list) => {
            if list.len() == 0 {
            } else if list[0] == Value::Sym("def!"@) {
                lemma_def_frames(fuel, list, env, s);
            } else if list[0] == Value::Sym("let*"@) {
                lemma_let_frames(fuel, list, env, s);
            } else if list[0] == Value::Sym("fn*"@) {
            } else if list[0] == Value::Sym("do"@) {
                lemma_do_frames(fuel, list, 1, env, s, Value::Nil);
            } else {
                lemma_items_frames(fuel, list, 0, env, s, Seq::empty());
                match eval_items(fuel, list, 0, env, s, Seq::empty()) {
                    (Ok(values), s1) => {
                        lemma_apply_frames(fuel, values[0], values.skip(1), env, s1);
                    },
                    (Err(e), s1) => {},
                }
            }
        },
        _ => {
            lemma_eval_ast_frames(fuel, ast, env, s);
        },
    }
}

/// As [`lemma_eval_frames`], for a run of items.
pub proof fn lemma_items_frames(
    fuel: nat,
    list: Seq<Value>,
    i: nat,
    env: nat,
    s: Seq<FrameView>,
    done: Seq<Value>,
)
    ensures
        extends_but(s, eval_items(fuel, list, i, env, s, done).1, env),
    decreases 2 * fuel + 1, list, list.len() - i,
{
    if i < list.len() {
        lemma_eval_frames(fuel, list[i as int], env, s);
        match eval_spec(fuel, list[i as int], env, s) {
            (Ok(v), s1) => {
                lemma_items_frames(fuel, list, i + 1, env, s1, done.push(v));
            },
            (Err(e), s1) => {},
        }
    }
}

/// As [`lemma_eval_frames`], for an expression that is no form to dispatch on.
pub proof fn lemma_eval_ast_frames(fuel: nat, ast: Value, env: nat, s: Seq<FrameView>)
    ensures
        extends_but(s, eval_ast_spec(fuel, ast, env, s).1, env),
    decreases 2 * fuel + 1, ast, 0nat,
{
    match ast {
        Value::List(list) => {
            lemma_items_frames(fuel, list, 0, env, s, Seq::empty());
        },
        _ => {},
    }
}

/// As [`lemma_eval_frames`], for `def!`.
pub proof fn lemma_def_frames(fuel: nat, list: Seq<Value>, env: nat, s: Seq<FrameView>)
    ensures
        extends_but(s, def_spec(fuel, list, env, s).1, env),
    decreases 2 * fuel + 1, list, 0nat,
{
    if list.len() == 3 && list[1] is Sym {
        lemma_eval_frames(fuel, list[2], env, s);
    }
}

/// `let*` leaves every frame that was there as it was: what it binds, it binds in a
/// frame of its own.
pub proof fn lemma_let_frames(fuel: nat, list: Seq<Value>, env: nat, s: Seq<FrameView>)
    ensures
        extends(s, let_spec(fuel, list, env, s).1),
    decreases 2 * fuel + 1, list, 0nat,
{
    if list.len() == 3 {
        match list[1] {
            Value::List(vars) => {
                if vars.len() % 2 == 0 {
                    let s0 = with_child(s, env);
                    lemma_bindings_frames(fuel, vars, 0, s.len(), s0);
                    match let_bindings(fuel, vars, 0, s.len(), s0) {
                        (None, s1) => {
                            lemma_eval_frames(fuel, list[2], s.len(), s1);
                        },
                        (Some(e), s1) => {},
                    }
                }
            },
            _ => {},
        }
    }
}

/// As [`lemma_eval_frames`], for the bindings of a `let*`.
pub proof fn lemma_bindings_frames(
    fuel: nat,
    vars: Seq<Value>,
    i: nat,
    child: nat,
    s: Seq<FrameView>,
)
    ensures
        extends_but(s, let_bindings(fuel, vars, i, child, s).1, child),
    decreases 2 * fuel + 1, vars, vars.len() - i,
{
    if i + 2 <= vars.len() {
        match vars[i as int] {
            Value::Sym(name) => {
                lemma_eval_frames(fuel, vars[i + 1int], child, s);
                match eval_spec(fuel, vars[i + 1int], child, s) {
                    (Ok(v), s1) => {
                        lemma_bindings_frames(
                            fuel,
                            vars,
                            i + 2,
                            child,
                            define(s1, child, name, v),
                        );
                    },
                    (Err(e), s1) => {},
                }
            },
            _ => {},
        }
    }
}

/// As [`lemma_eval_frames`], for `do`.
pub proof fn lemma_do_frames(
    fuel: nat,
    list: Seq<Value>,
    i: nat,
    env: nat,
    s: Seq<FrameView>,
    last: Value,
)
    ensures
        extends_but(s, do_spec(fuel, list, i, env, s, last).1, env),
    decreases 2 * fuel + 1, list, list.len() - i,
{
    if i < list.len() {
        lemma_eval_frames(fuel, list[i as int], env, s);
        match eval_spec(fuel, list[i as int], env, s) {
            (Ok(v), s1) => {
                lemma_do_frames(fuel, list, i + 1, env, s1, v);
            },
            (Err(e), s1) => {},
        }
    }
}

/// An application leaves every frame that was there as it was: a closure's body runs
/// in a frame of its own.
pub proof fn lemma_apply_frames(
    fuel: nat,
    head: Value,
    args: Seq<Value>,
    env: nat,
    s: Seq<FrameView>,
)
    ensures
        extends(s, apply_spec(fuel, head, args, env, s).1),
    decreases 2 * fuel, head, 0nat,
{
    match head {
        Value::Fn { env: captured, binds, body } => {
            if binds.len() == args.len() && fuel > 0 {
                let s0 = with_child(s, captured);
                lemma_bind_all_frames(s0, s.len(), binds, args, binds.len());
                let s1 = bind_all(s0, s.len(), binds, args, binds.len());
                lemma_eval_frames((fuel - 1) as nat, *body, s.len(), s1);
            }
        },
        _ => {},
    }
}

/// Scoping of `let*`: whatever a `let*` form binds, and whether it succeeds or fails,
/// afterwards every frame that was in the arena is as it was, and so every name resolves
/// from `env` to what it resolved to before.
pub proof fn law_let_keeps_outer_bindings(
    fuel: nat,
    list: Seq<Value>,
    env: nat,
    s: Seq<FrameView>,
    name: Seq<char>,
)
    requires
        list.len() > 0,
        list[0] == Value::Sym("let*"@),
        env < s.len(),
    ensures
        eval_spec(fuel, Value::List(list), env, s) == let_spec(fuel, list, env, s),
        extends(s, eval_spec(fuel, Value::List(list), env, s).1),
        lookup(eval_spec(fuel, Value::List(list), env, s).1, env, name) == lookup(s, env, name),
{
    reveal_strlit("let*");
    reveal_strlit("def!");
    assert("let*"@ != "def!"@) by {
        assert("let*"@[0] == 'l');
        assert("def!"@[0] == 'd');
    }
    lemma_let_frames(fuel, list, env, s);
    lemma_same_before(s, let_spec(fuel, list, env, s).1, env, name);
}

/// `def!` binds in its own frame: where `(def! name expr)` gives a value in a frame of
/// the arena, the name resolves from that frame to the value afterwards.
pub proof fn law_def_binds(
    fuel: nat,
    name: Seq<char>,
    expr: Value,
    env: nat,
    s: Seq<FrameView>,
)
    requires
        env < s.len(),
    ensures
        eval_spec(
            fuel,
            Value::List(seq![Value::Sym("def!"@), Value::Sym(name), expr]),
            env,
            s,
        ) matches (Ok(v), after) ==> lookup(after, env, name) == Some(EnvValView::Val(v))
            && eval_spec(fuel, expr, env, s).0 == Ok::<Value, EvalErrorView>(v),
{
    let list = seq![Value::Sym("def!"@), Value::Sym(name), expr];
    lemma_eval_frames(fuel, expr, env, s);
    match eval_spec(fuel, expr, env, s) {
        (Ok(v), s1) => {
            law_define_then_lookup(s1, env, name, v);
        },
        (Err(e), s1) => {},
    }
}

/// Scoping of `def!`: an evaluation in frame `env` binds nothing in any other frame
/// that was in the arena.
pub proof fn law_define_writes_own_frame(fuel: nat, ast: Value, env: nat, s: Seq<FrameView>)
    ensures
        extends_but(s, eval_spec(fuel, ast, env, s).1, env),
{
    lemma_eval_frames(fuel, ast, env, s);
}

/// Arity of closures: applying a closure to a number of arguments other than the number
/// of its parameters is `InvalidArgs`, and the arena stays as it was.
pub proof fn law_closure_arity(
    fuel: nat,
    captured: nat,
    binds: Seq<Seq<char>>,
    body: Value,
    args: Seq<Value>,
    env: nat,
    s: Seq<FrameView>,
)
    requires
        binds.len() != args.len(),
    ensures
        apply_spec(fuel, Value::Fn { env: captured, binds, body: Box::new(body) }, args, env, s)
            == (Err::<Value, EvalErrorView>(EvalErrorView::InvalidArgs), s),
{
}

/// A run of items that evaluates gives one value for each item.
pub proof fn lemma_items_len(
    fuel: nat,
    list: Seq<Value>,
    i: nat,
    env: nat,
    s: Seq<FrameView>,
    done: Seq<Value>,
)
    requires
        i <= list.len(),
    ensures
        eval_items(fuel, list, i, env, s, done).0 matches Ok(values) ==> values.len() == done.len()
            + list.len() - i,
    decreases list.len() - i,
{
    if i < list.len() {
        match eval_spec(fuel, list[i as int], env, s) {
            (Ok(v), s1) => {
                lemma_items_len(fuel, list, i + 1, env, s1, done.push(v));
            },
            (Err(e), s1) => {},
        }
    }
}

/// Arity of closure calls: a list that is no special form, whose items all evaluate and
/// whose head evaluates to a closure, is `InvalidArgs` where the number of its arguments
/// is not the number of the closure's parameters. The arena is left as the evaluation of
/// the items left it.
pub proof fn law_call_arity(fuel: nat, list: Seq<Value>, env: nat, s: Seq<FrameView>)
    requires
        list.len() > 0,
        !(list[0] matches Value::Sym(name) && special_form(name)),
    ensures
        eval_items(fuel, list, 0, env, s, Seq::empty()) matches (Ok(values), after) ==> {
            &&& values.len() == list.len()
            &&& values[0] matches Value::Fn { binds, .. } ==> binds.len() != list.len() - 1
                ==> eval_spec(fuel, Value::List(list), env, s) == (
                Err::<Value, EvalErrorView>(EvalErrorView::InvalidArgs),
                after,
            )
        },
{
    lemma_items_len(fuel, list, 0, env, s, Seq::empty());
}

/// The atoms that stand for themselves as expressions.
pub open spec fn self_evaluating(v: Value) -> bool {
    v is Nil || v is True || v is False || v is Str || v is Int
}

/// The head symbols that select a special form.
pub open spec fn special_form(name: Seq<char>) -> bool {
    name == "def!"@ || name == "let*"@ || name == "fn*"@ || name == "do"@
}

/// Items that each evaluate to themselves and leave the arena alone evaluate, as a run,
/// to themselves.
pub proof fn lemma_items_unchanged(
    fuel: nat,
    list: Seq<Value>,
    i: nat,
    env: nat,
    s: Seq<FrameView>,
    done: Seq<Value>,
)
    requires
        i <= list.len(),
        forall|j: int|
            i <= j < list.len() ==> #[trigger] eval_spec(fuel, list[j], env, s) == (
                Ok::<Value, EvalErrorView>(list[j]),
                s,
            ),
    ensures
        eval_items(fuel, list, i, env, s, done) == (
            Ok::<Seq<Value>, EvalErrorView>(done + list.skip(i as int)),
            s,
        ),
    decreases list.len() - i,
{
    if i < list.len() {
        assert(eval_spec(fuel, list[i as int], env, s) == (
            Ok::<Value, EvalErrorView>(list[i as int]),
            s,
        ));
        lemma_items_unchanged(fuel, list, i + 1, env, s, done.push(list[i as int]));
        assert(done.push(list[i as int]) + list.skip(i + 1int) =~= done + list.skip(i as int));
    } else {
        assert(done + list.skip(i as int) =~= done);
    }
}

/// The names of the native functions select no special form.
pub proof fn lemma_native_names_are_no_forms()
    ensures
        !special_form("+"@),
        !special_form("-"@),
        !special_form("*"@),
        !special_form("="@),
        !special_form(">"@),
        !special_form(">="@),
        !special_form("<"@),
        !special_form("<="@),
        !special_form("list"@),
        !special_form("list?"@),
        !special_form("empty?"@),
        !special_form("count"@),
{
    reveal_strlit("def!");
    reveal_strlit("let*");
    reveal_strlit("fn*");
    reveal_strlit("do");
    reveal_strlit("+");
    reveal_strlit("-");
    reveal_strlit("*");
    reveal_strlit("=");
    reveal_strlit(">");
    reveal_strlit(">=");
    reveal_strlit("<");
    reveal_strlit("<=");
    reveal_strlit("list");
    reveal_strlit("list?");
    reveal_strlit("empty?");
    reveal_strlit("count");
    assert("def!"@.len() == 4 && "let*"@.len() == 4 && "fn*"@.len() == 3 && "do"@.len() == 2);
    assert("+"@.len() == 1 && "-"@.len() == 1 && "*"@.len() == 1 && "="@.len() == 1);
    assert(">"@.len() == 1 && "<"@.len() == 1);
    assert(">="@.len() == 2 && "<="@.len() == 2 && "do"@[0] == 'd');
    assert(">="@[0] == '>' && "<="@[0] == '<');
    assert("list"@.len() == 4 && "list"@[1] == 'i' && "def!"@[1] == 'e' && "let*"@[1] == 'e');
    assert("list?"@.len() == 5 && "count"@.len() == 5 && "empty?"@.len() == 6);
}

/// Native calls: a list whose head is a name that no frame binds and that a registry
/// resolves, followed by atoms that stand for themselves, evaluates to what the native
/// function returns for those atoms, and leaves the arena as it was.
pub proof fn law_native_call(
    fuel: nat,
    name: Seq<char>,
    f: NativeFn,
    args: Seq<Value>,
    env: nat,
    s: Seq<FrameView>,
)
    requires
        !special_form(name),
        value_frame(s, env, name) is None,
        native(s, env, name) == Some(f),
        forall|i: int| 0 <= i < args.len() ==> self_evaluating(#[trigger] args[i]),
    ensures
        eval_spec(fuel, Value::List(seq![Value::Sym(name)] + args), env, s) == (
            f.call_spec(args),
            s,
        ),
{
    let list = seq![Value::Sym(name)] + args;
    assert forall|j: int| 0 <= j < list.len() implies #[trigger] eval_spec(
        fuel,
        list[j],
        env,
        s,
    ) == (Ok::<Value, EvalErrorView>(list[j]), s) by {
        if j > 0 {
            assert(list[j] == args[j - 1]);
        }
    }
    lemma_items_unchanged(fuel, list, 0, env, s, Seq::empty());
    assert(Seq::<Value>::empty() + list.skip(0) =~= list);
    assert(list.skip(1) =~= args);
}

/// `(+ xs...)` is the sum of the integers `xs`, 0 for none, wherever `+` is the native
/// addition and the sum fits in 64 bits.
pub proof fn law_sum_form(fuel: nat, xs: Seq<i64>, env: nat, s: Seq<FrameView>)
    requires
        value_frame(s, env, "+"@) is None,
        native(s, env, "+"@) == Some(NativeFn::Add),
        fits(sum(as_ints(xs))),
    ensures
        eval_spec(fuel, Value::List(seq![Value::Sym("+"@)] + int_values(xs)), env, s) == (
            Ok::<Value, EvalErrorView>(Value::Int(sum(as_ints(xs)) as i64)),
            s,
        ),
{
    lemma_native_names_are_no_forms();
    law_add_is_sum(xs);
    law_native_call(fuel, "+"@, NativeFn::Add, int_values(xs), env, s);
}

/// `(* xs...)` is the product of the integers `xs`, 1 for none, wherever `*` is the
/// native multiplication and the product fits in 64 bits.
pub proof fn law_product_form(fuel: nat, xs: Seq<i64>, env: nat, s: Seq<FrameView>)
    requires
        value_frame(s, env, "*"@) is None,
        native(s, env, "*"@) == Some(NativeFn::Mul),
        fits(product(as_ints(xs))),
    ensures
        eval_spec(fuel, Value::List(seq![Value::Sym("*"@)] + int_values(xs)), env, s) == (
            Ok::<Value, EvalErrorView>(Value::Int(product(as_ints(xs)) as i64)),
            s,
        ),
{
    lemma_native_names_are_no_forms();
    law_mul_is_product(xs);
    law_native_call(fuel, "*"@, NativeFn::Mul, int_values(xs), env, s);
}

/// `(- x)` is the negative of the integer `x`, wherever `-` is the native subtraction
/// and the negative fits in 64 bits.
pub proof fn law_negation_form(fuel: nat, x: i64, env: nat, s: Seq<FrameView>)
    requires
        value_frame(s, env, "-"@) is None,
        native(s, env, "-"@) == Some(NativeFn::Sub),
        fits(-x),
    ensures
        eval_spec(fuel, Value::List(seq![Value::Sym("-"@)] + int_values(seq![x])), env, s) == (
            Ok::<Value, EvalErrorView>(Value::Int((-x) as i64)),
            s,
        ),
{
    lemma_native_names_are_no_forms();
    law_sub_negates(x);
    law_native_call(fuel, "-"@, NativeFn::Sub, int_values(seq![x]), env, s);
}

/// `(- x ys...)` is the integer `x` minus the sum of the integers `ys`, of which there
/// is at least one, wherever `-` is the native subtraction and the result fits in 64
/// bits.
pub proof fn law_difference_form(fuel: nat, x: i64, ys: Seq<i64>, env: nat, s: Seq<FrameView>)
    requires
        value_frame(s, env, "-"@) is None,
        native(s, env, "-"@) == Some(NativeFn::Sub),
        ys.len() > 0,
        fits(x - sum(as_ints(ys))),
    ensures
        eval_spec(fuel, Value::List(seq![Value::Sym("-"@)] + int_values(seq![x] + ys)), env, s)
            == (Ok::<Value, EvalErrorView>(Value::Int((x - sum(as_ints(ys))) as i64)), s),
{
    lemma_native_names_are_no_forms();
    law_sub_is_difference(x, ys);
    law_native_call(fuel, "-"@, NativeFn::Sub, int_values(seq![x] + ys), env, s);
}

/// The failure of an evaluation that ran out of its budget of nested closure calls.
pub open spec fn out_of_fuel(r: Result<Value, EvalErrorView>) -> bool {
    r == Err::<Value, EvalErrorView>(EvalErrorView::RecursionLimit)
}

/// One more level of budget changes nothing for an evaluation that did not run out.
pub proof fn lemma_eval_more_fuel(fuel: nat, ast: Value, env: nat, s: Seq<FrameView>)
    ensures
        !out_of_fuel(eval_spec(fuel, ast, env, s).0) ==> eval_spec(fuel + 1, ast, env, s)
            == eval_spec(fuel, ast, env, s),
    decreases 2 * fuel + 1, ast, 1nat,
{
    match ast {
        Value::List(list) => {
            if list.len() == 0 {
            } else if list[0] == Value::Sym("def!"@) {
                lemma_def_more_fuel(fuel, list, env, s);
            } else if list[0] == Value::Sym("let*"@) {
                lemma_let_more_fuel(fuel, list, env, s);
            } else if list[0] == Value::Sym("fn*"@) {
            } else if list[0] == Value::Sym("do"@) {
                lemma_do_more_fuel(fuel, list, 1, env, s, Value::Nil);
            } else {
                lemma_items_more_fuel(fuel, list, 0, env, s, Seq::empty());
                match eval_items(fuel, list, 0, env, s, Seq::empty()) {
                    (Ok(values), s1) => {
                        lemma_apply_more_fuel(fuel, values[0], values.skip(1), env, s1);
                    },
                    (Err(e), s1) => {},
                }
            }
        },
        _ => {
            lemma_eval_ast_more_fuel(fuel, ast, env, s);
        },
    }
}

/// As [`lemma_eval_more_fuel`], for a run of items.
pub proof fn lemma_items_more_fuel(
    fuel: nat,
    list: Seq<Value>,
    i: nat,
    env: nat,
    s: Seq<FrameView>,
    done: Seq<Value>,
)
    ensures
        eval_items(fuel, list, i, env, s, done).0 != Err::<Seq<Value>, EvalErrorView>(
            EvalErrorView::RecursionLimit,
        ) ==> eval_items(fuel + 1, list, i, env, s, done) == eval_items(
            fuel,
            list,
            i,
            env,
            s,
            done,
        ),
    decreases 2 * fuel + 1, list, list.len() - i,
{
    if i < list.len() {
        lemma_eval_more_fuel(fuel, list[i as int], env, s);
        match eval_spec(fuel, list[i as int], env, s) {
            (Ok(v), s1) => {
                lemma_items_more_fuel(fuel, list, i + 1, env, s1, done.push(v));
            },
            (Err(e), s1) => {},
        }
    }
}

/// As [`lemma_eval_more_fuel`], for an expression that is no form to dispatch on.
pub proof fn lemma_eval_ast_more_fuel(fuel: nat, ast: Value, env: nat, s: Seq<FrameView>)
    ensures
        !out_of_fuel(eval_ast_spec(fuel, ast, env, s).0) ==> eval_ast_spec(fuel + 1, ast, env, s)
            == eval_ast_spec(fuel, ast, env, s),
    decreases 2 * fuel + 1, ast, 0nat,
{
    match ast {
        Value::List(list) => {
            lemma_items_more_fuel(fuel, list, 0, env, s, Seq::empty());
        },
        _ => {},
    }
}

/// As [`lemma_eval_more_fuel`], for `def!`.
pub proof fn lemma_def_more_fuel(fuel: nat, list: Seq<Value>, env: nat, s: Seq<FrameView>)
    ensures
        !out_of_fuel(def_spec(fuel, list, env, s).0) ==> def_spec(fuel + 1, list, env, s)
            == def_spec(fuel, list, env, s),
    decreases 2 * fuel + 1, list, 0nat,
{
    if list.len() == 3 && list[1] is Sym {
        lemma_eval_more_fuel(fuel, list[2], env, s);
    }
}

/// As [`lemma_eval_more_fuel`], for `let*`.
pub proof fn lemma_let_more_fuel(fuel: nat, list: Seq<Value>, env: nat, s: Seq<FrameView>)
    ensures
        !out_of_fuel(let_spec(fuel, list, env, s).0) ==> let_spec(fuel + 1, list, env, s)
            == let_spec(fuel, list, env, s),
    decreases 2 * fuel + 1, list, 0nat,
{
    if list.len() == 3 {
        match list[1] {
            Value::List(vars) => {
                if vars.len() % 2 == 0 {
                    let s0 = with_child(s, env);
                    lemma_bindings_more_fuel(fuel, vars, 0, s.len(), s0);
                    match let_bindings(fuel, vars, 0, s.len(), s0) {
                        (None, s1) => {
                            lemma_eval_more_fuel(fuel, list[2], s.len(), s1);
                        },
                        (Some(e), s1) => {},
                    }
                }
            },
            _ => {},
        }
    }
}

/// As [`lemma_eval_more_fuel`], for the bindings of a `let*`.
pub proof fn lemma_bindings_more_fuel(
    fuel: nat,
    vars: Seq<Value>,
    i: nat,
    child: nat,
    s: Seq<FrameView>,
)
    ensures
        let_bindings(fuel, vars, i, child, s).0 != Some(EvalErrorView::RecursionLimit)
            ==> let_bindings(fuel + 1, vars, i, child, s) == let_bindings(
            fuel,
            vars,
            i,
            child,
            s,
        ),
    decreases 2 * fuel + 1, vars, vars.len() - i,
{
    if i + 2 <= vars.len() {
        match vars[i as int] {
            Value::Sym(name) => {
                lemma_eval_more_fuel(fuel, vars[i + 1int], child, s);
                match eval_spec(fuel, vars[i + 1int], child, s) {
                    (Ok(v), s1) => {
                        lemma_bindings_more_fuel(
                            fuel,
                            vars,
                            i + 2,
                            child,
                            define(s1, child, name, v),
                        );
                    },
                    (Err(e), s1) => {},
                }
            },
            _ => {},
        }
    }
}

/// As [`lemma_eval_more_fuel`], for `do`.
pub proof fn lemma_do_more_fuel(
    fuel: nat,
    list: Seq<Value>,
    i: nat,
    env: nat,
    s: Seq<FrameView>,
    last: Value,
)
    ensures
        !out_of_fuel(do_spec(fuel, list, i, env, s, last).0) ==> do_spec(
            fuel + 1,
            list,
            i,
            env,
            s,
            last,
        ) == do_spec(fuel, list, i, env, s, last),
    decreases 2 * fuel + 1, list, list.len() - i,
{
    if i < list.len() {
        lemma_eval_more_fuel(fuel, list[i as int], env, s);
        match eval_spec(fuel, list[i as int], env, s) {
            (Ok(v), s1) => {
                lemma_do_more_fuel(fuel, list, i + 1, env, s1, v);
            },
            (Err(e), s1) => {},
        }
    }
}

/// As [`lemma_eval_more_fuel`], for an application.
pub proof fn lemma_apply_more_fuel(
    fuel: nat,
    head: Value,
    args: Seq<Value>,
    env: nat,
    s: Seq<FrameView>,
)
    ensures
        !out_of_fuel(apply_spec(fuel, head, args, env, s).0) ==> apply_spec(
            fuel + 1,
            head,
            args,
            env,
            s,
        ) == apply_spec(fuel, head, args, env, s),
    decreases 2 * fuel, head, 0nat,
{
    match head {
        Value::Fn { env: captured, binds, body } => {
            if binds.len() == args.len() && fuel > 0 {
                let s1 = bind_all(with_child(s, captured), s.len(), binds, args, binds.len());
                lemma_eval_more_fuel((fuel - 1) as nat, *body, s.len(), s1);
            }
        },
        _ => {},
    }
}

/// The budget does not matter where it suffices: an evaluation that does not run out of
/// its budget of nested closure calls gives the same value, or the same failure, and
/// leaves the same arena under every larger budget.
pub proof fn law_enough_fuel(fuel: nat, more: nat, ast: Value, env: nat, s: Seq<FrameView>)
    requires
        fuel <= more,
        !out_of_fuel(eval_spec(fuel, ast, env, s).0),
    ensures
        eval_spec(more, ast, env, s) == eval_spec(fuel, ast, env, s),
    decreases more - fuel,
{
    if fuel < more {
        law_enough_fuel(fuel, (more - 1) as nat, ast, env, s);
        lemma_eval_more_fuel((more - 1) as nat, ast, env, s);
    }
}

} // verus!
