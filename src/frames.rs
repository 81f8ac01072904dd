use crate::environment::Scope;
use crate::node::{Builtin, Datum};
use crate::semantics::{
    eval_form_spec, Reply,
    apply_spec, begin_spec, binding_expr, binding_shape, bindings_spec, call_frame, call_spec,
    cond_spec, define_spec, each_spec, eval_spec, filter_spec, fold_spec, form_spec, frame_of_pairs,
    higher_spec, if_spec, is_closure, let_spec, map_spec, pipe_spec, stages_spec, time_ms_spec,
};
use vstd::prelude::*;

verus! {

/// Whether `b` differs from `a` at most in its innermost frame.
pub open spec fn keeps_outer(a: Scope, b: Scope) -> bool {
    b.len() == a.len() && b.drop_last() == a.drop_last()
}

proof fn lemma_keeps_outer_trans(a: Scope, b: Scope, c: Scope)
    requires
        keeps_outer(a, b),
        keeps_outer(b, c),
    ensures
        keeps_outer(a, c),
{
}

proof fn lemma_update_last_keeps_outer(s: Scope, f: crate::environment::Frame)
    requires
        s.len() > 0,
    ensures
        keeps_outer(s, s.update(s.len() - 1, f)),
{
    assert(s.update(s.len() - 1, f).drop_last() =~= s.drop_last());
}

pub proof fn lemma_push_drop(s: Scope, f: crate::environment::Frame, t: Scope)
    requires
        keeps_outer(s.push(f), t),
    ensures
        t.drop_last() == s,
{
    assert(s.push(f).drop_last() =~= s);
}

/// Evaluation changes at most the innermost frame of the scope.
pub proof fn lemma_eval_keeps_outer(d: Datum, s: Scope, t: Seq<Reply>, k: int, fuel: nat)
    requires
        s.len() > 0,
    ensures
        keeps_outer(s, eval_spec(d, s, t, k, fuel).1),
    decreases fuel, 0nat, 0nat,
{
    if fuel > 0 {
        if let Datum::List(items) = d {
            lemma_form_keeps_outer(items, s, t, k, (fuel - 1) as nat);
        }
    }
}

proof fn lemma_form_keeps_outer(items: Seq<Datum>, s: Scope, t: Seq<Reply>, k: int, fuel: nat)
    requires
        s.len() > 0,
    ensures
        keeps_outer(s, form_spec(items, s, t, k, fuel).1),
    decreases fuel, 4nat, 0nat,
{
    if items.len() > 0 {
        if let Datum::Symbol(head) = items[0] {
            let rest = items.drop_first();
            if head == "if"@ {
                lemma_if_keeps_outer(rest, s, t, k, fuel);
            } else if head == "cond"@ {
                lemma_cond_keeps_outer(rest, 0, s, t, k, fuel);
            } else if head == "begin"@ {
                lemma_begin_keeps_outer(rest, 0, crate::node::nil(), s, t, k, fuel);
            } else if head == "define"@ {
                lemma_define_keeps_outer(rest, s, t, k, fuel);
            } else if head == "undefine"@ {
                if rest.len() == 1 && rest[0] is Symbol {
                    lemma_update_last_keeps_outer(s, s.last().remove(rest[0]->Symbol_0));
                }
            } else if head == "type?"@ {
                if rest.len() == 1 {
                    lemma_eval_keeps_outer(rest[0], s, t, k, fuel);
                }
            } else if head == "let"@ {
                lemma_let_keeps_outer(rest, false, s, t, k, fuel);
            } else if head == "let-restricted"@ {
                lemma_let_keeps_outer(rest, true, s, t, k, fuel);
            } else if head == "time-ms"@ {
                lemma_time_ms_keeps_outer(rest, s, t, k, fuel);
            } else if head == "eval"@ {
                lemma_eval_form_keeps_outer(rest, s, t, k, fuel);
            } else if head == "pipe"@ || head == "|"@ {
                lemma_pipe_keeps_outer(rest, s, t, k, fuel);
            } else {
                lemma_call_keeps_outer(head, rest, s, t, k, fuel);
            }
        }
    }
}

proof fn lemma_time_ms_keeps_outer(rest: Seq<Datum>, s: Scope, t: Seq<Reply>, k: int, fuel: nat)
    requires
        s.len() > 0,
    ensures
        keeps_outer(s, time_ms_spec(rest, s, t, k, fuel).1),
    decreases fuel, 3nat, 0nat,
{
    if rest.len() == 1 {
        lemma_eval_keeps_outer(rest[0], s, t, k, fuel);
    }
}

proof fn lemma_eval_form_keeps_outer(rest: Seq<Datum>, s: Scope, t: Seq<Reply>, k: int, fuel: nat)
    requires
        s.len() > 0,
    ensures
        keeps_outer(s, eval_form_spec(rest, s, t, k, fuel).1),
    decreases fuel, 3nat, 0nat,
{
    lemma_each_keeps_outer(rest, 0, s, t, k, fuel);
    let (r, s1, k1) = each_spec(rest, 0, s, t, k, fuel);
    if let Ok(vals) = r {
        if vals.len() == 1 && vals[0] is List {
            lemma_each_keeps_outer(vals[0]->List_0, 0, s1, t, k1, fuel);
        }
    }
}

proof fn lemma_pipe_keeps_outer(rest: Seq<Datum>, s: Scope, t: Seq<Reply>, k: int, fuel: nat)
    requires
        s.len() > 0,
    ensures
        keeps_outer(s, pipe_spec(rest, s, t, k, fuel).1),
    decreases fuel, 3nat, rest.len() + 1,
{
    if rest.len() > 0 {
        let (r, s1, k1) = eval_spec(rest[0], s, t, k, fuel);
        lemma_eval_keeps_outer(rest[0], s, t, k, fuel);
        if let Ok(v) = r {
            lemma_stages_keeps_outer(rest, 1, v, s1, t, k1, fuel);
        }
    }
}

proof fn lemma_stages_keeps_outer(rest: Seq<Datum>, i: int, cur: Datum, s: Scope, t: Seq<Reply>, k: int, fuel: nat)
    requires
        s.len() > 0,
    ensures
        keeps_outer(s, stages_spec(rest, i, cur, s, t, k, fuel).1),
    decreases fuel, 3nat, rest.len() - i,
{
    if 1 <= i < rest.len() {
        if let Datum::List(call) = rest[i] {
            if call.len() > 0 {
                let (rf, s1, k1) = eval_spec(call[0], s, t, k, fuel);
                lemma_eval_keeps_outer(call[0], s, t, k, fuel);
                if let Ok(f) = rf {
                    let (ra, s2, k2) = each_spec(call, 1, s1, t, k1, fuel);
                    lemma_each_keeps_outer(call, 1, s1, t, k1, fuel);
                    if let Ok(args) = ra {
                        let (rv, s3, k3) = apply_spec(f, args.push(cur), s2, t, k2, fuel);
                        lemma_apply_keeps_outer(f, args.push(cur), s2, t, k2, fuel);
                        if let Ok(v) = rv {
                            lemma_stages_keeps_outer(rest, i + 1, v, s3, t, k3, fuel);
                        }
                    }
                }
            }
        }
    }
}

proof fn lemma_if_keeps_outer(rest: Seq<Datum>, s: Scope, t: Seq<Reply>, k: int, fuel: nat)
    requires
        s.len() > 0,
    ensures
        keeps_outer(s, if_spec(rest, s, t, k, fuel).1),
    decreases fuel, 3nat, 0nat,
{
    if rest.len() == 2 || rest.len() == 3 {
        let (r, s1, k1) = eval_spec(rest[0], s, t, k, fuel);
        lemma_eval_keeps_outer(rest[0], s, t, k, fuel);
        lemma_eval_keeps_outer(rest[1], s1, t, k1, fuel);
        if rest.len() == 3 {
            lemma_eval_keeps_outer(rest[2], s1, t, k1, fuel);
        }
    }
}

proof fn lemma_cond_keeps_outer(clauses: Seq<Datum>, i: int, s: Scope, t: Seq<Reply>, k: int, fuel: nat)
    requires
        s.len() > 0,
    ensures
        keeps_outer(s, cond_spec(clauses, i, s, t, k, fuel).1),
    decreases fuel, 2nat, clauses.len() - i,
{
    if 0 <= i < clauses.len() {
        if let Datum::List(pair) = clauses[i] {
            if pair.len() == 2 {
                let (r, s1, k1) = eval_spec(pair[0], s, t, k, fuel);
                lemma_eval_keeps_outer(pair[0], s, t, k, fuel);
                lemma_eval_keeps_outer(pair[1], s1, t, k1, fuel);
                lemma_cond_keeps_outer(clauses, i + 1, s1, t, k1, fuel);
            }
        }
    }
}

proof fn lemma_begin_keeps_outer(exprs: Seq<Datum>, i: int, last: Datum, s: Scope, t: Seq<Reply>, k: int, fuel: nat)
    requires
        s.len() > 0,
    ensures
        keeps_outer(s, begin_spec(exprs, i, last, s, t, k, fuel).1),
    decreases fuel, 2nat, exprs.len() - i,
{
    if 0 <= i < exprs.len() {
        let (r, s1, k1) = eval_spec(exprs[i], s, t, k, fuel);
        lemma_eval_keeps_outer(exprs[i], s, t, k, fuel);
        if let Ok(v) = r {
            lemma_begin_keeps_outer(exprs, i + 1, v, s1, t, k1, fuel);
        }
    }
}

proof fn lemma_define_keeps_outer(rest: Seq<Datum>, s: Scope, t: Seq<Reply>, k: int, fuel: nat)
    requires
        s.len() > 0,
    ensures
        keeps_outer(s, define_spec(rest, s, t, k, fuel).1),
    decreases fuel, 3nat, 0nat,
{
    if rest.len() == 2 {
        let (r, s1, k1) = eval_spec(rest[1], s, t, k, fuel);
        lemma_eval_keeps_outer(rest[1], s, t, k, fuel);
        if let Ok(v) = r {
            if let Datum::Symbol(name) = rest[0] {
                lemma_update_last_keeps_outer(s1, s1.last().insert(name, v));
            }
        }
    } else if rest.len() == 1 && rest[0] is Symbol {
        lemma_update_last_keeps_outer(s, s.last().insert(rest[0]->Symbol_0, Datum::Bool(true)));
    }
}

pub proof fn lemma_bindings_keeps_outer(bs: Seq<Datum>, i: int, restricted: bool, s: Scope, t: Seq<Reply>, k: int, fuel: nat)
    requires
        s.len() > 0,
    ensures
        keeps_outer(s, bindings_spec(bs, i, restricted, s, t, k, fuel).1),
    decreases fuel, 2nat, bs.len() - i,
{
    if 0 <= i < bs.len() && binding_shape(bs[i], restricted) {
        let pair = bs[i]->List_0;
        let (r, s1, k1) = eval_spec(binding_expr(pair), s, t, k, fuel);
        lemma_eval_keeps_outer(binding_expr(pair), s, t, k, fuel);
        if let Ok(v) = r {
            if pair[0] is Symbol {
                lemma_bindings_keeps_outer(bs, i + 1, restricted, s1, t, k1, fuel);
            }
        }
    }
}

proof fn lemma_let_keeps_outer(rest: Seq<Datum>, restricted: bool, s: Scope, t: Seq<Reply>, k: int, fuel: nat)
    requires
        s.len() > 0,
    ensures
        keeps_outer(s, let_spec(rest, restricted, s, t, k, fuel).1),
    decreases fuel, 3nat, 0nat,
{
    if rest.len() == 2 && rest[0] is List {
        let (r, s1, k1) = bindings_spec(rest[0]->List_0, 0, restricted, s, t, k, fuel);
        lemma_bindings_keeps_outer(rest[0]->List_0, 0, restricted, s, t, k, fuel);
        if let Ok((ns, vs)) = r {
            if !restricted {
                let f = frame_of_pairs(ns, vs, ns.len() as int);
                lemma_eval_keeps_outer(rest[1], s1.push(f), t, k1, fuel);
                lemma_push_drop(s1, f, eval_spec(rest[1], s1.push(f), t, k1, fuel).1);
            }
        }
    }
}

proof fn lemma_each_keeps_outer(exprs: Seq<Datum>, i: int, s: Scope, t: Seq<Reply>, k: int, fuel: nat)
    requires
        s.len() > 0,
    ensures
        keeps_outer(s, each_spec(exprs, i, s, t, k, fuel).1),
    decreases fuel, 2nat, exprs.len() - i,
{
    if 0 <= i < exprs.len() {
        let (r, s1, k1) = eval_spec(exprs[i], s, t, k, fuel);
        lemma_eval_keeps_outer(exprs[i], s, t, k, fuel);
        if r is Ok {
            lemma_each_keeps_outer(exprs, i + 1, s1, t, k1, fuel);
        }
    }
}

proof fn lemma_call_keeps_outer(head: Seq<char>, args: Seq<Datum>, s: Scope, t: Seq<Reply>, k: int, fuel: nat)
    requires
        s.len() > 0,
    ensures
        keeps_outer(s, call_spec(head, args, s, t, k, fuel).1),
    decreases fuel, 3nat, 0nat,
{
    if let Some(f) = crate::environment::resolve(s, head) {
        let (r, s1, k1) = each_spec(args, 0, s, t, k, fuel);
        lemma_each_keeps_outer(args, 0, s, t, k, fuel);
        if let Ok(vals) = r {
            lemma_apply_keeps_outer(f, vals, s1, t, k1, fuel);
        }
    }
}

/// Applying a function value changes at most the innermost frame of the scope.
pub proof fn lemma_apply_keeps_outer(f: Datum, args: Seq<Datum>, s: Scope, t: Seq<Reply>, k: int, fuel: nat)
    requires
        s.len() > 0,
    ensures
        keeps_outer(s, apply_spec(f, args, s, t, k, fuel).1),
    decreases fuel, 1nat, 0nat,
{
    match f {
        Datum::Function(b) => {
            if crate::builtins::is_higher_order(b) && fuel > 0 {
                lemma_higher_keeps_outer(b, args, s, t, k, (fuel - 1) as nat);
            }
        },
        Datum::List(parts) => {
            if is_closure(parts) {
                let params = parts[1]->List_0;
                if params.len() == args.len() && crate::semantics::all_symbols(params) {
                    let fr = call_frame(params, args);
                    lemma_eval_keeps_outer(parts[2], s.push(fr), t, k, fuel);
                    lemma_push_drop(s, fr, eval_spec(parts[2], s.push(fr), t, k, fuel).1);
                }
            }
        },
        _ => {},
    }
}

proof fn lemma_higher_keeps_outer(b: Builtin, args: Seq<Datum>, s: Scope, t: Seq<Reply>, k: int, fuel: nat)
    requires
        s.len() > 0,
    ensures
        keeps_outer(s, higher_spec(b, args, s, t, k, fuel).1),
    decreases fuel, 3nat, 0nat,
{
    if b == Builtin::MapItems && args.len() == 2 && args[1] is List {
        lemma_map_keeps_outer(args[0], args[1]->List_0, Seq::empty(), 0, s, t, k, fuel);
    } else if b == Builtin::MapItems && args.len() == 3 && args[1] is List && args[2] is List {
        lemma_map_keeps_outer(args[0], args[1]->List_0, args[2]->List_0, 0, s, t, k, fuel);
    } else if b == Builtin::FilterItems && args.len() == 2 && args[1] is List {
        lemma_filter_keeps_outer(args[0], args[1]->List_0, 0, s, t, k, fuel);
    } else if b == Builtin::FoldItems && args.len() == 3 && args[2] is List {
        lemma_fold_keeps_outer(args[0], args[1], args[2]->List_0, 0, s, t, k, fuel);
    }
}

proof fn lemma_map_keeps_outer(f: Datum, items: Seq<Datum>, extra: Seq<Datum>, i: int, s: Scope, t: Seq<Reply>, k: int, fuel: nat)
    requires
        s.len() > 0,
    ensures
        keeps_outer(s, map_spec(f, items, extra, i, s, t, k, fuel).1),
    decreases fuel, 2nat, items.len() - i,
{
    if 0 <= i < items.len() {
        let (r, s1, k1) = apply_spec(f, seq![items[i]] + extra, s, t, k, fuel);
        lemma_apply_keeps_outer(f, seq![items[i]] + extra, s, t, k, fuel);
        if r is Ok {
            lemma_map_keeps_outer(f, items, extra, i + 1, s1, t, k1, fuel);
        }
    }
}

proof fn lemma_filter_keeps_outer(f: Datum, items: Seq<Datum>, i: int, s: Scope, t: Seq<Reply>, k: int, fuel: nat)
    requires
        s.len() > 0,
    ensures
        keeps_outer(s, filter_spec(f, items, i, s, t, k, fuel).1),
    decreases fuel, 2nat, items.len() - i,
{
    if 0 <= i < items.len() {
        let (r, s1, k1) = apply_spec(f, seq![items[i]], s, t, k, fuel);
        lemma_apply_keeps_outer(f, seq![items[i]], s, t, k, fuel);
        if r is Ok {
            lemma_filter_keeps_outer(f, items, i + 1, s1, t, k1, fuel);
        }
    }
}

proof fn lemma_fold_keeps_outer(f: Datum, acc: Datum, items: Seq<Datum>, i: int, s: Scope, t: Seq<Reply>, k: int, fuel: nat)
    requires
        s.len() > 0,
    ensures
        keeps_outer(s, fold_spec(f, acc, items, i, s, t, k, fuel).1),
    decreases fuel, 2nat, items.len() - i,
{
    if 0 <= i < items.len() {
        let (r, s1, k1) = apply_spec(f, seq![acc, items[i]], s, t, k, fuel);
        lemma_apply_keeps_outer(f, seq![acc, items[i]], s, t, k, fuel);
        if let Ok(v) = r {
            lemma_fold_keeps_outer(f, v, items, i + 1, s1, t, k1, fuel);
        }
    }
}

} // verus!
