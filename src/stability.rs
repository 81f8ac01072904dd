use crate::environment::{resolve, Scope};
use crate::eval::{extends, replies};
use crate::node::{Builtin, Datum, Node};
use crate::semantics::{
    apply_spec, begin_spec, binding_expr, binding_shape, bindings_spec, call_frame, call_spec,
    cond_spec, define_spec, each_spec, eval_form_spec, eval_spec, filter_spec, fold_spec,
    form_spec, frame_of_pairs, higher_spec, if_spec, is_closure, let_spec, map_spec, pipe_spec,
    stages_spec, time_ms_spec, Fault,
};
use vstd::prelude::*;

verus! {

// Evaluation reads the outside world's replies in order and only as far as
// it needs them: more replies after the ones it read change nothing.

/// Answers of the outside world, as the evaluator keeps them.
pub type Answers = Seq<Result<Node, String>>;

proof fn lemma_reply_kept(a: Answers, b: Answers, k: int)
    requires
        extends(a, b),
        0 <= k < a.len(),
    ensures
        replies(b)[k] == replies(a)[k],
{
    assert(b[k] == a[k]);
}

pub proof fn lemma_eval_stable(d: Datum, s: Scope, a: Answers, b: Answers, k: int, fuel: nat)
    requires
        extends(a, b),
        eval_spec(d, s, replies(a), k, fuel).0 != Err::<Datum, Fault>(Fault::NoReply),
    ensures
        eval_spec(d, s, replies(b), k, fuel) == eval_spec(d, s, replies(a), k, fuel),
    decreases fuel, 0nat, 0nat,
{
    if fuel > 0 {
        if let Datum::List(items) = d {
            lemma_form_stable(items, s, a, b, k, (fuel - 1) as nat);
        }
    }
}

proof fn lemma_form_stable(items: Seq<Datum>, s: Scope, a: Answers, b: Answers, k: int, fuel: nat)
    requires
        extends(a, b),
        form_spec(items, s, replies(a), k, fuel).0 != Err::<Datum, Fault>(Fault::NoReply),
    ensures
        form_spec(items, s, replies(b), k, fuel) == form_spec(items, s, replies(a), k, fuel),
    decreases fuel, 4nat, 0nat,
{
    if items.len() > 0 {
        if let Datum::Symbol(head) = items[0] {
            let rest = items.drop_first();
            if head == "quote"@ {
            } else if head == "if"@ {
                lemma_if_stable(rest, s, a, b, k, fuel);
            } else if head == "cond"@ {
                lemma_cond_stable(rest, 0, s, a, b, k, fuel);
            } else if head == "begin"@ {
                lemma_begin_stable(rest, 0, crate::node::nil(), s, a, b, k, fuel);
            } else if head == "define"@ {
                lemma_define_stable(rest, s, a, b, k, fuel);
            } else if head == "undefine"@ || head == "defined?"@ {
            } else if head == "type?"@ {
                if rest.len() == 1 {
                    lemma_eval_stable(rest[0], s, a, b, k, fuel);
                }
            } else if head == "lambda"@ {
            } else if head == "let"@ {
                lemma_let_stable(rest, false, s, a, b, k, fuel);
            } else if head == "let-restricted"@ {
                lemma_let_stable(rest, true, s, a, b, k, fuel);
            } else if head == "time-ms"@ {
                lemma_time_ms_stable(rest, s, a, b, k, fuel);
            } else if head == "eval"@ {
                lemma_eval_form_stable(rest, s, a, b, k, fuel);
            } else if head == "pipe"@ || head == "|"@ {
                lemma_pipe_stable(rest, s, a, b, k, fuel);
            } else {
                lemma_call_stable(head, rest, s, a, b, k, fuel);
            }
        }
    }
}

proof fn lemma_time_ms_stable(rest: Seq<Datum>, s: Scope, a: Answers, b: Answers, k: int, fuel: nat)
    requires
        extends(a, b),
        time_ms_spec(rest, s, replies(a), k, fuel).0 != Err::<Datum, Fault>(Fault::NoReply),
    ensures
        time_ms_spec(rest, s, replies(b), k, fuel) == time_ms_spec(rest, s, replies(a), k, fuel),
    decreases fuel, 3nat, 0nat,
{
    if rest.len() == 1 {
        lemma_eval_stable(rest[0], s, a, b, k, fuel);
        let (r, s1, k1) = eval_spec(rest[0], s, replies(a), k, fuel);
        if r is Ok && 0 <= k1 < a.len() {
            lemma_reply_kept(a, b, k1);
        }
    }
}

proof fn lemma_eval_form_stable(rest: Seq<Datum>, s: Scope, a: Answers, b: Answers, k: int, fuel: nat)
    requires
        extends(a, b),
        eval_form_spec(rest, s, replies(a), k, fuel).0 != Err::<Datum, Fault>(Fault::NoReply),
    ensures
        eval_form_spec(rest, s, replies(b), k, fuel) == eval_form_spec(rest, s, replies(a), k, fuel),
    decreases fuel, 3nat, 0nat,
{
    lemma_each_stable(rest, 0, s, a, b, k, fuel);
    let (r, s1, k1) = each_spec(rest, 0, s, replies(a), k, fuel);
    if let Ok(vals) = r {
        if vals.len() == 1 && vals[0] is List {
            lemma_each_stable(vals[0]->List_0, 0, s1, a, b, k1, fuel);
        }
    }
}

proof fn lemma_pipe_stable(rest: Seq<Datum>, s: Scope, a: Answers, b: Answers, k: int, fuel: nat)
    requires
        extends(a, b),
        pipe_spec(rest, s, replies(a), k, fuel).0 != Err::<Datum, Fault>(Fault::NoReply),
    ensures
        pipe_spec(rest, s, replies(b), k, fuel) == pipe_spec(rest, s, replies(a), k, fuel),
    decreases fuel, 3nat, rest.len() + 1,
{
    if rest.len() > 0 {
        lemma_eval_stable(rest[0], s, a, b, k, fuel);
        let (r, s1, k1) = eval_spec(rest[0], s, replies(a), k, fuel);
        if let Ok(v) = r {
            lemma_stages_stable(rest, 1, v, s1, a, b, k1, fuel);
        }
    }
}

pub proof fn lemma_stages_stable(rest: Seq<Datum>, i: int, cur: Datum, s: Scope, a: Answers, b: Answers, k: int, fuel: nat)
    requires
        extends(a, b),
        stages_spec(rest, i, cur, s, replies(a), k, fuel).0 != Err::<Datum, Fault>(Fault::NoReply),
    ensures
        stages_spec(rest, i, cur, s, replies(b), k, fuel) == stages_spec(rest, i, cur, s, replies(a), k, fuel),
    decreases fuel, 3nat, rest.len() - i,
{
    if 1 <= i < rest.len() {
        if let Datum::List(call) = rest[i] {
            if call.len() > 0 {
                lemma_eval_stable(call[0], s, a, b, k, fuel);
                let (rf, s1, k1) = eval_spec(call[0], s, replies(a), k, fuel);
                if let Ok(f) = rf {
                    lemma_each_stable(call, 1, s1, a, b, k1, fuel);
                    let (ra, s2, k2) = each_spec(call, 1, s1, replies(a), k1, fuel);
                    if let Ok(args) = ra {
                        lemma_apply_stable(f, args.push(cur), s2, a, b, k2, fuel);
                        let (rv, s3, k3) = apply_spec(f, args.push(cur), s2, replies(a), k2, fuel);
                        if let Ok(v) = rv {
                            lemma_stages_stable(rest, i + 1, v, s3, a, b, k3, fuel);
                        }
                    }
                }
            }
        }
    }
}

pub proof fn lemma_if_stable(rest: Seq<Datum>, s: Scope, a: Answers, b: Answers, k: int, fuel: nat)
    requires
        extends(a, b),
        if_spec(rest, s, replies(a), k, fuel).0 != Err::<Datum, Fault>(Fault::NoReply),
    ensures
        if_spec(rest, s, replies(b), k, fuel) == if_spec(rest, s, replies(a), k, fuel),
    decreases fuel, 3nat, 0nat,
{
    if rest.len() == 2 || rest.len() == 3 {
        lemma_eval_stable(rest[0], s, a, b, k, fuel);
        let (r, s1, k1) = eval_spec(rest[0], s, replies(a), k, fuel);
        if r == Ok::<Datum, Fault>(Datum::Bool(true)) {
            lemma_eval_stable(rest[1], s1, a, b, k1, fuel);
        } else if r == Ok::<Datum, Fault>(Datum::Bool(false)) && rest.len() == 3 {
            lemma_eval_stable(rest[2], s1, a, b, k1, fuel);
        }
    }
}

pub proof fn lemma_cond_stable(clauses: Seq<Datum>, i: int, s: Scope, a: Answers, b: Answers, k: int, fuel: nat)
    requires
        extends(a, b),
        cond_spec(clauses, i, s, replies(a), k, fuel).0 != Err::<Datum, Fault>(Fault::NoReply),
    ensures
        cond_spec(clauses, i, s, replies(b), k, fuel) == cond_spec(clauses, i, s, replies(a), k, fuel),
    decreases fuel, 2nat, clauses.len() - i,
{
    if 0 <= i < clauses.len() {
        if let Datum::List(pair) = clauses[i] {
            if pair.len() == 2 {
                lemma_eval_stable(pair[0], s, a, b, k, fuel);
                let (r, s1, k1) = eval_spec(pair[0], s, replies(a), k, fuel);
                if r == Ok::<Datum, Fault>(Datum::Bool(true)) {
                    lemma_eval_stable(pair[1], s1, a, b, k1, fuel);
                } else if r is Ok {
                    lemma_cond_stable(clauses, i + 1, s1, a, b, k1, fuel);
                }
            }
        }
    }
}

pub proof fn lemma_begin_stable(exprs: Seq<Datum>, i: int, last: Datum, s: Scope, a: Answers, b: Answers, k: int, fuel: nat)
    requires
        extends(a, b),
        begin_spec(exprs, i, last, s, replies(a), k, fuel).0 != Err::<Datum, Fault>(Fault::NoReply),
    ensures
        begin_spec(exprs, i, last, s, replies(b), k, fuel) == begin_spec(exprs, i, last, s, replies(a), k, fuel),
    decreases fuel, 2nat, exprs.len() - i,
{
    if 0 <= i < exprs.len() {
        lemma_eval_stable(exprs[i], s, a, b, k, fuel);
        let (r, s1, k1) = eval_spec(exprs[i], s, replies(a), k, fuel);
        if let Ok(v) = r {
            lemma_begin_stable(exprs, i + 1, v, s1, a, b, k1, fuel);
        }
    }
}

pub proof fn lemma_define_stable(rest: Seq<Datum>, s: Scope, a: Answers, b: Answers, k: int, fuel: nat)
    requires
        extends(a, b),
        define_spec(rest, s, replies(a), k, fuel).0 != Err::<Datum, Fault>(Fault::NoReply),
    ensures
        define_spec(rest, s, replies(b), k, fuel) == define_spec(rest, s, replies(a), k, fuel),
    decreases fuel, 3nat, 0nat,
{
    if rest.len() == 2 {
        lemma_eval_stable(rest[1], s, a, b, k, fuel);
    }
}

pub proof fn lemma_bindings_stable(bs: Seq<Datum>, i: int, restricted: bool, s: Scope, a: Answers, b: Answers, k: int, fuel: nat)
    requires
        extends(a, b),
        !(bindings_spec(bs, i, restricted, s, replies(a), k, fuel).0 matches Err(Fault::NoReply)),
    ensures
        bindings_spec(bs, i, restricted, s, replies(b), k, fuel) == bindings_spec(bs, i, restricted, s, replies(a), k, fuel),
    decreases fuel, 2nat, bs.len() - i,
{
    if 0 <= i < bs.len() && binding_shape(bs[i], restricted) {
        let pair = bs[i]->List_0;
        lemma_eval_stable(binding_expr(pair), s, a, b, k, fuel);
        let (r, s1, k1) = eval_spec(binding_expr(pair), s, replies(a), k, fuel);
        if r is Ok && pair[0] is Symbol {
            lemma_bindings_stable(bs, i + 1, restricted, s1, a, b, k1, fuel);
        }
    }
}

pub proof fn lemma_let_stable(rest: Seq<Datum>, restricted: bool, s: Scope, a: Answers, b: Answers, k: int, fuel: nat)
    requires
        extends(a, b),
        let_spec(rest, restricted, s, replies(a), k, fuel).0 != Err::<Datum, Fault>(Fault::NoReply),
    ensures
        let_spec(rest, restricted, s, replies(b), k, fuel) == let_spec(rest, restricted, s, replies(a), k, fuel),
    decreases fuel, 3nat, 0nat,
{
    if rest.len() == 2 && rest[0] is List {
        lemma_bindings_stable(rest[0]->List_0, 0, restricted, s, a, b, k, fuel);
        let (r, s1, k1) = bindings_spec(rest[0]->List_0, 0, restricted, s, replies(a), k, fuel);
        if let Ok((ns, vs)) = r {
            let f = frame_of_pairs(ns, vs, ns.len() as int);
            if restricted {
                lemma_eval_stable(rest[1], seq![f], a, b, k1, fuel);
            } else {
                lemma_eval_stable(rest[1], s1.push(f), a, b, k1, fuel);
            }
        }
    }
}

pub proof fn lemma_each_stable(exprs: Seq<Datum>, i: int, s: Scope, a: Answers, b: Answers, k: int, fuel: nat)
    requires
        extends(a, b),
        !(each_spec(exprs, i, s, replies(a), k, fuel).0 matches Err(Fault::NoReply)),
    ensures
        each_spec(exprs, i, s, replies(b), k, fuel) == each_spec(exprs, i, s, replies(a), k, fuel),
    decreases fuel, 2nat, exprs.len() - i,
{
    if 0 <= i < exprs.len() {
        lemma_eval_stable(exprs[i], s, a, b, k, fuel);
        let (r, s1, k1) = eval_spec(exprs[i], s, replies(a), k, fuel);
        if r is Ok {
            lemma_each_stable(exprs, i + 1, s1, a, b, k1, fuel);
        }
    }
}

pub proof fn lemma_call_stable(head: Seq<char>, args: Seq<Datum>, s: Scope, a: Answers, b: Answers, k: int, fuel: nat)
    requires
        extends(a, b),
        call_spec(head, args, s, replies(a), k, fuel).0 != Err::<Datum, Fault>(Fault::NoReply),
    ensures
        call_spec(head, args, s, replies(b), k, fuel) == call_spec(head, args, s, replies(a), k, fuel),
    decreases fuel, 3nat, 0nat,
{
    if let Some(f) = resolve(s, head) {
        lemma_each_stable(args, 0, s, a, b, k, fuel);
        let (r, s1, k1) = each_spec(args, 0, s, replies(a), k, fuel);
        if let Ok(vals) = r {
            lemma_apply_stable(f, vals, s1, a, b, k1, fuel);
        }
    }
}

pub proof fn lemma_apply_stable(f: Datum, args: Seq<Datum>, s: Scope, a: Answers, b: Answers, k: int, fuel: nat)
    requires
        extends(a, b),
        apply_spec(f, args, s, replies(a), k, fuel).0 != Err::<Datum, Fault>(Fault::NoReply),
    ensures
        apply_spec(f, args, s, replies(b), k, fuel) == apply_spec(f, args, s, replies(a), k, fuel),
    decreases fuel, 1nat, 0nat,
{
    match f {
        Datum::Function(bi) => {
            if crate::builtins::is_higher_order(bi) {
                if fuel > 0 {
                    lemma_higher_stable(bi, args, s, a, b, k, (fuel - 1) as nat);
                }
            } else if 0 <= k < a.len() {
                lemma_reply_kept(a, b, k);
            }
        },
        Datum::List(parts) => {
            if is_closure(parts) {
                let params = parts[1]->List_0;
                if params.len() == args.len() && crate::semantics::all_symbols(params) {
                    lemma_eval_stable(parts[2], s.push(call_frame(params, args)), a, b, k, fuel);
                }
            }
        },
        _ => {},
    }
}

proof fn lemma_higher_stable(bi: Builtin, args: Seq<Datum>, s: Scope, a: Answers, b: Answers, k: int, fuel: nat)
    requires
        extends(a, b),
        higher_spec(bi, args, s, replies(a), k, fuel).0 != Err::<Datum, Fault>(Fault::NoReply),
    ensures
        higher_spec(bi, args, s, replies(b), k, fuel) == higher_spec(bi, args, s, replies(a), k, fuel),
    decreases fuel, 3nat, 0nat,
{
    if bi == Builtin::MapItems && args.len() == 2 && args[1] is List {
        lemma_map_stable(args[0], args[1]->List_0, Seq::empty(), 0, s, a, b, k, fuel);
    } else if bi == Builtin::MapItems && args.len() == 3 && args[1] is List && args[2] is List {
        lemma_map_stable(args[0], args[1]->List_0, args[2]->List_0, 0, s, a, b, k, fuel);
    } else if bi == Builtin::FilterItems && args.len() == 2 && args[1] is List {
        lemma_filter_stable(args[0], args[1]->List_0, 0, s, a, b, k, fuel);
    } else if bi == Builtin::FoldItems && args.len() == 3 && args[2] is List {
        lemma_fold_stable(args[0], args[1], args[2]->List_0, 0, s, a, b, k, fuel);
    }
}

pub proof fn lemma_map_stable(f: Datum, items: Seq<Datum>, extra: Seq<Datum>, i: int, s: Scope, a: Answers, b: Answers, k: int, fuel: nat)
    requires
        extends(a, b),
        !(map_spec(f, items, extra, i, s, replies(a), k, fuel).0 matches Err(Fault::NoReply)),
    ensures
        map_spec(f, items, extra, i, s, replies(b), k, fuel) == map_spec(f, items, extra, i, s, replies(a), k, fuel),
    decreases fuel, 2nat, items.len() - i,
{
    if 0 <= i < items.len() {
        lemma_apply_stable(f, seq![items[i]] + extra, s, a, b, k, fuel);
        let (r, s1, k1) = apply_spec(f, seq![items[i]] + extra, s, replies(a), k, fuel);
        if r is Ok {
            lemma_map_stable(f, items, extra, i + 1, s1, a, b, k1, fuel);
        }
    }
}

pub proof fn lemma_filter_stable(f: Datum, items: Seq<Datum>, i: int, s: Scope, a: Answers, b: Answers, k: int, fuel: nat)
    requires
        extends(a, b),
        !(filter_spec(f, items, i, s, replies(a), k, fuel).0 matches Err(Fault::NoReply)),
    ensures
        filter_spec(f, items, i, s, replies(b), k, fuel) == filter_spec(f, items, i, s, replies(a), k, fuel),
    decreases fuel, 2nat, items.len() - i,
{
    if 0 <= i < items.len() {
        lemma_apply_stable(f, seq![items[i]], s, a, b, k, fuel);
        let (r, s1, k1) = apply_spec(f, seq![items[i]], s, replies(a), k, fuel);
        if r is Ok {
            lemma_filter_stable(f, items, i + 1, s1, a, b, k1, fuel);
        }
    }
}

pub proof fn lemma_fold_stable(f: Datum, acc: Datum, items: Seq<Datum>, i: int, s: Scope, a: Answers, b: Answers, k: int, fuel: nat)
    requires
        extends(a, b),
        fold_spec(f, acc, items, i, s, replies(a), k, fuel).0 != Err::<Datum, Fault>(Fault::NoReply),
    ensures
        fold_spec(f, acc, items, i, s, replies(b), k, fuel) == fold_spec(f, acc, items, i, s, replies(a), k, fuel),
    decreases fuel, 2nat, items.len() - i,
{
    if 0 <= i < items.len() {
        lemma_apply_stable(f, seq![acc, items[i]], s, a, b, k, fuel);
        let (r, s1, k1) = apply_spec(f, seq![acc, items[i]], s, replies(a), k, fuel);
        if let Ok(v) = r {
            lemma_fold_stable(f, v, items, i + 1, s1, a, b, k1, fuel);
        }
    }
}

} // verus!
