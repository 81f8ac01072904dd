use crate::builtins::{allows_reply, is_higher_order, is_worldly_call, native_spec};
use crate::environment::{bind, resolve, unbind, Frame, Scope};
use crate::node::{nil, Builtin, Datum};
use vstd::prelude::*;

verus! {

/// The model of an evaluation error.
pub enum Fault {
    UndefinedVariable(Seq<char>),
    UndefinedFunction(Seq<char>),
    NotCallable,
    InvalidExpression,
    ArityMismatch { expected: nat, got: nat },
    InvalidArguments(Seq<char>),
    InvalidClause,
    NonBooleanCondition,
    NoTrueCondition,
    /// An error of one of the library's own native operations, with the
    /// message it gave; when it comes is fixed by that operation's contract.
    Native(Seq<char>),
    /// An error of the outside world, with its message.
    External(Seq<char>),
    DepthExceeded,
    /// The replies of the outside world ran out, or the next one is not a
    /// reply that the question could get.
    NoReply,
}

/// What the outside world answered one question with: a value, or an
/// error message.
pub type Reply = Result<Datum, Seq<char>>;

/// The outcome of taking reply `k`, when `fits` says it is one that the
/// question could get: its value, or its message as an outside error.
pub open spec fn answered(fits: bool, s: Scope, t: Seq<Reply>, k: int) -> Outcome {
    if fits && 0 <= k < t.len() {
        match t[k] {
            Ok(v) => (Ok(v), s, k + 1),
            Err(m) => (Err(Fault::External(m)), s, k + 1),
        }
    } else {
        (Err(Fault::NoReply), s, k)
    }
}

/// The outcome of a native operation of the library that failed: its
/// message, which the model does not fix, is kept with the replies as entry
/// `k`, and it is passed on unchanged.
pub open spec fn native_failure(s: Scope, t: Seq<Reply>, k: int) -> Outcome {
    if 0 <= k < t.len() && t[k] is Err {
        (Err(Fault::Native(t[k]->Err_0)), s, k + 1)
    } else {
        (Err(Fault::NoReply), s, k)
    }
}

/// Whether reply `k` can be a clock's answer to `time-ms`: a number of
/// milliseconds, not negative.
pub open spec fn clock_allows(t: Seq<Reply>, k: int) -> bool {
    0 <= k < t.len() && (t[k] matches Ok(Datum::Number(n)) && n >= 0)
}

/// The model of one evaluation step, given the replies `t` of the outside
/// world (the clock, random sources, the embedding program; also the messages
/// of failing native operations) of which those from index `k` on are still
/// unread: the value or fault, the scope after
/// it, and the index of the first reply left unread.
pub type Outcome = (Result<Datum, Fault>, Scope, int);

/// Like `Outcome`, for the evaluation of several expressions in turn.
pub type Outcomes = (Result<Seq<Datum>, Fault>, Scope, int);

/// The name a value's variant answers to `type?`.
pub open spec fn variant_name(d: Datum) -> Seq<char> {
    match d {
        Datum::Number(_) => "number"@,
        Datum::Text(_) => "text"@,
        Datum::Float(_) => "float"@,
        Datum::Bool(_) => "bool"@,
        Datum::Function(_) => "function"@,
        Datum::Regex(_) => "regex"@,
        Datum::Time(_, _) => "time"@,
        Datum::Symbol(_) => "symbol"@,
        Datum::List(_) => "list"@,
    }
}

/// The value of a `lambda` form: a closure-shaped list.
pub open spec fn closure(params: Datum, body: Datum) -> Datum {
    Datum::List(seq![Datum::Symbol("lambda"@), params, body])
}

/// Whether a list has the shape `(lambda (params...) body)`.
pub open spec fn is_closure(parts: Seq<Datum>) -> bool {
    parts.len() == 3 && parts[0] == Datum::Symbol("lambda"@) && parts[1] is List
}

/// Whether every element is a symbol.
pub open spec fn all_symbols(ps: Seq<Datum>) -> bool {
    forall|i: int| 0 <= i < ps.len() ==> #[trigger] ps[i] is Symbol
}

/// The frame binding the first `n` names to the first `n` values, in order.
pub open spec fn frame_of_pairs(names: Seq<Seq<char>>, vals: Seq<Datum>, n: int) -> Frame
    decreases n,
{
    if n <= 0 {
        Map::empty()
    } else {
        frame_of_pairs(names, vals, n - 1).insert(names[n - 1], vals[n - 1])
    }
}

/// The names of a sequence of symbols.
pub open spec fn names_of(ps: Seq<Datum>) -> Seq<Seq<char>> {
    ps.map_values(|p: Datum| p->Symbol_0)
}

/// The frame of a closure call: each parameter bound to its argument.
pub open spec fn call_frame(params: Seq<Datum>, args: Seq<Datum>) -> Frame {
    frame_of_pairs(names_of(params), args, params.len() as int)
}

/// Evaluation of `d` in scope `s`, with `fuel` levels of nesting left.
pub open spec fn eval_spec(d: Datum, s: Scope, t: Seq<Reply>, k: int, fuel: nat) -> Outcome
    decreases fuel, 0nat, 0nat,
{
    if fuel == 0 {
        (Err(Fault::DepthExceeded), s, k)
    } else {
        match d {
            Datum::Symbol(name) => match resolve(s, name) {
                Some(v) => (Ok(v), s, k),
                None => (Err(Fault::UndefinedVariable(name)), s, k),
            },
            Datum::List(items) => form_spec(items, s, t, k, (fuel - 1) as nat),
            _ => (Ok(d), s, k),
        }
    }
}

/// Evaluation of a non-empty or empty list form.
pub open spec fn form_spec(items: Seq<Datum>, s: Scope, t: Seq<Reply>, k: int, fuel: nat) -> Outcome
    decreases fuel, 4nat, 0nat,
{
    if items.len() == 0 {
        (Ok(nil()), s, k)
    } else {
        match items[0] {
            Datum::Symbol(head) => {
                let rest = items.drop_first();
                if head == "quote"@ {
                    if rest.len() == 1 {
                        (Ok(rest[0]), s, k)
                    } else {
                        (Err(Fault::InvalidArguments(head)), s, k)
                    }
                } else if head == "if"@ {
                    if_spec(rest, s, t, k, fuel)
                } else if head == "cond"@ {
                    cond_spec(rest, 0, s, t, k, fuel)
                } else if head == "begin"@ {
                    begin_spec(rest, 0, nil(), s, t, k, fuel)
                } else if head == "define"@ {
                    define_spec(rest, s, t, k, fuel)
                } else if head == "undefine"@ {
                    if rest.len() == 1 && rest[0] is Symbol {
                        (Ok(Datum::Bool(true)), unbind(s, rest[0]->Symbol_0), k)
                    } else {
                        (Err(Fault::InvalidArguments(head)), s, k)
                    }
                } else if head == "defined?"@ {
                    if rest.len() == 1 {
                        (
                            Ok(
                                Datum::Bool(
                                    rest[0] is Symbol && resolve(s, rest[0]->Symbol_0) is Some,
                                ),
                            ),
                            s,
                            k,
                        )
                    } else {
                        (Err(Fault::InvalidArguments(head)), s, k)
                    }
                } else if head == "type?"@ {
                    if rest.len() == 1 {
                        let (r, s1, k1) = eval_spec(rest[0], s, t, k, fuel);
                        match r {
                            Ok(v) => (Ok(Datum::Text(variant_name(v))), s1, k1),
                            Err(e) => (Err(e), s1, k1),
                        }
                    } else {
                        (Err(Fault::InvalidArguments(head)), s, k)
                    }
                } else if head == "lambda"@ {
                    if rest.len() == 2 {
                        (Ok(closure(rest[0], rest[1])), s, k)
                    } else {
                        (Err(Fault::ArityMismatch { expected: 2, got: rest.len() }), s, k)
                    }
                } else if head == "let"@ {
                    let_spec(rest, false, s, t, k, fuel)
                } else if head == "let-restricted"@ {
                    let_spec(rest, true, s, t, k, fuel)
                } else if head == "time-ms"@ {
                    time_ms_spec(rest, s, t, k, fuel)
                } else if head == "eval"@ {
                    eval_form_spec(rest, s, t, k, fuel)
                } else if head == "pipe"@ || head == "|"@ {
                    pipe_spec(rest, s, t, k, fuel)
                } else {
                    call_spec(head, rest, s, t, k, fuel)
                }
            },
            _ => (Err(Fault::InvalidExpression), s, k),
        }
    }
}

/// `(time-ms expr)`: evaluates `expr` for its effects, then gives the
/// milliseconds it took, as the clock answers: the next reply, a number that
/// is not negative.
pub open spec fn time_ms_spec(rest: Seq<Datum>, s: Scope, t: Seq<Reply>, k: int, fuel: nat) -> Outcome
    decreases fuel, 3nat, 0nat,
{
    if rest.len() == 1 {
        let (r, s1, k1) = eval_spec(rest[0], s, t, k, fuel);
        match r {
            Ok(v) => answered(clock_allows(t, k1), s1, t, k1),
            Err(e) => (Err(e), s1, k1),
        }
    } else {
        (Err(Fault::InvalidArguments("time-ms"@)), s, k)
    }
}

/// `(pipe expr (f args...) ...)`: the value of `expr` passed as the last
/// argument to the first call, its value to the next, and so on.
pub open spec fn pipe_spec(rest: Seq<Datum>, s: Scope, t: Seq<Reply>, k: int, fuel: nat) -> Outcome
    decreases fuel, 3nat, rest.len() + 1,
{
    if rest.len() == 0 {
        (Err(Fault::InvalidArguments("pipe"@)), s, k)
    } else {
        let (r, s1, k1) = eval_spec(rest[0], s, t, k, fuel);
        match r {
            Err(e) => (Err(e), s1, k1),
            Ok(v) => {
                let (r2, s2, k2) = stages_spec(rest, 1, v, s1, t, k1, fuel);
                (r2, s2, k2)
            },
        }
    }
}

/// The calls of a `pipe` from index `i` on, `cur` being the value so far.
pub open spec fn stages_spec(rest: Seq<Datum>, i: int, cur: Datum, s: Scope, t: Seq<Reply>, k: int, fuel: nat) -> Outcome
    decreases fuel, 3nat, rest.len() - i,
{
    if i < 1 || i >= rest.len() {
        (Ok(cur), s, k)
    } else {
        match rest[i] {
            Datum::List(call) => if call.len() > 0 {
                let (rf, s1, k1) = eval_spec(call[0], s, t, k, fuel);
                match rf {
                    Err(e) => (Err(e), s1, k1),
                    Ok(f) => {
                        let (ra, s2, k2) = each_spec(call, 1, s1, t, k1, fuel);
                        match ra {
                            Err(e) => (Err(e), s2, k2),
                            Ok(args) => {
                                let (rv, s3, k3) = apply_spec(f, args.push(cur), s2, t, k2, fuel);
                                match rv {
                                    Err(e) => (Err(e), s3, k3),
                                    Ok(v) => {
                                        let (r4, s4, k4) = stages_spec(rest, i + 1, v, s3, t, k3, fuel);
                                        (r4, s4, k4)
                                    },
                                }
                            },
                        }
                    },
                }
            } else {
                (Err(Fault::InvalidArguments("pipe"@)), s, k)
            },
            _ => (Err(Fault::InvalidArguments("pipe"@)), s, k),
        }
    }
}

/// `(eval list)`: evaluates the argument, which must give a list, then each
/// element of that list in turn; gives the list itself.
pub open spec fn eval_form_spec(rest: Seq<Datum>, s: Scope, t: Seq<Reply>, k: int, fuel: nat) -> Outcome
    decreases fuel, 3nat, 0nat,
{
    let (r, s1, k1) = each_spec(rest, 0, s, t, k, fuel);
    match r {
        Err(e) => (Err(e), s1, k1),
        Ok(vals) => if vals.len() == 1 && vals[0] is List {
            let (r2, s2, k2) = each_spec(vals[0]->List_0, 0, s1, t, k1, fuel);
            match r2 {
                Err(e) => (Err(e), s2, k2),
                Ok(_) => (Ok(vals[0]), s2, k2),
            }
        } else {
            (Err(Fault::InvalidArguments("eval"@)), s1, k1)
        },
    }
}

/// `(if test then)` and `(if test then else)`.
pub open spec fn if_spec(rest: Seq<Datum>, s: Scope, t: Seq<Reply>, k: int, fuel: nat) -> Outcome
    decreases fuel, 3nat, 0nat,
{
    if rest.len() == 2 || rest.len() == 3 {
        let (r, s1, k1) = eval_spec(rest[0], s, t, k, fuel);
        match r {
            Ok(Datum::Bool(true)) => {
                let (r2, s2, k2) = eval_spec(rest[1], s1, t, k1, fuel);
                (r2, s2, k2)
            },
            Ok(Datum::Bool(false)) => if rest.len() == 3 {
                let (r2, s2, k2) = eval_spec(rest[2], s1, t, k1, fuel);
                (r2, s2, k2)
            } else {
                (Ok(nil()), s1, k1)
            },
            Ok(_) => (Err(Fault::NonBooleanCondition), s1, k1),
            Err(e) => (Err(e), s1, k1),
        }
    } else {
        (Err(Fault::InvalidArguments("if"@)), s, k)
    }
}

/// The clauses of a `cond` from index `i` on.
pub open spec fn cond_spec(clauses: Seq<Datum>, i: int, s: Scope, t: Seq<Reply>, k: int, fuel: nat) -> Outcome
    decreases fuel, 2nat, clauses.len() - i,
{
    if i < 0 || i >= clauses.len() {
        (Err(Fault::NoTrueCondition), s, k)
    } else {
        match clauses[i] {
            Datum::List(pair) => if pair.len() == 2 {
                let (r, s1, k1) = eval_spec(pair[0], s, t, k, fuel);
                match r {
                    Ok(Datum::Bool(true)) => {
                        let (r2, s2, k2) = eval_spec(pair[1], s1, t, k1, fuel);
                        (r2, s2, k2)
                    },
                    Ok(_) => {
                        let (r2, s2, k2) = cond_spec(clauses, i + 1, s1, t, k1, fuel);
                        (r2, s2, k2)
                    },
                    Err(e) => (Err(e), s1, k1),
                }
            } else {
                (Err(Fault::InvalidClause), s, k)
            },
            _ => (Err(Fault::InvalidClause), s, k),
        }
    }
}

/// The expressions of a `begin` from index `i` on; `last` is the value of the one before.
pub open spec fn begin_spec(exprs: Seq<Datum>, i: int, last: Datum, s: Scope, t: Seq<Reply>, k: int, fuel: nat) -> Outcome
    decreases fuel, 2nat, exprs.len() - i,
{
    if i < 0 || i >= exprs.len() {
        (Ok(last), s, k)
    } else {
        let (r, s1, k1) = eval_spec(exprs[i], s, t, k, fuel);
        match r {
            Ok(v) => {
                let (r2, s2, k2) = begin_spec(exprs, i + 1, v, s1, t, k1, fuel);
                (r2, s2, k2)
            },
            Err(e) => (Err(e), s1, k1),
        }
    }
}

/// `(define name value)` and `(define name)`.
pub open spec fn define_spec(rest: Seq<Datum>, s: Scope, t: Seq<Reply>, k: int, fuel: nat) -> Outcome
    decreases fuel, 3nat, 0nat,
{
    if rest.len() == 2 {
        let (r, s1, k1) = eval_spec(rest[1], s, t, k, fuel);
        match r {
            Ok(v) => match rest[0] {
                Datum::Symbol(name) => (Ok(v), bind(s1, name, v), k1),
                _ => (Err(Fault::InvalidArguments("define"@)), s1, k1),
            },
            Err(e) => (Err(e), s1, k1),
        }
    } else if rest.len() == 1 && rest[0] is Symbol {
        (Ok(Datum::Bool(true)), bind(s, rest[0]->Symbol_0, Datum::Bool(true)), k)
    } else {
        (Err(Fault::InvalidArguments("define"@)), s, k)
    }
}

/// The expression a binding evaluates: the second element of a pair, or,
/// in a restricted `let`, the name itself when it stands alone.
pub open spec fn binding_expr(pair: Seq<Datum>) -> Datum {
    if pair.len() == 2 {
        pair[1]
    } else {
        pair[0]
    }
}

/// Whether a binding has an accepted shape.
pub open spec fn binding_shape(b: Datum, restricted: bool) -> bool {
    b matches Datum::List(pair) && (pair.len() == 2 || (restricted && pair.len() == 1))
}

/// The bindings of a `let` from index `i` on, each evaluated in the outer scope,
/// giving the names and the values in order.
pub open spec fn bindings_spec(bs: Seq<Datum>, i: int, restricted: bool, s: Scope, t: Seq<Reply>, k: int, fuel: nat) -> (
    Result<(Seq<Seq<char>>, Seq<Datum>), Fault>,
    Scope,
    int,
)
    decreases fuel, 2nat, bs.len() - i,
{
    if i < 0 || i >= bs.len() {
        (Ok((Seq::empty(), Seq::empty())), s, k)
    } else if !binding_shape(bs[i], restricted) {
        (Err(Fault::InvalidClause), s, k)
    } else {
        let pair = bs[i]->List_0;
        let (r, s1, k1) = eval_spec(binding_expr(pair), s, t, k, fuel);
        match r {
            Err(e) => (Err(e), s1, k1),
            Ok(v) => match pair[0] {
                Datum::Symbol(name) => {
                    let (r2, s2, k2) = bindings_spec(bs, i + 1, restricted, s1, t, k1, fuel);
                    match r2 {
                        Ok((ns, vs)) => (Ok((seq![name] + ns, seq![v] + vs)), s2, k2),
                        Err(e) => (Err(e), s2, k2),
                    }
                },
                _ => (Err(Fault::InvalidArguments("let"@)), s1, k1),
            },
        }
    }
}

/// `(let bindings body)` and `(let-restricted bindings body)`.
pub open spec fn let_spec(rest: Seq<Datum>, restricted: bool, s: Scope, t: Seq<Reply>, k: int, fuel: nat) -> Outcome
    decreases fuel, 3nat, 0nat,
{
    if rest.len() == 2 && rest[0] is List {
        let (r, s1, k1) = bindings_spec(rest[0]->List_0, 0, restricted, s, t, k, fuel);
        match r {
            Err(e) => (Err(e), s1, k1),
            Ok((ns, vs)) => {
                let frame = frame_of_pairs(ns, vs, ns.len() as int);
                if restricted {
                    let (r2, s2, k2) = eval_spec(rest[1], seq![frame], t, k1, fuel);
                    (r2, s1, k2)
                } else {
                    let (r2, s2, k2) = eval_spec(rest[1], s1.push(frame), t, k1, fuel);
                    (r2, s2.drop_last(), k2)
                }
            },
        }
    } else {
        (Err(Fault::InvalidArguments(if restricted { "let-restricted"@ } else { "let"@ })), s, k)
    }
}

/// The expressions from index `i` on, evaluated in turn.
pub open spec fn each_spec(exprs: Seq<Datum>, i: int, s: Scope, t: Seq<Reply>, k: int, fuel: nat) -> Outcomes
    decreases fuel, 2nat, exprs.len() - i,
{
    if i < 0 || i >= exprs.len() {
        (Ok(Seq::empty()), s, k)
    } else {
        let (r, s1, k1) = eval_spec(exprs[i], s, t, k, fuel);
        match r {
            Err(e) => (Err(e), s1, k1),
            Ok(v) => {
                let (r2, s2, k2) = each_spec(exprs, i + 1, s1, t, k1, fuel);
                match r2 {
                    Ok(vs) => (Ok(seq![v] + vs), s2, k2),
                    Err(e) => (Err(e), s2, k2),
                }
            },
        }
    }
}

/// A call `(head args...)` of whatever `head` names.
pub open spec fn call_spec(head: Seq<char>, args: Seq<Datum>, s: Scope, t: Seq<Reply>, k: int, fuel: nat) -> Outcome
    decreases fuel, 3nat, 0nat,
{
    match resolve(s, head) {
        None => (Err(Fault::UndefinedFunction(head)), s, k),
        Some(f) => {
            let (r, s1, k1) = each_spec(args, 0, s, t, k, fuel);
            match r {
                Err(e) => (Err(e), s1, k1),
                Ok(vals) => {
                    let (r2, s2, k2) = apply_spec(f, vals, s1, t, k1, fuel);
                    (r2, s2, k2)
                },
            }
        },
    }
}

/// Application of a callable value to evaluated arguments.
pub open spec fn apply_spec(f: Datum, args: Seq<Datum>, s: Scope, t: Seq<Reply>, k: int, fuel: nat) -> Outcome
    decreases fuel, 1nat, 0nat,
{
    match f {
        Datum::Function(b) => if is_higher_order(b) {
            if fuel == 0 {
                (Err(Fault::DepthExceeded), s, k)
            } else {
                higher_spec(b, args, s, t, k, (fuel - 1) as nat)
            }
        } else if is_worldly_call(b, args) {
            answered(k < t.len() && allows_reply(b, args, t[k]), s, t, k)
        } else {
            match native_spec(b, args) {
                Some(v) => (Ok(v), s, k),
                None => native_failure(s, t, k),
            }
        },
        Datum::List(parts) => if is_closure(parts) {
            let params = parts[1]->List_0;
            if params.len() != args.len() {
                (Err(Fault::ArityMismatch { expected: params.len(), got: args.len() }), s, k)
            } else if !all_symbols(params) {
                (Err(Fault::InvalidArguments("lambda"@)), s, k)
            } else {
                let (r, s1, k1) = eval_spec(parts[2], s.push(call_frame(params, args)), t, k, fuel);
                (r, s1.drop_last(), k1)
            }
        } else {
            (Err(Fault::NotCallable), s, k)
        },
        _ => (Err(Fault::NotCallable), s, k),
    }
}

/// `map`, `filter` and `fold`, which apply a function value they are given.
pub open spec fn higher_spec(b: Builtin, args: Seq<Datum>, s: Scope, t: Seq<Reply>, k: int, fuel: nat) -> Outcome
    decreases fuel, 3nat, 0nat,
{
    if b == Builtin::MapItems && args.len() == 2 && args[1] is List {
        let (r, s1, k1) = map_spec(args[0], args[1]->List_0, Seq::empty(), 0, s, t, k, fuel);
        (match r { Ok(vs) => Ok(Datum::List(vs)), Err(e) => Err(e) }, s1, k1)
    } else if b == Builtin::MapItems && args.len() == 3 && args[1] is List && args[2] is List {
        let (r, s1, k1) = map_spec(args[0], args[1]->List_0, args[2]->List_0, 0, s, t, k, fuel);
        (match r { Ok(vs) => Ok(Datum::List(vs)), Err(e) => Err(e) }, s1, k1)
    } else if b == Builtin::FilterItems && args.len() == 2 && args[1] is List {
        let (r, s1, k1) = filter_spec(args[0], args[1]->List_0, 0, s, t, k, fuel);
        (match r { Ok(vs) => Ok(Datum::List(vs)), Err(e) => Err(e) }, s1, k1)
    } else if b == Builtin::FoldItems && args.len() == 3 && args[2] is List {
        fold_spec(args[0], args[1], args[2]->List_0, 0, s, t, k, fuel)
    } else {
        (Err(Fault::InvalidArguments(
            if b == Builtin::MapItems { "map"@ } else if b == Builtin::FilterItems { "filter"@ } else { "fold"@ }
        )), s, k)
    }
}

/// `f` applied to each item from index `i` on, followed by the extra arguments.
pub open spec fn map_spec(f: Datum, items: Seq<Datum>, extra: Seq<Datum>, i: int, s: Scope, t: Seq<Reply>, k: int, fuel: nat) -> Outcomes
    decreases fuel, 2nat, items.len() - i,
{
    if i < 0 || i >= items.len() {
        (Ok(Seq::empty()), s, k)
    } else {
        let (r, s1, k1) = apply_spec(f, seq![items[i]] + extra, s, t, k, fuel);
        match r {
            Err(e) => (Err(e), s1, k1),
            Ok(v) => {
                let (r2, s2, k2) = map_spec(f, items, extra, i + 1, s1, t, k1, fuel);
                match r2 {
                    Ok(vs) => (Ok(seq![v] + vs), s2, k2),
                    Err(e) => (Err(e), s2, k2),
                }
            },
        }
    }
}

/// The items from index `i` on for which `f` gives `true`.
pub open spec fn filter_spec(f: Datum, items: Seq<Datum>, i: int, s: Scope, t: Seq<Reply>, k: int, fuel: nat) -> Outcomes
    decreases fuel, 2nat, items.len() - i,
{
    if i < 0 || i >= items.len() {
        (Ok(Seq::empty()), s, k)
    } else {
        let (r, s1, k1) = apply_spec(f, seq![items[i]], s, t, k, fuel);
        match r {
            Err(e) => (Err(e), s1, k1),
            Ok(v) => {
                let (r2, s2, k2) = filter_spec(f, items, i + 1, s1, t, k1, fuel);
                match r2 {
                    Ok(vs) => (
                        Ok(if v == Datum::Bool(true) { seq![items[i]] + vs } else { vs }),
                        s2,
                        k2,
                    ),
                    Err(e) => (Err(e), s2, k2),
                }
            },
        }
    }
}

/// `f` folded over the items from index `i` on, starting from `acc`.
pub open spec fn fold_spec(f: Datum, acc: Datum, items: Seq<Datum>, i: int, s: Scope, t: Seq<Reply>, k: int, fuel: nat) -> Outcome
    decreases fuel, 2nat, items.len() - i,
{
    if i < 0 || i >= items.len() {
        (Ok(acc), s, k)
    } else {
        let (r, s1, k1) = apply_spec(f, seq![acc, items[i]], s, t, k, fuel);
        match r {
            Err(e) => (Err(e), s1, k1),
            Ok(v) => {
                let (r2, s2, k2) = fold_spec(f, v, items, i + 1, s1, t, k1, fuel);
                (r2, s2, k2)
            },
        }
    }
}

} // verus!
