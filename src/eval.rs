use crate::builtins::{
    any_float, call_native, call_worldly, float_op, higher_order, is_higher_order, worldly,
};
use crate::environment::{same_text, Environment};
use crate::host::{NativeHost, NoHost};
use crate::node::{
    copy_result, empty_list, extend_copies, lemma_list_view, list_node, push_copy, push_node,
    reply_of, views, Builtin, Datum, Node,
};
use crate::semantics::{
    all_symbols, apply_spec, begin_spec, bindings_spec, call_frame, call_spec, closure, cond_spec,
    define_spec, each_spec, eval_spec, filter_spec, fold_spec, form_spec, frame_of_pairs,
    higher_spec, if_spec, let_spec, map_spec, names_of, pipe_spec, stages_spec, time_ms_spec,
    variant_name, eval_form_spec, Fault, Reply,
};
use crate::stability::{
    lemma_apply_stable, lemma_bindings_stable, lemma_each_stable, lemma_eval_stable,
};
use vstd::prelude::*;

verus! {

/// An error that ends the evaluation of an expression.
#[derive(Debug, PartialEq, Eq)]
pub enum EvalError {
    UndefinedVariable(String),
    UndefinedFunction(String),
    NotCallable,
    InvalidExpression,
    ArityMismatch { expected: usize, got: usize },
    InvalidArguments(String),
    InvalidClause,
    NonBooleanCondition,
    NoTrueCondition,
    /// An error of one of the library's native operations, with its message.
    Native(String),
    /// An error of the outside world (an operation of the embedding program,
    /// the clock or a random source), with its message.
    External(String),
    DepthExceeded,
}

impl View for EvalError {
    type V = Fault;

    open spec fn view(&self) -> Fault {
        match self {
            EvalError::UndefinedVariable(n) => Fault::UndefinedVariable(n@),
            EvalError::UndefinedFunction(n) => Fault::UndefinedFunction(n@),
            EvalError::NotCallable => Fault::NotCallable,
            EvalError::InvalidExpression => Fault::InvalidExpression,
            EvalError::ArityMismatch { expected, got } => Fault::ArityMismatch {
                expected: *expected as nat,
                got: *got as nat,
            },
            EvalError::InvalidArguments(n) => Fault::InvalidArguments(n@),
            EvalError::InvalidClause => Fault::InvalidClause,
            EvalError::NonBooleanCondition => Fault::NonBooleanCondition,
            EvalError::NoTrueCondition => Fault::NoTrueCondition,
            EvalError::Native(m) => Fault::Native(m@),
            EvalError::External(m) => Fault::External(m@),
            EvalError::DepthExceeded => Fault::DepthExceeded,
        }
    }
}

/// The model of an evaluation result.
pub open spec fn result_view(r: Result<Node, EvalError>) -> Result<Datum, Fault> {
    match r {
        Ok(n) => Ok(n@),
        Err(e) => Err(e@),
    }
}

/// The models of the outside world's answers.
pub open spec fn replies(t: Seq<Result<Node, String>>) -> Seq<Reply> {
    t.map_values(|a: Result<Node, String>| reply_of(a))
}

/// Whether `b` is `a` with more answers after it.
pub open spec fn extends(a: Seq<Result<Node, String>>, b: Seq<Result<Node, String>>) -> bool {
    a.len() <= b.len() && forall|i: int| 0 <= i < a.len() ==> #[trigger] b[i] == a[i]
}

/// Keeps an answer of the outside world in the trace and passes it on.
fn record(answer: Result<Node, String>, trace: &mut Vec<Result<Node, String>>) -> (r: Result<Node, EvalError>)
    ensures
        final(trace)@ == old(trace)@.push(final(trace)@.last()),
        reply_of(final(trace)@.last()) == reply_of(answer),
        answer matches Ok(v) ==> r == Ok::<Node, EvalError>(v),
        answer matches Err(m) ==> r matches Err(EvalError::External(x)) && x@ == m@,
{
    trace.push(copy_result(&answer));
    match answer {
        Ok(v) => Ok(v),
        Err(m) => Err(EvalError::External(m)),
    }
}

/// The texts of a sequence of strings.
pub open spec fn texts(v: Seq<String>) -> Seq<Seq<char>> {
    v.map_values(|s: String| s@)
}

/// Relies on `SystemTime::now` and `SystemTime::duration_since`: the
/// milliseconds since the Unix epoch on the wall clock, or 0 before it.
#[verifier::external_body]
fn wall_clock_ms() -> (r: u64) {
    match std::time::SystemTime::now().duration_since(std::time::UNIX_EPOCH) {
        Ok(d) => d.as_millis() as u64,
        Err(_) => 0,
    }
}

fn invalid(name: &str) -> (e: EvalError)
    ensures
        e@ == Fault::InvalidArguments(name@),
{
    EvalError::InvalidArguments(String::from_str(name))
}

/// Evaluates `node` in `env`, allowing `fuel` levels of nested evaluation.
pub fn evaluate_node<H: NativeHost>(node: &Node, env: &mut Environment, host: &mut H, trace: &mut Vec<Result<Node, String>>, fuel: u64) -> (r: Result<Node, EvalError>)
    requires
        old(env).wf(),
    ensures
        final(env)@.len() == old(env)@.len(),
        extends(old(trace)@, final(trace)@),
        eval_spec(node@, old(env)@, replies(final(trace)@), old(trace)@.len() as int, fuel as nat) == (result_view(r), final(env)@, final(trace)@.len() as int),
    decreases fuel, 0nat, 0nat,
{
    if fuel == 0 {
        return Err(EvalError::DepthExceeded);
    }
    match node {
        Node::Symbol(name) => match env.lookup_name(name.as_str()) {
            Some(v) => Ok(v),
            None => Err(EvalError::UndefinedVariable(name.clone())),
        },
        Node::List(items) => {
            proof {
                lemma_list_view(*items);
            }
            evaluate_form(items.as_slice(), env, host, trace, fuel - 1)
        },
        _ => Ok(node.duplicate()),
    }
}

/// Evaluates a list form: a special form, or a call.
fn evaluate_form<H: NativeHost>(items: &[Node], env: &mut Environment, host: &mut H, trace: &mut Vec<Result<Node, String>>, fuel: u64) -> (r: Result<Node, EvalError>)
    requires
        old(env).wf(),
    ensures
        final(env)@.len() == old(env)@.len(),
        extends(old(trace)@, final(trace)@),
        form_spec(views(items@), old(env)@, replies(final(trace)@), old(trace)@.len() as int, fuel as nat) == (result_view(r), final(env)@, final(trace)@.len() as int),
    decreases fuel, 4nat, 0nat,
{
    if items.len() == 0 {
        return Ok(empty_list());
    }
    let (_, rest) = items.split_at(1);
    proof {
        assert(views(rest@) =~= views(items@).drop_first());
    }
    match &items[0] {
        Node::Symbol(head) => {
            let h = head.as_str();
            if same_text(h, "quote") {
                if rest.len() == 1 {
                    Ok(rest[0].duplicate())
                } else {
                    Err(EvalError::InvalidArguments(head.clone()))
                }
            } else if same_text(h, "if") {
                fn_if(rest, env, host, trace, fuel)
            } else if same_text(h, "cond") {
                fn_cond(rest, 0, env, host, trace, fuel)
            } else if same_text(h, "begin") {
                fn_begin(rest, 0, empty_list(), env, host, trace, fuel)
            } else if same_text(h, "define") {
                fn_def(rest, env, host, trace, fuel)
            } else if same_text(h, "undefine") {
                if rest.len() == 1 {
                    if let Node::Symbol(name) = &rest[0] {
                        env.remove(name.as_str());
                        return Ok(Node::Bool(true));
                    }
                }
                Err(EvalError::InvalidArguments(head.clone()))
            } else if same_text(h, "defined?") {
                if rest.len() == 1 {
                    let found = env.lookup(&rest[0]);
                    Ok(Node::Bool(found.is_some()))
                } else {
                    Err(EvalError::InvalidArguments(head.clone()))
                }
            } else if same_text(h, "type?") {
                if rest.len() == 1 {
                    match evaluate_node(&rest[0], env, host, trace, fuel) {
                        Ok(v) => Ok(Node::Text(variant_text(&v))),
                        Err(e) => Err(e),
                    }
                } else {
                    Err(EvalError::InvalidArguments(head.clone()))
                }
            } else if same_text(h, "lambda") {
                fn_lambda(rest)
            } else if same_text(h, "let") {
                evaluate_let(rest, false, env, host, trace, fuel)
            } else if same_text(h, "let-restricted") {
                evaluate_let(rest, true, env, host, trace, fuel)
            } else if same_text(h, "time-ms") {
                fn_time_ms(rest, env, host, trace, fuel)
            } else if same_text(h, "eval") {
                fn_eval(rest, env, host, trace, fuel)
            } else if same_text(h, "pipe") || same_text(h, "|") {
                fn_pipeline(rest, env, host, trace, fuel)
            } else {
                evaluate_call(head, rest, env, host, trace, fuel)
            }
        },
        _ => Err(EvalError::InvalidExpression),
    }
}

/// The `time-ms` form: evaluates its argument and gives the wall-clock
/// milliseconds that took.
pub fn fn_time_ms<H: NativeHost>(rest: &[Node], env: &mut Environment, host: &mut H, trace: &mut Vec<Result<Node, String>>, fuel: u64) -> (r: Result<Node, EvalError>)
    requires
        old(env).wf(),
    ensures
        final(env)@.len() == old(env)@.len(),
        extends(old(trace)@, final(trace)@),
        time_ms_spec(views(rest@), old(env)@, replies(final(trace)@), old(trace)@.len() as int, fuel as nat) == (result_view(r), final(env)@, final(trace)@.len() as int),
        r is Ok ==> r->Ok_0 is Number,
    decreases fuel, 3nat, 0nat,
{
    if rest.len() == 1 {
        let start = wall_clock_ms();
        let ghost t0 = trace@;
        match evaluate_node(&rest[0], env, host, trace, fuel) {
            Ok(_) => {
                let end = wall_clock_ms();
                let ms = elapsed_ms(start, end);
                let ghost t1 = trace@;
                trace.push(Ok(Node::Number(ms)));
                proof {
                    assert(replies(trace@)[t1.len() as int] == Ok::<Datum, Seq<char>>(Datum::Number(ms)));
                    lemma_eval_stable(rest@[0]@, old(env)@, t1, trace@, t0.len() as int, fuel as nat);
                }
                Ok(Node::Number(ms))
            },
            Err(e) => Err(e),
        }
    } else {
        Err(invalid("time-ms"))
    }
}

/// The milliseconds from one clock reading to a later one: 0 when the clock
/// went back, the largest 64-bit integer when the difference does not fit.
pub fn elapsed_ms(start: u64, end: u64) -> (r: i64)
    ensures
        r == (if end <= start { 0 } else if end - start > i64::MAX { i64::MAX as int } else { end - start }),
        r >= 0,
{
    let spent: u64 = if end >= start { end - start } else { 0 };
    if spent > 0x7FFF_FFFF_FFFF_FFFF {
        0x7FFF_FFFF_FFFF_FFFF
    } else {
        spent as i64
    }
}

/// The `eval` form: `(eval list)` evaluates its argument, which must give a
/// list, then each element of that list in turn, and gives the list.
pub fn fn_eval<H: NativeHost>(rest: &[Node], env: &mut Environment, host: &mut H, trace: &mut Vec<Result<Node, String>>, fuel: u64) -> (r: Result<Node, EvalError>)
    requires
        old(env).wf(),
    ensures
        final(env)@.len() == old(env)@.len(),
        extends(old(trace)@, final(trace)@),
        eval_form_spec(views(rest@), old(env)@, replies(final(trace)@), old(trace)@.len() as int, fuel as nat) == (result_view(r), final(env)@, final(trace)@.len() as int),
    decreases fuel, 3nat, 0nat,
{
    let mut vals: Vec<Node> = Vec::new();
    let ghost t0 = trace@;
    match evaluate_each(rest, 0, env, host, trace, fuel, &mut vals) {
        Err(e) => {
            return Err(e);
        },
        Ok(()) => {},
    }
    let ghost t1 = trace@;
    let ghost s1 = env@;
    proof {
        let sp = each_spec(views(rest@), 0, old(env)@, replies(t1), t0.len() as int, fuel as nat);
        assert(views(vals@) =~= sp.0->Ok_0);
    }
    if vals.len() == 1 {
        if let Node::List(nodes) = &vals[0] {
            proof {
                lemma_list_view(*nodes);
            }
            let mut scratch: Vec<Node> = Vec::new();
            let r = evaluate_each(nodes.as_slice(), 0, env, host, trace, fuel, &mut scratch);
            proof {
                lemma_list_view(*nodes);
                lemma_each_stable(views(rest@), 0, old(env)@, t1, trace@, t0.len() as int, fuel as nat);
            }
            return match r {
                Err(e) => Err(e),
                Ok(()) => Ok(vals[0].duplicate()),
            };
        }
    }
    Err(invalid("eval"))
}

/// The `pipe` form: `(pipe expr (f args...) ...)` passes the value of `expr`
/// as the last argument of the first call, that call's value to the next,
/// and gives the last value.
pub fn fn_pipeline<H: NativeHost>(rest: &[Node], env: &mut Environment, host: &mut H, trace: &mut Vec<Result<Node, String>>, fuel: u64) -> (r: Result<Node, EvalError>)
    requires
        old(env).wf(),
    ensures
        final(env)@.len() == old(env)@.len(),
        extends(old(trace)@, final(trace)@),
        pipe_spec(views(rest@), old(env)@, replies(final(trace)@), old(trace)@.len() as int, fuel as nat) == (result_view(r), final(env)@, final(trace)@.len() as int),
    decreases fuel, 3nat, rest.len() + 1,
{
    if rest.len() == 0 {
        return Err(invalid("pipe"));
    }
    let ghost t0 = trace@;
    let c = evaluate_node(&rest[0], env, host, trace, fuel);
    let ghost t1 = trace@;
    let r = match c {
        Err(e) => Err(e),
        Ok(v) => run_stages(rest, 1, v, env, host, trace, fuel),
    };
    proof {
        lemma_eval_stable(rest@[0]@, old(env)@, t1, trace@, t0.len() as int, fuel as nat);
    }
    r
}

fn run_stages<H: NativeHost>(rest: &[Node], i: usize, cur: Node, env: &mut Environment, host: &mut H, trace: &mut Vec<Result<Node, String>>, fuel: u64) -> (r: Result<Node, EvalError>)
    requires
        old(env).wf(),
        1 <= i <= rest.len(),
    ensures
        final(env)@.len() == old(env)@.len(),
        extends(old(trace)@, final(trace)@),
        stages_spec(views(rest@), i as int, cur@, old(env)@, replies(final(trace)@), old(trace)@.len() as int, fuel as nat) == (result_view(r), final(env)@, final(trace)@.len() as int),
    decreases fuel, 3nat, rest.len() - i,
{
    if i >= rest.len() {
        return Ok(cur);
    }
    if let Node::List(call) = &rest[i] {
        proof {
            lemma_list_view(*call);
        }
        if call.len() > 0 {
            let ghost t0 = trace@;
            let f = match evaluate_node(&call[0], env, host, trace, fuel) {
                Ok(f) => f,
                Err(e) => {
                    return Err(e);
                },
            };
            let ghost t1 = trace@;
            let mut args: Vec<Node> = Vec::new();
            let ghost args0 = args@;
            let ghost s1 = env@;
            let ea = evaluate_each(call.as_slice(), 1, env, host, trace, fuel, &mut args);
            let ghost t2 = trace@;
            proof {
                lemma_list_view(*call);
                lemma_eval_stable(call@[0]@, old(env)@, t1, t2, t0.len() as int, fuel as nat);
            }
            match ea {
                Err(e) => {
                    return Err(e);
                },
                Ok(()) => {},
            }
            let ghost s2 = env@;
            proof {
                assert(views(args0) =~= Seq::<Datum>::empty());
                let sp = each_spec(views(call@), 1, s1, replies(t2), t1.len() as int, fuel as nat);
                if let Ok(vs) = sp.0 {
                    assert(views(args@) =~= vs);
                }
            }
            push_copy(&mut args, &cur);
            let av = apply_function(&f, args.as_slice(), env, host, trace, fuel);
            let ghost t3 = trace@;
            proof {
                lemma_eval_stable(call@[0]@, old(env)@, t2, t3, t0.len() as int, fuel as nat);
                lemma_each_stable(views(call@), 1, s1, t2, t3, t1.len() as int, fuel as nat);
            }
            let v = match av {
                Ok(v) => v,
                Err(e) => {
                    return Err(e);
                },
            };
            let r = run_stages(rest, i + 1, v, env, host, trace, fuel);
            proof {
                lemma_eval_stable(call@[0]@, old(env)@, t3, trace@, t0.len() as int, fuel as nat);
                lemma_each_stable(views(call@), 1, s1, t3, trace@, t1.len() as int, fuel as nat);
                lemma_apply_stable(f@, views(args@), s2, t3, trace@, t2.len() as int, fuel as nat);
            }
            return r;
        }
    }
    Err(invalid("pipe"))
}

/// The name of a value's variant.
pub fn variant_text(v: &Node) -> (r: String)
    ensures
        r@ == variant_name(v@),
{
    match v {
        Node::Number(_) => String::from_str("number"),
        Node::Text(_) => String::from_str("text"),
        Node::Float(_) => String::from_str("float"),
        Node::Bool(_) => String::from_str("bool"),
        Node::Function(_) => String::from_str("function"),
        Node::Regex(_) => String::from_str("regex"),
        Node::Time(_, _) => String::from_str("time"),
        Node::Symbol(_) => String::from_str("symbol"),
        Node::List(_) => String::from_str("list"),
    }
}

/// The `lambda` form: `(lambda params body)` gives a closure-shaped list.
pub fn fn_lambda(rest: &[Node]) -> (r: Result<Node, EvalError>)
    ensures
        rest.len() == 2 ==> result_view(r) == Ok::<Datum, Fault>(closure(rest@[0]@, rest@[1]@)),
        rest.len() != 2 ==> result_view(r) == Err::<Datum, Fault>(
            Fault::ArityMismatch { expected: 2, got: rest.len() as nat },
        ),
{
    if rest.len() == 2 {
        Ok(make_closure(&rest[0], &rest[1]))
    } else {
        Err(EvalError::ArityMismatch { expected: 2, got: rest.len() })
    }
}

/// The closure `(lambda params body)`.
pub fn make_closure(params: &Node, body: &Node) -> (r: Node)
    ensures
        r@ == closure(params@, body@),
{
    let mut parts: Vec<Node> = Vec::new();
    push_node(&mut parts, Node::Symbol(String::from_str("lambda")));
    push_copy(&mut parts, params);
    push_copy(&mut parts, body);
    proof {
        assert(views(parts@) =~= seq![Datum::Symbol("lambda"@), params@, body@]);
    }
    list_node(parts)
}

/// The `if` form: `(if test then)` or `(if test then else)`.
pub fn fn_if<H: NativeHost>(rest: &[Node], env: &mut Environment, host: &mut H, trace: &mut Vec<Result<Node, String>>, fuel: u64) -> (r: Result<Node, EvalError>)
    requires
        old(env).wf(),
    ensures
        final(env)@.len() == old(env)@.len(),
        extends(old(trace)@, final(trace)@),
        if_spec(views(rest@), old(env)@, replies(final(trace)@), old(trace)@.len() as int, fuel as nat) == (result_view(r), final(env)@, final(trace)@.len() as int),
    decreases fuel, 3nat, 0nat,
{
    if rest.len() == 2 || rest.len() == 3 {
        let ghost t0 = trace@;
        let c = evaluate_node(&rest[0], env, host, trace, fuel);
        let ghost t1 = trace@;
        let r = match c {
            Ok(Node::Bool(b)) => {
                if b {
                    evaluate_node(&rest[1], env, host, trace, fuel)
                } else if rest.len() == 3 {
                    evaluate_node(&rest[2], env, host, trace, fuel)
                } else {
                    Ok(empty_list())
                }
            },
            Ok(_) => Err(EvalError::NonBooleanCondition),
            Err(e) => Err(e),
        };
        proof {
            lemma_eval_stable(rest@[0]@, old(env)@, t1, trace@, t0.len() as int, fuel as nat);
        }
        r
    } else {
        Err(invalid("if"))
    }
}

/// The `cond` form, from clause `i` on: the value of the expression of the
/// first clause whose test gives `true`.
pub fn fn_cond<H: NativeHost>(clauses: &[Node], i: usize, env: &mut Environment, host: &mut H, trace: &mut Vec<Result<Node, String>>, fuel: u64) -> (r: Result<Node, EvalError>)
    requires
        old(env).wf(),
        i <= clauses.len(),
    ensures
        final(env)@.len() == old(env)@.len(),
        extends(old(trace)@, final(trace)@),
        cond_spec(views(clauses@), i as int, old(env)@, replies(final(trace)@), old(trace)@.len() as int, fuel as nat) == (result_view(r), final(env)@, final(trace)@.len() as int),
    decreases fuel, 2nat, clauses.len() - i,
{
    if i >= clauses.len() {
        return Err(EvalError::NoTrueCondition);
    }
    if let Node::List(pair) = &clauses[i] {
        proof {
            lemma_list_view(*pair);
        }
        if pair.len() == 2 {
            let ghost t0 = trace@;
            let c = evaluate_node(&pair[0], env, host, trace, fuel);
            let ghost t1 = trace@;
            let r = match c {
                Ok(Node::Bool(b)) => {
                    if b {
                        evaluate_node(&pair[1], env, host, trace, fuel)
                    } else {
                        fn_cond(clauses, i + 1, env, host, trace, fuel)
                    }
                },
                Ok(_) => fn_cond(clauses, i + 1, env, host, trace, fuel),
                Err(e) => Err(e),
            };
            proof {
                lemma_list_view(*pair);
                lemma_eval_stable(pair@[0]@, old(env)@, t1, trace@, t0.len() as int, fuel as nat);
            }
            r
        } else {
            Err(EvalError::InvalidClause)
        }
    } else {
        Err(EvalError::InvalidClause)
    }
}

/// The `begin` form, from expression `i` on: each evaluated in turn, the
/// last value returned; `last` is the value of the one before.
pub fn fn_begin<H: NativeHost>(exprs: &[Node], i: usize, last: Node, env: &mut Environment, host: &mut H, trace: &mut Vec<Result<Node, String>>, fuel: u64) -> (r: Result<Node, EvalError>)
    requires
        old(env).wf(),
        i <= exprs.len(),
    ensures
        final(env)@.len() == old(env)@.len(),
        extends(old(trace)@, final(trace)@),
        begin_spec(views(exprs@), i as int, last@, old(env)@, replies(final(trace)@), old(trace)@.len() as int, fuel as nat) == (result_view(r), final(env)@, final(trace)@.len() as int),
    decreases fuel, 2nat, exprs.len() - i,
{
    if i >= exprs.len() {
        return Ok(last);
    }
    let ghost t0 = trace@;
    let c = evaluate_node(&exprs[i], env, host, trace, fuel);
    let ghost t1 = trace@;
    let r = match c {
        Ok(v) => fn_begin(exprs, i + 1, v, env, host, trace, fuel),
        Err(e) => Err(e),
    };
    proof {
        lemma_eval_stable(exprs@[i as int]@, old(env)@, t1, trace@, t0.len() as int, fuel as nat);
    }
    r
}

/// The `define` form: `(define name value)` or `(define name)`.
pub fn fn_def<H: NativeHost>(rest: &[Node], env: &mut Environment, host: &mut H, trace: &mut Vec<Result<Node, String>>, fuel: u64) -> (r: Result<Node, EvalError>)
    requires
        old(env).wf(),
    ensures
        final(env)@.len() == old(env)@.len(),
        extends(old(trace)@, final(trace)@),
        define_spec(views(rest@), old(env)@, replies(final(trace)@), old(trace)@.len() as int, fuel as nat) == (result_view(r), final(env)@, final(trace)@.len() as int),
    decreases fuel, 3nat, 0nat,
{
    if rest.len() == 2 {
        match evaluate_node(&rest[1], env, host, trace, fuel) {
            Ok(v) => {
                if let Node::Symbol(name) = &rest[0] {
                    env.insert(name.as_str(), v.duplicate());
                    Ok(v)
                } else {
                    Err(invalid("define"))
                }
            },
            Err(e) => Err(e),
        }
    } else if rest.len() == 1 {
        if let Node::Symbol(name) = &rest[0] {
            env.insert(name.as_str(), Node::Bool(true));
            Ok(Node::Bool(true))
        } else {
            Err(invalid("define"))
        }
    } else {
        Err(invalid("define"))
    }
}

/// The names of a list of parameters, when all of them are symbols.
fn symbol_names(params: &[Node]) -> (r: Option<Vec<String>>)
    ensures
        r is Some <==> all_symbols(views(params@)),
        r matches Some(ns) ==> texts(ns@) == names_of(views(params@)),
{
    let mut names: Vec<String> = Vec::new();
    let mut i: usize = 0;
    while i < params.len()
        invariant
            i <= params.len(),
            forall|k: int| 0 <= k < i ==> #[trigger] views(params@)[k] is Symbol,
            texts(names@) =~= names_of(views(params@)).subrange(0, i as int),
        decreases params.len() - i,
    {
        if let Node::Symbol(n) = &params[i] {
            let ghost before = names@;
            names.push(n.clone());
            assert(names_of(views(params@))[i as int] == n@);
            assert(texts(names@) =~= texts(before).push(n@));
            i += 1;
            assert(texts(names@) =~= names_of(views(params@)).subrange(0, i as int));
        } else {
            assert(!(views(params@)[i as int] is Symbol));
            return None;
        }
    }
    assert(names_of(views(params@)).subrange(0, i as int) =~= names_of(views(params@)));
    Some(names)
}

/// Binds each name to its value, in order, in the innermost frame, which must be empty.
fn bind_all(env: &mut Environment, names: &Vec<String>, vals: &[Node])
    requires
        old(env).wf(),
        old(env)@.last() == Map::<Seq<char>, Datum>::empty(),
        names.len() == vals.len(),
    ensures
        final(env)@ == old(env)@.update(
            old(env)@.len() - 1,
            frame_of_pairs(texts(names@), views(vals@), names.len() as int),
        ),
{
    let mut k: usize = 0;
    proof {
        assert(old(env)@.update(old(env)@.len() - 1, frame_of_pairs(texts(names@), views(vals@), 0)) =~= old(env)@);
    }
    while k < names.len()
        invariant
            k <= names.len(),
            names.len() == vals.len(),
            env@.len() == old(env)@.len(),
            env.wf(),
            env@ == old(env)@.update(
                old(env)@.len() - 1,
                frame_of_pairs(texts(names@), views(vals@), k as int),
            ),
        decreases names.len() - k,
    {
        let ghost prev = env@;
        env.insert(names[k].as_str(), vals[k].duplicate());
        k += 1;
        proof {
            assert(texts(names@)[k - 1] == names@[k - 1]@);
            assert(views(vals@)[k - 1] == vals@[k - 1]@);
            assert(prev.last() == frame_of_pairs(texts(names@), views(vals@), k - 1));
            assert(env@ =~= old(env)@.update(
                old(env)@.len() - 1,
                frame_of_pairs(texts(names@), views(vals@), k as int),
            ));
        }
    }
}

fn evaluate_bindings<H: NativeHost>(
    bs: &[Node],
    i: usize,
    restricted: bool,
    env: &mut Environment,
    host: &mut H,
    trace: &mut Vec<Result<Node, String>>,
    fuel: u64,
    names: &mut Vec<String>,
    vals: &mut Vec<Node>,
) -> (r: Result<(), EvalError>)
    requires
        old(env).wf(),
        i <= bs.len(),
        old(names).len() == old(vals).len(),
    ensures
        final(env)@.len() == old(env)@.len(),
        final(names).len() == final(vals).len(),
        extends(old(trace)@, final(trace)@),
        bindings_spec(views(bs@), i as int, restricted, old(env)@, replies(final(trace)@), old(trace)@.len() as int, fuel as nat).1 == final(env)@,
        bindings_spec(views(bs@), i as int, restricted, old(env)@, replies(final(trace)@), old(trace)@.len() as int, fuel as nat).2 == final(trace)@.len() as int,
        match bindings_spec(views(bs@), i as int, restricted, old(env)@, replies(final(trace)@), old(trace)@.len() as int, fuel as nat).0 {
            Ok((ns, vs)) => r is Ok && texts(final(names)@) == texts(old(names)@) + ns && views(
                final(vals)@,
            ) == views(old(vals)@) + vs,
            Err(e) => r matches Err(x) && x@ == e,
        },
    decreases fuel, 2nat, bs.len() - i,
{
    if i >= bs.len() {
        assert(texts(names@) =~= texts(names@) + Seq::<Seq<char>>::empty());
        assert(views(vals@) =~= views(vals@) + Seq::<Datum>::empty());
        return Ok(());
    }
    if let Node::List(pair) = &bs[i] {
        proof {
            lemma_list_view(*pair);
        }
        if pair.len() == 2 || (restricted && pair.len() == 1) {
            let expr = if pair.len() == 2 { &pair[1] } else { &pair[0] };
            let ghost t0 = trace@;
            let c = evaluate_node(expr, env, host, trace, fuel);
            let ghost t1 = trace@;
            let ghost s1 = env@;
            match c {
                Err(e) => Err(e),
                Ok(v) => {
                    if let Node::Symbol(name) = &pair[0] {
                        let ghost names0 = names@;
                        let ghost vals0 = vals@;
                        names.push(name.clone());
                        push_node(vals, v);
                        proof {
                            assert(texts(names@) =~= texts(names0).push(name@));
                            assert(names.len() == vals.len());
                        }
                        let r = evaluate_bindings(bs, i + 1, restricted, env, host, trace, fuel, names, vals);
                        proof {
                            lemma_list_view(*pair);
                            lemma_eval_stable(expr@, old(env)@, t1, trace@, t0.len() as int, fuel as nat);
                            let sp = bindings_spec(views(bs@), i + 1, restricted, s1, replies(trace@), t1.len() as int, fuel as nat);
                            if let Ok((ns, vs)) = sp.0 {
                                assert(texts(names0).push(name@) + ns =~= texts(names0) + (seq![name@] + ns));
                                assert(views(vals0).push(v@) + vs =~= views(vals0) + (seq![v@] + vs));
                            }
                        }
                        r
                    } else {
                        Err(invalid("let"))
                    }
                },
            }
        } else {
            Err(EvalError::InvalidClause)
        }
    } else {
        Err(EvalError::InvalidClause)
    }
}

fn evaluate_let<H: NativeHost>(rest: &[Node], restricted: bool, env: &mut Environment, host: &mut H, trace: &mut Vec<Result<Node, String>>, fuel: u64) -> (r: Result<Node, EvalError>)
    requires
        old(env).wf(),
    ensures
        final(env)@.len() == old(env)@.len(),
        extends(old(trace)@, final(trace)@),
        let_spec(views(rest@), restricted, old(env)@, replies(final(trace)@), old(trace)@.len() as int, fuel as nat) == (result_view(r), final(env)@, final(trace)@.len() as int),
    decreases fuel, 3nat, 0nat,
{
    if rest.len() == 2 {
        if let Node::List(bs) = &rest[0] {
            proof {
                lemma_list_view(*bs);
            }
            let mut names: Vec<String> = Vec::new();
            let mut vals: Vec<Node> = Vec::new();
            let ghost names0 = names@;
            let ghost vals0 = vals@;
            let ghost t0 = trace@;
            match evaluate_bindings(bs.as_slice(), 0, restricted, env, host, trace, fuel, &mut names, &mut vals) {
                Err(e) => {
                    return Err(e);
                },
                Ok(()) => {},
            }
            proof {
                assert(texts(names0) =~= Seq::<Seq<char>>::empty());
                assert(views(vals0) =~= Seq::<Datum>::empty());
                let sp = bindings_spec(views(bs@), 0, restricted, old(env)@, replies(trace@), t0.len() as int, fuel as nat);
                if let Ok((ns, vs)) = sp.0 {
                    assert(texts(names@) =~= ns);
                    assert(views(vals@) =~= vs);
                    assert(ns.len() == names.len());
                }
            }
            let ghost t1 = trace@;
            if restricted {
                let mut inner = Environment::new();
                bind_all(&mut inner, &names, vals.as_slice());
                proof {
                    assert(inner@ =~= seq![frame_of_pairs(texts(names@), views(vals@), names.len() as int)]);
                }
                let r = evaluate_node(&rest[1], &mut inner, host, trace, fuel);
                proof {
                    lemma_bindings_stable(views(bs@), 0, restricted, old(env)@, t1, trace@, t0.len() as int, fuel as nat);
                }
                r
            } else {
                let ghost s1 = env@;
                env.push_frame();
                bind_all(env, &names, vals.as_slice());
                let ghost frame = frame_of_pairs(texts(names@), views(vals@), names.len() as int);
                proof {
                    assert(env@ =~= s1.push(frame));
                }
                let r = evaluate_node(&rest[1], env, host, trace, fuel);
                env.pop_frame();
                proof {
                    lemma_bindings_stable(views(bs@), 0, restricted, old(env)@, t1, trace@, t0.len() as int, fuel as nat);
                }
                r
            }
        } else {
            Err(invalid(if restricted { "let-restricted" } else { "let" }))
        }
    } else {
        Err(invalid(if restricted { "let-restricted" } else { "let" }))
    }
}

/// Evaluates the expressions from index `i` on, appending their values to `out`.
fn evaluate_each<H: NativeHost>(exprs: &[Node], i: usize, env: &mut Environment, host: &mut H, trace: &mut Vec<Result<Node, String>>, fuel: u64, out: &mut Vec<Node>) -> (r: Result<(), EvalError>)
    requires
        old(env).wf(),
        i <= exprs.len(),
    ensures
        final(env)@.len() == old(env)@.len(),
        extends(old(trace)@, final(trace)@),
        each_spec(views(exprs@), i as int, old(env)@, replies(final(trace)@), old(trace)@.len() as int, fuel as nat).1 == final(env)@,
        each_spec(views(exprs@), i as int, old(env)@, replies(final(trace)@), old(trace)@.len() as int, fuel as nat).2 == final(trace)@.len() as int,
        match each_spec(views(exprs@), i as int, old(env)@, replies(final(trace)@), old(trace)@.len() as int, fuel as nat).0 {
            Ok(vs) => r is Ok && views(final(out)@) == views(old(out)@) + vs,
            Err(e) => r matches Err(x) && x@ == e,
        },
    decreases fuel, 2nat, exprs.len() - i,
{
    if i >= exprs.len() {
        assert(views(out@) =~= views(out@) + Seq::<Datum>::empty());
        return Ok(());
    }
    let ghost t0 = trace@;
    let c = evaluate_node(&exprs[i], env, host, trace, fuel);
    let ghost t1 = trace@;
    let ghost s1 = env@;
    match c {
        Err(e) => Err(e),
        Ok(v) => {
            let ghost out0 = out@;
            push_node(out, v);
            let r = evaluate_each(exprs, i + 1, env, host, trace, fuel, out);
            proof {
                lemma_eval_stable(exprs@[i as int]@, old(env)@, t1, trace@, t0.len() as int, fuel as nat);
                let sp = each_spec(views(exprs@), i + 1, s1, replies(trace@), t1.len() as int, fuel as nat);
                if let Ok(vs) = sp.0 {
                    assert(views(out0).push(v@) + vs =~= views(out0) + (seq![v@] + vs));
                }
            }
            r
        },
    }
}

fn evaluate_call<H: NativeHost>(head: &String, rest: &[Node], env: &mut Environment, host: &mut H, trace: &mut Vec<Result<Node, String>>, fuel: u64) -> (r: Result<Node, EvalError>)
    requires
        old(env).wf(),
    ensures
        final(env)@.len() == old(env)@.len(),
        extends(old(trace)@, final(trace)@),
        call_spec(head@, views(rest@), old(env)@, replies(final(trace)@), old(trace)@.len() as int, fuel as nat) == (result_view(r), final(env)@, final(trace)@.len() as int),
    decreases fuel, 3nat, 0nat,
{
    match env.lookup_name(head.as_str()) {
        None => Err(EvalError::UndefinedFunction(head.clone())),
        Some(f) => {
            let mut args: Vec<Node> = Vec::new();
            let ghost args0 = args@;
            let ghost t0 = trace@;
            match evaluate_each(rest, 0, env, host, trace, fuel, &mut args) {
                Err(e) => Err(e),
                Ok(()) => {
                    let ghost t1 = trace@;
                    proof {
                        assert(views(args0) =~= Seq::<Datum>::empty());
                        let sp = each_spec(views(rest@), 0, old(env)@, replies(t1), t0.len() as int, fuel as nat);
                        if let Ok(vs) = sp.0 {
                            assert(views(args@) =~= vs);
                        }
                    }
                    let r = apply_function(&f, args.as_slice(), env, host, trace, fuel);
                    proof {
                        lemma_each_stable(views(rest@), 0, old(env)@, t1, trace@, t0.len() as int, fuel as nat);
                    }
                    r
                },
            }
        },
    }
}

/// Applies a callable value to already evaluated arguments: a native
/// operation, or a closure, whose body runs in a new frame binding each
/// parameter to its argument.
pub fn apply_function<H: NativeHost>(f: &Node, args: &[Node], env: &mut Environment, host: &mut H, trace: &mut Vec<Result<Node, String>>, fuel: u64) -> (r: Result<Node, EvalError>)
    requires
        old(env).wf(),
    ensures
        final(env)@.len() == old(env)@.len(),
        extends(old(trace)@, final(trace)@),
        apply_spec(f@, views(args@), old(env)@, replies(final(trace)@), old(trace)@.len() as int, fuel as nat) == (result_view(r), final(env)@, final(trace)@.len() as int),
    decreases fuel, 1nat, 0nat,
{
    match f {
        Node::Function(b) => {
            if higher_order(*b) {
                if fuel == 0 {
                    Err(EvalError::DepthExceeded)
                } else {
                    evaluate_higher(*b, args, env, host, trace, fuel - 1)
                }
            } else if let Builtin::Host(id) = b {
                let answer = host.call(*id, args);
                record(answer, trace)
            } else if worldly(*b) {
                let answer = call_worldly(*b, args);
                record(answer, trace)
            } else if float_op(*b) && any_float(args) {
                let answer = host.arithmetic(*b, args);
                record(answer, trace)
            } else {
                match call_native(*b, args) {
                    Ok(v) => Ok(v),
                    Err(m) => {
                        let ghost t0 = trace@;
                        trace.push(Err(m.clone()));
                        proof {
                            assert(replies(trace@)[t0.len() as int] == Err::<Datum, Seq<char>>(m@));
                        }
                        Err(EvalError::Native(m))
                    },
                }
            }
        },
        Node::List(parts) => {
            proof {
                lemma_list_view(*parts);
            }
            if parts.len() == 3 {
                let is_lambda = match &parts[0] {
                    Node::Symbol(s) => same_text(s.as_str(), "lambda"),
                    _ => false,
                };
                if is_lambda {
                    if let Node::List(params) = &parts[1] {
                        proof {
                            lemma_list_view(*params);
                        }
                        if params.len() != args.len() {
                            return Err(EvalError::ArityMismatch { expected: params.len(), got: args.len() });
                        }
                        match symbol_names(params.as_slice()) {
                            None => {
                                return Err(invalid("lambda"));
                            },
                            Some(names) => {
                                proof {
                                    assert(texts(names@).len() == names.len());
                                    assert(names_of(views(params@)).len() == params.len());
                                }
                                env.push_frame();
                                bind_all(env, &names, args);
                                proof {
                                    assert(env@ =~= old(env)@.push(call_frame(views(params@), views(args@))));
                                }
                                let r = evaluate_node(&parts[2], env, host, trace, fuel);
                                env.pop_frame();
                                return r;
                            },
                        }
                    }
                }
            }
            Err(EvalError::NotCallable)
        },
        _ => Err(EvalError::NotCallable),
    }
}

fn evaluate_higher<H: NativeHost>(b: Builtin, args: &[Node], env: &mut Environment, host: &mut H, trace: &mut Vec<Result<Node, String>>, fuel: u64) -> (r: Result<Node, EvalError>)
    requires
        old(env).wf(),
        is_higher_order(b),
    ensures
        final(env)@.len() == old(env)@.len(),
        extends(old(trace)@, final(trace)@),
        higher_spec(b, views(args@), old(env)@, replies(final(trace)@), old(trace)@.len() as int, fuel as nat) == (result_view(r), final(env)@, final(trace)@.len() as int),
    decreases fuel, 4nat, 0nat,
{
    match b {
        Builtin::MapItems => fn_map(args, env, host, trace, fuel),
        Builtin::FilterItems => fn_filter(args, env, host, trace, fuel),
        _ => fn_fold(args, env, host, trace, fuel),
    }
}

/// `(map f list)` and `(map f list extra)`: `f` applied to each item (followed
/// by the extra arguments), the results in a list.
pub fn fn_map<H: NativeHost>(args: &[Node], env: &mut Environment, host: &mut H, trace: &mut Vec<Result<Node, String>>, fuel: u64) -> (r: Result<Node, EvalError>)
    requires
        old(env).wf(),
    ensures
        final(env)@.len() == old(env)@.len(),
        extends(old(trace)@, final(trace)@),
        higher_spec(Builtin::MapItems, views(args@), old(env)@, replies(final(trace)@), old(trace)@.len() as int, fuel as nat) == (result_view(r), final(env)@, final(trace)@.len() as int),
    decreases fuel, 3nat, 0nat,
{
    if args.len() == 2 {
        if let Node::List(items) = &args[1] {
            proof { lemma_list_view(*items); }
            let mut out: Vec<Node> = Vec::new();
            let ghost out0 = out@;
            let no_extra: Vec<Node> = Vec::new();
            proof { assert(views(no_extra@) =~= Seq::<Datum>::empty()); }
            return match evaluate_map(&args[0], items.as_slice(), no_extra.as_slice(), 0, env, host, trace, fuel, &mut out) {
                Err(e) => Err(e),
                Ok(()) => {
                    proof { assert(views(out0) =~= Seq::<Datum>::empty()); assert(views(out0) + views(out@) =~= views(out@)); }
                    Ok(list_node(out))
                },
            };
        }
    }
    if args.len() == 3 {
        if let Node::List(items) = &args[1] {
            if let Node::List(extra) = &args[2] {
                proof { lemma_list_view(*items); lemma_list_view(*extra); }
                let mut out: Vec<Node> = Vec::new();
                let ghost out0 = out@;
                return match evaluate_map(&args[0], items.as_slice(), extra.as_slice(), 0, env, host, trace, fuel, &mut out) {
                    Err(e) => Err(e),
                    Ok(()) => {
                        proof { assert(views(out0) =~= Seq::<Datum>::empty()); }
                        Ok(list_node(out))
                    },
                };
            }
        }
    }
    Err(invalid("map"))
}

/// `(filter f list)`: the items for which `f` gives `true`.
pub fn fn_filter<H: NativeHost>(args: &[Node], env: &mut Environment, host: &mut H, trace: &mut Vec<Result<Node, String>>, fuel: u64) -> (r: Result<Node, EvalError>)
    requires
        old(env).wf(),
    ensures
        final(env)@.len() == old(env)@.len(),
        extends(old(trace)@, final(trace)@),
        higher_spec(Builtin::FilterItems, views(args@), old(env)@, replies(final(trace)@), old(trace)@.len() as int, fuel as nat) == (result_view(r), final(env)@, final(trace)@.len() as int),
    decreases fuel, 3nat, 0nat,
{
    if args.len() == 2 {
        if let Node::List(items) = &args[1] {
            proof { lemma_list_view(*items); }
            let mut out: Vec<Node> = Vec::new();
            let ghost out0 = out@;
            return match evaluate_filter(&args[0], items.as_slice(), 0, env, host, trace, fuel, &mut out) {
                Err(e) => Err(e),
                Ok(()) => {
                    proof { assert(views(out0) =~= Seq::<Datum>::empty()); }
                    Ok(list_node(out))
                },
            };
        }
    }
    Err(invalid("filter"))
}

/// `(fold f initial list)`: `f` applied to the running value and each item in turn.
fn fn_fold<H: NativeHost>(args: &[Node], env: &mut Environment, host: &mut H, trace: &mut Vec<Result<Node, String>>, fuel: u64) -> (r: Result<Node, EvalError>)
    requires
        old(env).wf(),
    ensures
        final(env)@.len() == old(env)@.len(),
        extends(old(trace)@, final(trace)@),
        higher_spec(Builtin::FoldItems, views(args@), old(env)@, replies(final(trace)@), old(trace)@.len() as int, fuel as nat) == (result_view(r), final(env)@, final(trace)@.len() as int),
    decreases fuel, 3nat, 0nat,
{
    if args.len() == 3 {
        if let Node::List(items) = &args[2] {
            proof { lemma_list_view(*items); }
            return evaluate_fold(&args[0], args[1].duplicate(), items.as_slice(), 0, env, host, trace, fuel);
        }
    }
    Err(invalid("fold"))
}

fn evaluate_map<H: NativeHost>(
    f: &Node,
    items: &[Node],
    extra: &[Node],
    i: usize,
    env: &mut Environment,
    host: &mut H,
    trace: &mut Vec<Result<Node, String>>,
    fuel: u64,
    out: &mut Vec<Node>,
) -> (r: Result<(), EvalError>)
    requires
        old(env).wf(),
        i <= items.len(),
    ensures
        final(env)@.len() == old(env)@.len(),
        extends(old(trace)@, final(trace)@),
        map_spec(f@, views(items@), views(extra@), i as int, old(env)@, replies(final(trace)@), old(trace)@.len() as int, fuel as nat).1 == final(env)@,
        map_spec(f@, views(items@), views(extra@), i as int, old(env)@, replies(final(trace)@), old(trace)@.len() as int, fuel as nat).2 == final(trace)@.len() as int,
        match map_spec(f@, views(items@), views(extra@), i as int, old(env)@, replies(final(trace)@), old(trace)@.len() as int, fuel as nat).0 {
            Ok(vs) => r is Ok && views(final(out)@) == views(old(out)@) + vs,
            Err(e) => r matches Err(x) && x@ == e,
        },
    decreases fuel, 2nat, items.len() - i,
{
    if i >= items.len() {
        assert(views(out@) =~= views(out@) + Seq::<Datum>::empty());
        return Ok(());
    }
    let mut call_args: Vec<Node> = Vec::new();
    push_copy(&mut call_args, &items[i]);
    extend_copies(&mut call_args, extra);
    proof {
        assert(views(call_args@) =~= seq![items@[i as int]@] + views(extra@));
    }
    let ghost t0 = trace@;
    let c = apply_function(f, call_args.as_slice(), env, host, trace, fuel);
    let ghost t1 = trace@;
    let ghost s1 = env@;
    match c {
        Err(e) => Err(e),
        Ok(v) => {
            let ghost out0 = out@;
            push_node(out, v);
            let r = evaluate_map(f, items, extra, i + 1, env, host, trace, fuel, out);
            proof {
                lemma_apply_stable(f@, views(call_args@), old(env)@, t1, trace@, t0.len() as int, fuel as nat);
                let sp = map_spec(f@, views(items@), views(extra@), i + 1, s1, replies(trace@), t1.len() as int, fuel as nat);
                if let Ok(vs) = sp.0 {
                    assert(views(out0).push(v@) + vs =~= views(out0) + (seq![v@] + vs));
                }
            }
            r
        },
    }
}

fn evaluate_filter<H: NativeHost>(
    f: &Node,
    items: &[Node],
    i: usize,
    env: &mut Environment,
    host: &mut H,
    trace: &mut Vec<Result<Node, String>>,
    fuel: u64,
    out: &mut Vec<Node>,
) -> (r: Result<(), EvalError>)
    requires
        old(env).wf(),
        i <= items.len(),
    ensures
        final(env)@.len() == old(env)@.len(),
        extends(old(trace)@, final(trace)@),
        filter_spec(f@, views(items@), i as int, old(env)@, replies(final(trace)@), old(trace)@.len() as int, fuel as nat).1 == final(env)@,
        filter_spec(f@, views(items@), i as int, old(env)@, replies(final(trace)@), old(trace)@.len() as int, fuel as nat).2 == final(trace)@.len() as int,
        match filter_spec(f@, views(items@), i as int, old(env)@, replies(final(trace)@), old(trace)@.len() as int, fuel as nat).0 {
            Ok(vs) => r is Ok && views(final(out)@) == views(old(out)@) + vs,
            Err(e) => r matches Err(x) && x@ == e,
        },
    decreases fuel, 2nat, items.len() - i,
{
    if i >= items.len() {
        assert(views(out@) =~= views(out@) + Seq::<Datum>::empty());
        return Ok(());
    }
    let mut call_args: Vec<Node> = Vec::new();
    push_copy(&mut call_args, &items[i]);
    proof {
        assert(views(call_args@) =~= seq![items@[i as int]@]);
    }
    let ghost t0 = trace@;
    let c = apply_function(f, call_args.as_slice(), env, host, trace, fuel);
    let ghost t1 = trace@;
    let ghost s1 = env@;
    match c {
        Err(e) => Err(e),
        Ok(v) => {
            let keep = match &v {
                Node::Bool(b) => *b,
                _ => false,
            };
            let ghost out0 = out@;
            if keep {
                push_copy(out, &items[i]);
            }
            let r = evaluate_filter(f, items, i + 1, env, host, trace, fuel, out);
            proof {
                assert(keep == (v@ == Datum::Bool(true)));
                lemma_apply_stable(f@, views(call_args@), old(env)@, t1, trace@, t0.len() as int, fuel as nat);
                let sp = filter_spec(f@, views(items@), i + 1, s1, replies(trace@), t1.len() as int, fuel as nat);
                if let Ok(vs) = sp.0 {
                    assert(views(out0).push(items@[i as int]@) + vs =~= views(out0) + (seq![items@[i as int]@] + vs));
                }
            }
            r
        },
    }
}

fn evaluate_fold<H: NativeHost>(
    f: &Node,
    acc: Node,
    items: &[Node],
    i: usize,
    env: &mut Environment,
    host: &mut H,
    trace: &mut Vec<Result<Node, String>>,
    fuel: u64,
) -> (r: Result<Node, EvalError>)
    requires
        old(env).wf(),
        i <= items.len(),
    ensures
        final(env)@.len() == old(env)@.len(),
        extends(old(trace)@, final(trace)@),
        fold_spec(f@, acc@, views(items@), i as int, old(env)@, replies(final(trace)@), old(trace)@.len() as int, fuel as nat) == (result_view(r), final(env)@, final(trace)@.len() as int),
    decreases fuel, 2nat, items.len() - i,
{
    if i >= items.len() {
        return Ok(acc);
    }
    let mut call_args: Vec<Node> = Vec::new();
    push_node(&mut call_args, acc);
    push_copy(&mut call_args, &items[i]);
    proof {
        assert(views(call_args@) =~= seq![acc@, items@[i as int]@]);
    }
    let ghost t0 = trace@;
    let c = apply_function(f, call_args.as_slice(), env, host, trace, fuel);
    let ghost t1 = trace@;
    let r = match c {
        Err(e) => Err(e),
        Ok(v) => evaluate_fold(f, v, items, i + 1, env, host, trace, fuel),
    };
    proof {
        lemma_apply_stable(f@, views(call_args@), old(env)@, t1, trace@, t0.len() as int, fuel as nat);
    }
    r
}

/// How deeply evaluation may nest before it stops with `DepthExceeded`.
pub const EVAL_DEPTH: u64 = 256;

/// Evaluates one expression in `env`: the outcome is the model's for some
/// replies of the outside world, each one that its question could get.
pub fn eval(node: &Node, env: &mut Environment) -> (r: Result<Node, EvalError>)
    requires
        old(env).wf(),
    ensures
        final(env)@.len() == old(env)@.len(),
        exists|t: Seq<Reply>|
            eval_spec(node@, old(env)@, t, 0, EVAL_DEPTH as nat) == (result_view(r), final(env)@, t.len() as int),
{
    let mut host = NoHost;
    eval_with(node, env, &mut host)
}

/// Evaluates one expression in `env`, with the native operations of `host`:
/// the outcome is the model's for some replies of the outside world.
pub fn eval_with<H: NativeHost>(node: &Node, env: &mut Environment, host: &mut H) -> (r: Result<Node, EvalError>)
    requires
        old(env).wf(),
    ensures
        final(env)@.len() == old(env)@.len(),
        exists|t: Seq<Reply>|
            eval_spec(node@, old(env)@, t, 0, EVAL_DEPTH as nat) == (result_view(r), final(env)@, t.len() as int),
{
    let mut trace: Vec<Result<Node, String>> = Vec::new();
    let r = evaluate_node(node, env, host, &mut trace, EVAL_DEPTH);
    proof {
        assert(replies(trace@).len() == trace@.len());
    }
    r
}

/// Applies a callable value to already evaluated arguments: the outcome is
/// the model's for some replies of the outside world.
pub fn apply(function: &Node, arguments: &[Node], env: &mut Environment) -> (r: Result<Node, EvalError>)
    requires
        old(env).wf(),
    ensures
        final(env)@.len() == old(env)@.len(),
        exists|t: Seq<Reply>|
            apply_spec(function@, views(arguments@), old(env)@, t, 0, EVAL_DEPTH as nat) == (
                result_view(r),
                final(env)@,
                t.len() as int,
            ),
{
    let mut host = NoHost;
    let mut trace: Vec<Result<Node, String>> = Vec::new();
    let r = apply_function(function, arguments, env, &mut host, &mut trace, EVAL_DEPTH);
    proof {
        assert(replies(trace@).len() == trace@.len());
    }
    r
}

impl EvalError {
    /// A description of the error for people.
    pub fn message(&self) -> String {
        match self {
            EvalError::UndefinedVariable(n) => {
                let mut m = String::from_str("Undefined variable: ");
                m.append(n.as_str());
                m
            },
            EvalError::UndefinedFunction(n) => {
                let mut m = String::from_str("Undefined function: ");
                m.append(n.as_str());
                m
            },
            EvalError::NotCallable => String::from_str("Not a function"),
            EvalError::InvalidExpression => String::from_str("Invalid expression: the head of a form must be a symbol"),
            EvalError::ArityMismatch { .. } => String::from_str("Argument count mismatch"),
            EvalError::InvalidArguments(n) => {
                let mut m = String::from_str("Invalid arguments for ");
                m.append(n.as_str());
                m
            },
            EvalError::InvalidClause => String::from_str("Invalid clause"),
            EvalError::NonBooleanCondition => String::from_str("Condition must be a boolean"),
            EvalError::NoTrueCondition => String::from_str("No true condition found in cond"),
            EvalError::Native(m) => m.clone(),
            EvalError::External(m) => m.clone(),
            EvalError::DepthExceeded => String::from_str("Evaluation nested too deeply"),
        }
    }
}

} // verus!
