use crate::display::display;
use crate::environment::Scope;
use crate::lexer::{
    after, body_start, classify, is_decimal_at, is_float_literal, is_space, is_symbol_char,
    is_word_at, lex, lex_from, run_end, Lexeme,
};
use crate::node::Datum;
use crate::parser::{build, parse_spec};
use crate::environment::resolve;
use crate::semantics::{Reply, apply_spec, bindings_spec, eval_spec, frame_of_pairs, let_spec, Fault};
use crate::text::{
    all_digits, decimal, digit_char, digit_value, digits_of, digits_value, integer_of,
    integer_value, is_digit,
};
use vstd::prelude::*;

verus! {

/// A number, text or boolean evaluates to itself and leaves the scope as it
/// was, so evaluating it twice in a row gives the same value both times.
pub proof fn lemma_literal_evaluation_is_stable(d: Datum, s: Scope, t: Seq<Reply>, k: int, fuel: nat)
    requires
        d is Number || d is Text || d is Bool,
        fuel > 0,
    ensures
        eval_spec(d, s, t, k, fuel) == (Ok::<Datum, Fault>(d), s, k),
        eval_spec(d, eval_spec(d, s, t, k, fuel).1, t, eval_spec(d, s, t, k, fuel).2, fuel) == eval_spec(d, s, t, k, fuel),
{
}

proof fn lemma_digit_char(d: int)
    requires
        0 <= d < 10,
    ensures
        is_digit(digit_char(d)),
        digit_value(digit_char(d)) == d,
{
}

proof fn lemma_digits_of(n: nat)
    ensures
        all_digits(digits_of(n)),
        digits_value(digits_of(n)) == n,
    decreases n,
{
    lemma_digit_char((n % 10) as int);
    if n < 10 {
        lemma_digit_char(n as int);
        assert(digits_of(n) == seq![digit_char(n as int)]);
        assert(digits_of(n).drop_last() =~= Seq::<char>::empty());
        assert(digits_value(digits_of(n)) == digits_value(Seq::<char>::empty()) * 10 + digit_value(digit_char(n as int)));
    }
    if n >= 10 {
        lemma_digits_of(n / 10);
        let s = digits_of(n);
        assert(s.drop_last() =~= digits_of(n / 10));
        assert forall|i: int| 0 <= i < s.len() implies is_digit(#[trigger] s[i]) by {
            if i < s.len() - 1 {
                assert(s[i] == digits_of(n / 10)[i]);
            }
        }
        assert(s.last() == digit_char((n % 10) as int));
        assert(digits_value(s) == digits_value(s.drop_last()) * 10 + digit_value(s.last()));
        assert(digits_value(s.drop_last()) == (n / 10) as int);
        let q: int = (n / 10) as int;
        let r: int = (n % 10) as int;
        assert(q * 10 + r == n as int) by (nonlinear_arith)
            requires
                q == (n / 10) as int,
                r == (n % 10) as int,
        ;
        assert(digit_value(s.last()) == r);
    }
}

/// Reading the decimal spelling of a 64-bit integer gives the integer back.
proof fn lemma_integer_of_decimal(n: i64)
    ensures
        integer_of(decimal(n as int)) == Some(n),
        decimal(n as int).len() > 0,
        starts_word(decimal(n as int)[0]),
        forall|i: int| 0 <= i < decimal(n as int).len() ==> is_symbol_char(#[trigger] decimal(n as int)[i]),
{
    let s = decimal(n as int);
    if n < 0 {
        lemma_digits_of((-n) as nat);
        assert(s.drop_first() =~= digits_of((-n) as nat));
        assert(integer_value(s) == Some(n as int));
        assert forall|i: int| 0 <= i < s.len() implies is_symbol_char(#[trigger] s[i]) by {
            if i > 0 {
                assert(s[i] == digits_of((-n) as nat)[i - 1]);
            }
        }
    } else {
        lemma_digits_of(n as nat);
        assert(is_digit(s[0]));
    }
}

/// A run of symbol characters from `i` that stops at `j` ends at `j`.
proof fn lemma_run_end(cs: Seq<char>, i: int, j: int)
    requires
        0 <= i <= j <= cs.len(),
        forall|k: int| i <= k < j ==> is_symbol_char(#[trigger] cs[k]),
        j == cs.len() || !is_symbol_char(cs[j]),
    ensures
        run_end(cs, i) == j,
    decreases j - i,
{
    if i < j {
        lemma_run_end(cs, i + 1, j);
    }
}

/// Whether a character can begin a word: it starts no comment, list, text
/// or `#!` line, and is not whitespace.
pub open spec fn starts_word(c: char) -> bool {
    c != '#' && c != ';' && c != '(' && c != ')' && c != '`' && c != '"' && !is_space(c)
}

/// Whether `w` is read as one word.
pub open spec fn is_word(w: Seq<char>) -> bool {
    w.len() > 0 && starts_word(w[0]) && forall|k: int| 0 <= k < w.len() ==> is_symbol_char(#[trigger] w[k])
}

/// A value that reads back as itself from its text on its own: a number,
/// a boolean, or a symbol or float whose text is a word that reads as it.
pub open spec fn literal_atom(d: Datum) -> bool {
    match d {
        Datum::Number(_) => true,
        Datum::Bool(_) => true,
        Datum::Symbol(s) => is_word(s) && classify(s) == d,
        Datum::Float(s) => is_word(s) && classify(s) == d,
        _ => false,
    }
}

/// A value whose text reads back as the value: a literal atom, or a
/// non-empty list of such values. (A text prints without its quotes and the
/// empty list prints as `nil`, so neither reads back as itself.)
pub open spec fn literal(d: Datum) -> bool
    decreases d, 1nat,
{
    match d {
        Datum::List(items) => items.len() > 0 && literal_items(items, items.len() as int),
        _ => literal_atom(d),
    }
}

/// Whether the first `n` items are literal values.
pub open spec fn literal_items(items: Seq<Datum>, n: int) -> bool
    decreases items, 0nat, n,
{
    if n <= 0 || n > items.len() {
        true
    } else {
        literal_items(items, n - 1) && literal(items[n - 1])
    }
}

/// The tokens of a value's text.
pub open spec fn tokens_of(d: Datum) -> Seq<Lexeme>
    decreases d, 1nat,
{
    match d {
        Datum::List(items) => seq![Lexeme::LeftParen] + tokens_of_items(items, items.len() as int)
            + seq![Lexeme::RightParen],
        _ => seq![Lexeme::Atom(d)],
    }
}

/// The tokens of the first `n` items' texts.
pub open spec fn tokens_of_items(items: Seq<Datum>, n: int) -> Seq<Lexeme>
    decreases items, 0nat, n,
{
    if n <= 0 || n > items.len() {
        Seq::empty()
    } else {
        tokens_of_items(items, n - 1) + tokens_of(items[n - 1])
    }
}

/// The text of a literal atom is a word that reads as the atom.
proof fn lemma_atom_word(d: Datum)
    requires
        literal_atom(d),
    ensures
        is_word(display(d)),
        classify(display(d)) == d,
{
    match d {
        Datum::Number(n) => {
            lemma_integer_of_decimal(n);
        },
        Datum::Bool(b) => {
            reveal_strlit("true");
            reveal_strlit("false");
            reveal_strlit("inf");
            reveal_strlit("infinity");
            reveal_strlit("nan");
            reveal_strlit("INF");
            reveal_strlit("INFINITY");
            reveal_strlit("NAN");
            let w = display(d);
            assert(!is_digit(w[0]) && w[0] != '-' && w[0] != '+');
            assert(!all_digits(w));
            assert(integer_of(w) is None);
            assert(!is_word_at(w, 0, "inf"@, "INF"@));
            assert(!is_word_at(w, 0, "nan"@, "NAN"@));
            assert(!is_word_at(w, 0, "infinity"@, "INFINITY"@));
            assert(crate::lexer::digits_end(w, 0) == 0);
            assert(!is_decimal_at(w, 0));
            assert(!is_float_literal(w));
        },
        _ => {},
    }
}

/// Where a word may end: at the end of the text, a space or a `)`.
pub open spec fn ends_word(cs: Seq<char>, p: int) -> bool {
    p == cs.len() || (0 <= p < cs.len() && (cs[p] == ' ' || cs[p] == ')'))
}

/// Whether `cs` holds `t` from index `i` on.
pub open spec fn holds_at(cs: Seq<char>, i: int, t: Seq<char>) -> bool {
    0 <= i && i + t.len() <= cs.len() && cs.subrange(i, i + t.len()) == t
}

proof fn lemma_after_after(a: Seq<Lexeme>, b: Seq<Lexeme>, r: Result<Seq<Lexeme>, crate::lexer::ParseError>)
    ensures
        after(a, after(b, r)) == after(a + b, r),
{
    if let Ok(ts) = r {
        assert(a + (b + ts) =~= (a + b) + ts);
    }
}

/// Reading the text of a literal value inside a larger text yields its
/// tokens, then those of what follows.
proof fn lemma_lex_value(cs: Seq<char>, i: int, d: Datum)
    requires
        literal(d),
        holds_at(cs, i, display(d)),
        ends_word(cs, i + display(d).len()),
    ensures
        lex_from(cs, i) == after(tokens_of(d), lex_from(cs, i + display(d).len())),
    decreases d, 1nat,
{
    let t = display(d);
    let e = i + t.len();
    match d {
        Datum::List(items) => {
            let n = items.len() as int;
            let sp = crate::display::spaced(items, n);
            let l = sp.len() as int;
            assert(t == seq!['('] + sp + seq![')']);
            assert(cs[i] == t[0]);
            assert(holds_at(cs, i + 1, sp)) by {
                assert(cs.subrange(i + 1, i + 1 + l) =~= t.subrange(1, 1 + l));
                assert(t.subrange(1, 1 + l) =~= sp);
            }
            assert(cs[i + 1 + l] == t[1 + l]);
            lemma_lex_items(cs, i + 1, items, n);
            let k = i + 1 + l;
            assert(lex_from(cs, k) == crate::lexer::prepend(Lexeme::RightParen, lex_from(cs, k + 1)));
            lemma_after_after(seq![Lexeme::LeftParen], tokens_of_items(items, n), after(seq![Lexeme::RightParen], lex_from(cs, e)));
            lemma_after_after(seq![Lexeme::LeftParen] + tokens_of_items(items, n), seq![Lexeme::RightParen], lex_from(cs, e));
            if let Ok(ts) = lex_from(cs, e) {
                assert(seq![Lexeme::RightParen] + ts =~= seq![Lexeme::RightParen] + ts);
                assert(seq![Lexeme::LeftParen] + (tokens_of_items(items, n) + (seq![Lexeme::RightParen] + ts)) =~= seq![Lexeme::LeftParen] + tokens_of_items(items, n) + seq![Lexeme::RightParen] + ts);
            }
        },
        _ => {
            lemma_atom_word(d);
            assert(cs[i] == t[0]);
            assert forall|k: int| i <= k < e implies is_symbol_char(#[trigger] cs[k]) by {
                assert(cs[k] == t[k - i]);
            }
            lemma_run_end(cs, i, e);
            assert(cs.subrange(i, e) == t);
            if let Ok(ts) = lex_from(cs, e) {
                assert(seq![Lexeme::Atom(d)] + ts =~= seq![Lexeme::Atom(d)] + ts);
            }
        },
    }
}

/// Reading the texts of the first `n` items, separated by spaces, yields
/// their tokens, then those of what follows.
proof fn lemma_lex_items(cs: Seq<char>, j: int, items: Seq<Datum>, n: int)
    requires
        0 < n <= items.len(),
        literal_items(items, n),
        holds_at(cs, j, crate::display::spaced(items, n)),
        ends_word(cs, j + crate::display::spaced(items, n).len()),
    ensures
        lex_from(cs, j) == after(
            tokens_of_items(items, n),
            lex_from(cs, j + crate::display::spaced(items, n).len()),
        ),
    decreases items, 0nat, n,
{
    let sp = crate::display::spaced(items, n);
    let last = items[n - 1];
    if n == 1 {
        assert(sp == display(items[0]));
        lemma_lex_value(cs, j, items[0]);
        assert(tokens_of_items(items, 1) =~= tokens_of(items[0]));
    } else {
        let prev = crate::display::spaced(items, n - 1);
        let a = prev.len() as int;
        let dl = display(last);
        assert(sp == prev + seq![' '] + dl);
        assert(holds_at(cs, j, prev)) by {
            assert(cs.subrange(j, j + a) =~= sp.subrange(0, a));
            assert(sp.subrange(0, a) =~= prev);
        }
        assert(cs[j + a] == sp[a]);
        lemma_lex_items(cs, j, items, n - 1);
        assert(lex_from(cs, j + a) == lex_from(cs, j + a + 1));
        assert(holds_at(cs, j + a + 1, dl)) by {
            assert(cs.subrange(j + a + 1, j + a + 1 + dl.len()) =~= sp.subrange(a + 1, sp.len() as int));
            assert(sp.subrange(a + 1, sp.len() as int) =~= dl);
        }
        lemma_lex_value(cs, j + a + 1, last);
        lemma_after_after(tokens_of_items(items, n - 1), tokens_of(last), lex_from(cs, j + sp.len()));
    }
}

/// Building from the tokens of a value adds the value to the list being built.
proof fn lemma_build_value(ts: Seq<Lexeme>, k: int, open: Seq<Seq<Datum>>, cur: Seq<Datum>, d: Datum)
    requires
        0 <= k,
        k + tokens_of(d).len() <= ts.len(),
        ts.subrange(k, k + tokens_of(d).len()) == tokens_of(d),
    ensures
        build(ts, k, open, cur) == build(ts, k + tokens_of(d).len(), open, cur.push(d)),
    decreases d, 1nat,
{
    let t = tokens_of(d);
    assert(ts[k] == t[0]);
    match d {
        Datum::List(items) => {
            let n = items.len() as int;
            let inner = tokens_of_items(items, n);
            let m = inner.len() as int;
            assert(t == seq![Lexeme::LeftParen] + inner + seq![Lexeme::RightParen]);
            assert(ts.subrange(k + 1, k + 1 + m) =~= t.subrange(1, 1 + m));
            assert(t.subrange(1, 1 + m) =~= inner);
            lemma_build_items(ts, k + 1, open.push(cur), Seq::empty(), items, n);
            assert(ts[k + 1 + m] == t[1 + m]);
            assert(Seq::<Datum>::empty() + items.subrange(0, n) =~= items);
            assert(open.push(cur).drop_last() =~= open);
        },
        _ => {},
    }
}

/// Building from the tokens of the first `n` items adds those items.
proof fn lemma_build_items(ts: Seq<Lexeme>, k: int, open: Seq<Seq<Datum>>, cur: Seq<Datum>, items: Seq<Datum>, n: int)
    requires
        0 <= n <= items.len(),
        0 <= k,
        k + tokens_of_items(items, n).len() <= ts.len(),
        ts.subrange(k, k + tokens_of_items(items, n).len()) == tokens_of_items(items, n),
    ensures
        build(ts, k, open, cur) == build(
            ts,
            k + tokens_of_items(items, n).len(),
            open,
            cur + items.subrange(0, n),
        ),
    decreases items, 0nat, n,
{
    if n == 0 {
        assert(cur + items.subrange(0, 0) =~= cur);
    } else {
        let t1 = tokens_of_items(items, n - 1);
        let t2 = tokens_of(items[n - 1]);
        assert(tokens_of_items(items, n) == t1 + t2);
        assert(ts.subrange(k, k + t1.len()) =~= (t1 + t2).subrange(0, t1.len() as int));
        assert((t1 + t2).subrange(0, t1.len() as int) =~= t1);
        lemma_build_items(ts, k, open, cur, items, n - 1);
        assert(ts.subrange(k + t1.len(), k + t1.len() + t2.len()) =~= (t1 + t2).subrange(t1.len() as int, (t1 + t2).len() as int));
        assert((t1 + t2).subrange(t1.len() as int, (t1 + t2).len() as int) =~= t2);
        lemma_build_value(ts, k + t1.len(), open, cur + items.subrange(0, n - 1), items[n - 1]);
        assert((cur + items.subrange(0, n - 1)).push(items[n - 1]) =~= cur + items.subrange(0, n));
    }
}

/// Reading the text of a value built from literals gives the value back:
/// the parse of its display is exactly the one value.
pub proof fn lemma_round_trip(d: Datum)
    requires
        literal(d),
    ensures
        parse_spec(display(d)) == Ok::<Seq<Datum>, crate::lexer::ParseError>(seq![d]),
{
    let cs = display(d);
    if !(d is List) {
        lemma_atom_word(d);
    }
    assert(cs.len() > 0 && cs[0] != '#');
    assert(body_start(cs) == 0);
    assert(cs.subrange(0, cs.len() as int) =~= cs);
    lemma_lex_value(cs, 0, d);
    assert(lex_from(cs, cs.len() as int) == Ok::<Seq<Lexeme>, crate::lexer::ParseError>(Seq::empty()));
    let ts = tokens_of(d);
    assert(ts + Seq::<Lexeme>::empty() =~= ts);
    assert(lex(cs) == Ok::<Seq<Lexeme>, crate::lexer::ParseError>(ts));
    assert(ts.subrange(0, ts.len() as int) =~= ts);
    lemma_build_value(ts, 0, Seq::empty(), Seq::empty(), d);
    assert(Seq::<Datum>::empty().push(d) =~= seq![d]);
}

proof fn lemma_frame_keys(names: Seq<Seq<char>>, vals: Seq<Datum>, n: int, x: Seq<char>)
    requires
        forall|i: int| 0 <= i < names.len() ==> names[i] != x,
        n <= names.len(),
    ensures
        !frame_of_pairs(names, vals, n).contains_key(x),
    decreases n,
{
    if n > 0 {
        lemma_frame_keys(names, vals, n - 1, x);
    }
}

/// A restricted `let` sandboxes its body: when the bindings evaluate without
/// error to names other than `x`, a body that is just `x` fails with
/// `UndefinedVariable`, whatever the enclosing scope binds.
pub proof fn lemma_restricted_let_hides_outer_names(bindings: Seq<Datum>, x: Seq<char>, s: Scope, t: Seq<Reply>, k: int, fuel: nat)
    requires
        bindings_spec(bindings, 0, true, s, t, k, fuel).0 matches Ok((ns, vs)) && (forall|i: int|
            0 <= i < ns.len() ==> ns[i] != x),
        fuel > 0,
    ensures
        let_spec(seq![Datum::List(bindings), Datum::Symbol(x)], true, s, t, k, fuel).0 == Err::<Datum, Fault>(
            Fault::UndefinedVariable(x),
        ),
{
    let (r, s1, k1) = bindings_spec(bindings, 0, true, s, t, k, fuel);
    if let Ok((ns, vs)) = r {
        let f = frame_of_pairs(ns, vs, ns.len() as int);
        lemma_frame_keys(ns, vs, ns.len() as int, x);
        assert(seq![f].last() == f);
        assert(seq![f].drop_last() =~= Seq::<crate::environment::Frame>::empty());
        assert(resolve(Seq::<crate::environment::Frame>::empty(), x) is None);
        assert(resolve(seq![f], x) == resolve(seq![f].drop_last(), x));
    }
}

/// A name bound by a `let` is gone once the `let` is done: if it resolves
/// nowhere in the scope that the binding expressions leave, it resolves
/// nowhere in the scope after the whole `let`.
pub proof fn lemma_let_binding_is_local(rest: Seq<Datum>, s: Scope, t: Seq<Reply>, k: int, fuel: nat, y: Seq<char>)
    requires
        s.len() > 0,
        resolve(bindings_spec(rest[0]->List_0, 0, false, s, t, k, fuel).1, y) is None,
        rest.len() == 2,
        rest[0] is List,
    ensures
        resolve(let_spec(rest, false, s, t, k, fuel).1, y) is None,
{
    let (r, s1, k1) = bindings_spec(rest[0]->List_0, 0, false, s, t, k, fuel);
    crate::frames::lemma_bindings_keeps_outer(rest[0]->List_0, 0, false, s, t, k, fuel);
    if let Ok((ns, vs)) = r {
        let f = frame_of_pairs(ns, vs, ns.len() as int);
        crate::frames::lemma_eval_keeps_outer(rest[1], s1.push(f), t, k1, fuel);
        crate::frames::lemma_push_drop(s1, f, eval_spec(rest[1], s1.push(f), t, k1, fuel).1);
    }
}

/// A closure called with a number of arguments other than its number of
/// parameters fails with `ArityMismatch`, and nothing is evaluated.
pub proof fn lemma_closure_arity(params: Seq<Datum>, body: Datum, args: Seq<Datum>, s: Scope, t: Seq<Reply>, k: int, fuel: nat)
    requires
        params.len() != args.len(),
    ensures
        apply_spec(crate::semantics::closure(Datum::List(params), body), args, s, t, k, fuel) == (
            Err::<Datum, Fault>(Fault::ArityMismatch { expected: params.len(), got: args.len() }),
            s,
            k,
        ),
{
    reveal_strlit("lambda");
}

/// `(quote x)` gives `x` itself, unevaluated, and changes nothing.
pub proof fn lemma_quote_is_literal(x: Datum, s: Scope, t: Seq<Reply>, k: int, fuel: nat)
    requires
        fuel > 0,
    ensures
        eval_spec(Datum::List(seq![Datum::Symbol("quote"@), x]), s, t, k, fuel) == (Ok::<Datum, Fault>(x), s, k),
{
    let items = seq![Datum::Symbol("quote"@), x];
    assert(items.drop_first() =~= seq![x]);
}

/// A `cond` whose every clause has the test `false` fails with
/// `NoTrueCondition`, leaving the scope as it was.
pub proof fn lemma_cond_falls_through(clauses: Seq<Datum>, i: int, s: Scope, t: Seq<Reply>, k: int, fuel: nat)
    requires
        0 <= i <= clauses.len(),
        fuel > 0,
        forall|k: int| 0 <= k < clauses.len() ==> (#[trigger] clauses[k] matches Datum::List(pair)
            && pair.len() == 2 && pair[0] == Datum::Bool(false)),
    ensures
        crate::semantics::cond_spec(clauses, i, s, t, k, fuel) == (Err::<Datum, Fault>(Fault::NoTrueCondition), s, k),
    decreases clauses.len() - i,
{
    if i < clauses.len() {
        let pair = clauses[i]->List_0;
        assert(pair.len() == 2 && pair[0] == Datum::Bool(false));
        assert(eval_spec(pair[0], s, t, k, fuel) == (Ok::<Datum, Fault>(Datum::Bool(false)), s, k));
        lemma_cond_falls_through(clauses, i + 1, s, t, k, fuel);
    }
}

} // verus!
