use crate::node::{
    invalid_arguments, lemma_list_view, list_node, outcome, push_node, views, Datum, Node,
};
use vstd::prelude::*;

verus! {

/// Pairs of the elements at equal indexes, as long as the shorter list.
pub open spec fn zipped(x: Seq<Datum>, y: Seq<Datum>) -> Seq<Datum> {
    Seq::new(
        if x.len() < y.len() { x.len() } else { y.len() },
        |i: int| Datum::List(seq![x[i], y[i]]),
    )
}

pub open spec fn zip_spec(a: Seq<Datum>) -> Option<Datum> {
    if a.len() == 2 && a[0] is List && a[1] is List {
        Some(Datum::List(zipped(a[0]->List_0, a[1]->List_0)))
    } else {
        None
    }
}

/// `(zip a b)`: the list of pairs `(a_i b_i)`.
pub fn fn_zip(arguments: &[Node]) -> (r: Result<Node, String>)
    ensures
        outcome(r) == zip_spec(views(arguments@)),
{
    if arguments.len() == 2 {
        if let Node::List(x) = &arguments[0] {
            if let Node::List(y) = &arguments[1] {
                proof {
                    lemma_list_view(*x);
                    lemma_list_view(*y);
                }
                let n = if x.len() < y.len() { x.len() } else { y.len() };
                let mut out: Vec<Node> = Vec::new();
                let mut i: usize = 0;
                while i < n
                    invariant
                        i <= n,
                        n <= x.len(),
                        n <= y.len(),
                        n == if x.len() < y.len() { x.len() } else { y.len() },
                        views(out@) =~= zipped(views(x@), views(y@)).subrange(0, i as int),
                    decreases n - i,
                {
                    let mut pair: Vec<Node> = Vec::new();
                    crate::node::push_copy(&mut pair, &x[i]);
                    crate::node::push_copy(&mut pair, &y[i]);
                    assert(views(pair@) =~= seq![views(x@)[i as int], views(y@)[i as int]]);
                    push_node(&mut out, list_node(pair));
                    i += 1;
                }
                proof {
                    lemma_list_view(*x);
                    lemma_list_view(*y);
                    assert(zipped(views(x@), views(y@)).subrange(0, n as int) =~= zipped(views(x@), views(y@)));
                }
                return Ok(list_node(out));
            }
        }
    }
    Err(invalid_arguments("zip"))
}

/// How far `cur` is from passing `end` in the direction of `step`.
pub open spec fn distance_left(cur: int, end: int, step: int) -> int {
    if step > 0 && cur < end {
        end - cur
    } else if step < 0 && cur > end {
        cur - end
    } else {
        0
    }
}

/// The numbers from `cur` on, by `step`, while they stay before `end`.
pub open spec fn range_from(cur: int, end: int, step: int) -> Seq<Datum>
    decreases distance_left(cur, end, step),
{
    if (step > 0 && cur < end) || (step < 0 && cur > end) {
        seq![Datum::Number(cur as i64)] + range_from(cur + step, end, step)
    } else {
        Seq::empty()
    }
}

pub open spec fn range_spec(a: Seq<Datum>) -> Option<Datum> {
    if a.len() == 1 && a[0] is Number {
        Some(Datum::List(range_from(0, a[0]->Number_0 as int, 1)))
    } else if a.len() == 2 && a[0] is Number && a[1] is Number {
        Some(Datum::List(range_from(a[0]->Number_0 as int, a[1]->Number_0 as int, 1)))
    } else if a.len() == 3 && a[0] is Number && a[1] is Number && a[2] is Number && a[2]->Number_0
        != 0 {
        Some(
            Datum::List(
                range_from(a[0]->Number_0 as int, a[1]->Number_0 as int, a[2]->Number_0 as int),
            ),
        )
    } else {
        None
    }
}

/// The list of the numbers from `start` on, by `step`, before `end`.
pub fn numbers_between(start: i64, end: i64, step: i64) -> (r: Vec<Node>)
    requires
        step != 0,
    ensures
        views(r@) == range_from(start as int, end as int, step as int),
{
    let mut out: Vec<Node> = Vec::new();
    let mut cur = start;
    proof {
        assert(views(out@) + range_from(cur as int, end as int, step as int) =~= range_from(start as int, end as int, step as int));
    }
    while (step > 0 && cur < end) || (step < 0 && cur > end)
        invariant
            step != 0,
            views(out@) + range_from(cur as int, end as int, step as int) == range_from(
                start as int,
                end as int,
                step as int,
            ),
        decreases distance_left(cur as int, end as int, step as int),
    {
        let ghost before = views(out@);
        push_node(&mut out, Node::Number(cur));
        proof {
            assert(before + range_from(cur as int, end as int, step as int) =~= views(out@) + range_from(cur + step, end as int, step as int));
        }
        match cur.checked_add(step) {
            Some(next) => {
                cur = next;
            },
            None => {
                proof {
                    assert(range_from(cur + step, end as int, step as int) =~= Seq::<Datum>::empty());
                    assert(views(out@) + Seq::<Datum>::empty() =~= views(out@));
                }
                return out;
            },
        }
    }
    assert(views(out@) + Seq::<Datum>::empty() =~= views(out@));
    out
}

/// `(range end)`, `(range start end)` and `(range start end step)`.
pub fn fn_range(arguments: &[Node]) -> (r: Result<Node, String>)
    ensures
        outcome(r) == range_spec(views(arguments@)),
{
    if arguments.len() == 1 {
        if let Node::Number(end) = &arguments[0] {
            return Ok(list_node(numbers_between(0, *end, 1)));
        }
    } else if arguments.len() == 2 {
        if let Node::Number(start) = &arguments[0] {
            if let Node::Number(end) = &arguments[1] {
                return Ok(list_node(numbers_between(*start, *end, 1)));
            }
        }
    } else if arguments.len() == 3 {
        if let Node::Number(start) = &arguments[0] {
            if let Node::Number(end) = &arguments[1] {
                if let Node::Number(step) = &arguments[2] {
                    if *step == 0 {
                        return Err(String::from_str("Step cannot be zero"));
                    }
                    return Ok(list_node(numbers_between(*start, *end, *step)));
                }
            }
        }
    }
    Err(invalid_arguments("range"))
}

} // verus!
