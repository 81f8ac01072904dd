use crate::node::{
    empty_list, invalid_arguments, lemma_list_view, list_node, nil, outcome, push_copy, views,
    Datum, Node,
};
use vstd::prelude::*;
use vstd::utf8::encode_utf8;

verus! {

pub open spec fn car_spec(a: Seq<Datum>) -> Option<Datum> {
    if a.len() == 1 {
        match a[0] {
            Datum::List(l) => Some(if l.len() == 0 { nil() } else { l[0] }),
            _ => None,
        }
    } else {
        None
    }
}

/// `(car l)`: the first element of a list, or nil for the empty list.
pub fn fn_car(arguments: &[Node]) -> (r: Result<Node, String>)
    ensures
        outcome(r) == car_spec(views(arguments@)),
{
    if arguments.len() == 1 {
        if let Node::List(list) = &arguments[0] {
            proof {
                lemma_list_view(*list);
            }
            if list.len() == 0 {
                return Ok(empty_list());
            }
            return Ok(list[0].duplicate());
        }
    }
    Err(invalid_arguments("car"))
}

pub open spec fn cdr_spec(a: Seq<Datum>) -> Option<Datum> {
    if a.len() == 1 {
        match a[0] {
            Datum::List(l) => Some(if l.len() <= 1 { nil() } else { Datum::List(l.drop_first()) }),
            _ => None,
        }
    } else {
        None
    }
}

/// The nodes of `items` from index `from` on, copied.
pub fn copy_from(items: &Vec<Node>, from: usize) -> (r: Vec<Node>)
    requires
        from <= items.len(),
    ensures
        views(r@) == views(items@).subrange(from as int, items.len() as int),
{
    let mut out: Vec<Node> = Vec::new();
    let mut i: usize = from;
    while i < items.len()
        invariant
            from <= i <= items.len(),
            views(out@) =~= views(items@).subrange(from as int, i as int),
        decreases items.len() - i,
    {
        push_copy(&mut out, &items[i]);
        assert(views(items@).subrange(from as int, i + 1) =~= views(items@).subrange(from as int, i as int).push(items@[i as int]@));
        i += 1;
    }
    out
}

/// `(cdr l)`: all but the first element of a list; nil when fewer than two remain.
pub fn fn_cdr(arguments: &[Node]) -> (r: Result<Node, String>)
    ensures
        outcome(r) == cdr_spec(views(arguments@)),
{
    if arguments.len() == 1 {
        if let Node::List(list) = &arguments[0] {
            proof {
                lemma_list_view(*list);
            }
            if list.len() <= 1 {
                return Ok(empty_list());
            }
            let rest = copy_from(list, 1);
            proof {
                assert(views(list@).subrange(1, list.len() as int) =~= views(list@).drop_first());
            }
            return Ok(list_node(rest));
        }
    }
    Err(invalid_arguments("cdr"))
}

pub open spec fn cons_spec(a: Seq<Datum>) -> Option<Datum> {
    if a.len() == 2 {
        match a[1] {
            Datum::List(l) => Some(Datum::List(seq![a[0]] + l)),
            _ => None,
        }
    } else {
        None
    }
}

/// `(cons x l)`: the list `l` with `x` in front.
pub fn fn_cons(arguments: &[Node]) -> (r: Result<Node, String>)
    ensures
        outcome(r) == cons_spec(views(arguments@)),
{
    if arguments.len() == 2 {
        if let Node::List(list) = &arguments[1] {
            proof {
                lemma_list_view(*list);
            }
            let mut out: Vec<Node> = Vec::new();
            push_copy(&mut out, &arguments[0]);
            assert(views(out@) =~= seq![arguments@[0]@] + views(list@).subrange(0, 0));
            let mut i: usize = 0;
            while i < list.len()
                invariant
                    i <= list.len(),
                    views(out@) =~= seq![arguments@[0]@] + views(list@).subrange(0, i as int),
                decreases list.len() - i,
            {
                push_copy(&mut out, &list[i]);
                assert(views(list@).subrange(0, i + 1) =~= views(list@).subrange(0, i as int).push(list@[i as int]@));
                i += 1;
            }
            proof {
                assert(views(list@).subrange(0, i as int) =~= views(list@));
            }
            return Ok(list_node(out));
        }
    }
    Err(invalid_arguments("cons"))
}

pub open spec fn length_spec(a: Seq<Datum>) -> Option<Datum> {
    if a.len() == 1 {
        match a[0] {
            Datum::List(l) => Some(Datum::Number(l.len() as i64)),
            Datum::Text(t) => if encode_utf8(t).len() <= i64::MAX {
                Some(Datum::Number(encode_utf8(t).len() as i64))
            } else {
                None
            },
            _ => None,
        }
    } else {
        None
    }
}

/// `(length x)`: the number of elements of a list, or the number of bytes
/// of a text's UTF-8 encoding.
pub fn fn_length(arguments: &[Node]) -> (r: Result<Node, String>)
    ensures
        outcome(r) == length_spec(views(arguments@)),
{
    if arguments.len() == 1 {
        if let Node::List(list) = &arguments[0] {
            proof {
                lemma_list_view(*list);
            }
            return Ok(Node::Number(list.len() as i64));
        }
        if let Node::Text(t) = &arguments[0] {
            let n = t.as_str().as_bytes().len();
            if (n as u64) <= 0x7FFF_FFFF_FFFF_FFFF {
                return Ok(Node::Number(n as i64));
            }
            return Err(String::from_str("Failed to convert length"));
        }
    }
    Err(invalid_arguments("length"))
}

pub open spec fn is_null_spec(a: Seq<Datum>) -> Option<Datum> {
    if a.len() == 1 {
        Some(Datum::Bool(a[0] matches Datum::List(l) && l.len() == 0))
    } else {
        None
    }
}

/// `(null? x)`: whether `x` is the empty list.
pub fn fn_is_null(arguments: &[Node]) -> (r: Result<Node, String>)
    ensures
        outcome(r) == is_null_spec(views(arguments@)),
{
    if arguments.len() == 1 {
        if let Node::List(list) = &arguments[0] {
            proof {
                lemma_list_view(*list);
            }
            return Ok(Node::Bool(list.len() == 0));
        }
        return Ok(Node::Bool(false));
    }
    Err(invalid_arguments("null?"))
}

/// `(list x ...)`: the list of the arguments.
pub fn fn_list(arguments: &[Node]) -> (r: Result<Node, String>)
    ensures
        outcome(r) == Some(Datum::List(views(arguments@))),
{
    let mut out: Vec<Node> = Vec::new();
    crate::node::extend_copies(&mut out, arguments);
    assert(views(out@) =~= views(arguments@));
    Ok(list_node(out))
}

pub open spec fn last_spec(a: Seq<Datum>) -> Option<Datum> {
    if a.len() == 1 && a[0] is List {
        let l = a[0]->List_0;
        Some(if l.len() == 0 { nil() } else { l.last() })
    } else {
        None
    }
}

/// `(last l)`: the last element of a list, or nil for the empty list.
pub fn fn_last(arguments: &[Node]) -> (r: Result<Node, String>)
    ensures
        outcome(r) == last_spec(views(arguments@)),
{
    if arguments.len() == 1 {
        if let Node::List(list) = &arguments[0] {
            proof {
                lemma_list_view(*list);
            }
            if list.len() == 0 {
                return Ok(empty_list());
            }
            return Ok(list[list.len() - 1].duplicate());
        }
    }
    Err(invalid_arguments("last"))
}

pub open spec fn nth_spec(a: Seq<Datum>) -> Option<Datum> {
    if a.len() == 2 && a[0] is Number && a[1] is List {
        let i = a[0]->Number_0 as int;
        let l = a[1]->List_0;
        Some(if 0 <= i < l.len() { l[i] } else { nil() })
    } else {
        None
    }
}

/// `(nth i l)`: the element at index `i`, or nil when `i` is out of range.
pub fn fn_nth(arguments: &[Node]) -> (r: Result<Node, String>)
    ensures
        outcome(r) == nth_spec(views(arguments@)),
{
    if arguments.len() == 2 {
        if let Node::Number(i) = &arguments[0] {
            if let Node::List(list) = &arguments[1] {
                proof {
                    lemma_list_view(*list);
                }
                if *i < 0 || *i as u64 >= list.len() as u64 {
                    return Ok(empty_list());
                }
                return Ok(list[*i as usize].duplicate());
            }
        }
    }
    Err(invalid_arguments("nth"))
}

pub open spec fn head_spec(a: Seq<Datum>) -> Option<Datum> {
    if a.len() == 1 && a[0] is List && a[0]->List_0.len() > 0 {
        Some(a[0]->List_0[0])
    } else {
        None
    }
}

/// `(head l)`: the first element of a non-empty list.
pub fn fn_head(arguments: &[Node]) -> (r: Result<Node, String>)
    ensures
        outcome(r) == head_spec(views(arguments@)),
{
    if arguments.len() == 1 {
        if let Node::List(list) = &arguments[0] {
            proof {
                lemma_list_view(*list);
            }
            if list.len() > 0 {
                return Ok(list[0].duplicate());
            }
            return Err(String::from_str("Empty list"));
        }
    }
    Err(invalid_arguments("head"))
}

pub open spec fn tail_spec(a: Seq<Datum>) -> Option<Datum> {
    if a.len() == 1 && a[0] is List && a[0]->List_0.len() > 0 {
        Some(Datum::List(a[0]->List_0.drop_first()))
    } else {
        None
    }
}

/// `(tail l)`: all but the first element of a non-empty list.
pub fn fn_tail(arguments: &[Node]) -> (r: Result<Node, String>)
    ensures
        outcome(r) == tail_spec(views(arguments@)),
{
    if arguments.len() == 1 {
        if let Node::List(list) = &arguments[0] {
            proof {
                lemma_list_view(*list);
            }
            if list.len() > 0 {
                let rest = copy_from(list, 1);
                assert(views(list@).subrange(1, list.len() as int) =~= views(list@).drop_first());
                return Ok(list_node(rest));
            }
            return Err(String::from_str("Empty list"));
        }
    }
    Err(invalid_arguments("tail"))
}

pub open spec fn reverse_spec(a: Seq<Datum>) -> Option<Datum> {
    if a.len() == 1 && a[0] is List {
        Some(Datum::List(a[0]->List_0.reverse()))
    } else {
        None
    }
}

/// `(reverse l)`: the elements in reverse order.
pub fn fn_reverse(arguments: &[Node]) -> (r: Result<Node, String>)
    ensures
        outcome(r) == reverse_spec(views(arguments@)),
{
    if arguments.len() == 1 {
        if let Node::List(list) = &arguments[0] {
            proof {
                lemma_list_view(*list);
            }
            let mut out: Vec<Node> = Vec::new();
            let mut k: usize = list.len();
            while k > 0
                invariant
                    k <= list.len(),
                    views(out@) =~= views(list@).reverse().subrange(0, list.len() - k),
                decreases k,
            {
                push_copy(&mut out, &list[k - 1]);
                k -= 1;
            }
            proof {
                lemma_list_view(*list);
                assert(views(list@).reverse().subrange(0, list.len() as int) =~= views(list@).reverse());
            }
            return Ok(list_node(out));
        }
    }
    Err(invalid_arguments("reverse"))
}

pub open spec fn contains_spec(a: Seq<Datum>) -> Option<Datum> {
    if a.len() == 2 && a[1] is List {
        Some(Datum::Bool(a[1]->List_0.contains(a[0])))
    } else {
        None
    }
}

/// `(contains x l)`: whether `x` is an element of `l`.
pub fn fn_contains(arguments: &[Node]) -> (r: Result<Node, String>)
    ensures
        outcome(r) == contains_spec(views(arguments@)),
{
    if arguments.len() == 2 {
        if let Node::List(list) = &arguments[1] {
            proof {
                lemma_list_view(*list);
            }
            let mut i: usize = 0;
            while i < list.len()
                invariant
                    i <= list.len(),
                    arguments.len() == 2,
                    arguments@[1] == Node::List(*list),
                    forall|k: int| 0 <= k < i ==> #[trigger] views(list@)[k] != arguments@[0]@,
                decreases list.len() - i,
            {
                if crate::compare::test_equal(&list[i], &arguments[0]) {
                    assert(views(list@)[i as int] == arguments@[0]@);
                    proof {
                        lemma_list_view(*list);
                    }
                    return Ok(Node::Bool(true));
                }
                i += 1;
            }
            proof {
                lemma_list_view(*list);
                assert(!views(list@).contains(arguments@[0]@));
            }
            return Ok(Node::Bool(false));
        }
    }
    Err(invalid_arguments("contains"))
}

} // verus!
