use crate::arithmetic::two_numbers;
use crate::environment::same_text;
use crate::node::{invalid_arguments, lemma_list_view, outcome, views, Datum, Node};
use vstd::prelude::*;

verus! {

/// Whether two nodes are equal: the same variant holding equal contents,
/// lists element by element.
pub fn test_equal(a: &Node, b: &Node) -> (r: bool)
    ensures
        r == (a@ == b@),
    decreases a,
{
    match a {
        Node::Symbol(x) => match b {
            Node::Symbol(y) => same_text(x.as_str(), y.as_str()),
            _ => false,
        },
        Node::Number(x) => match b {
            Node::Number(y) => *x == *y,
            _ => false,
        },
        Node::Float(x) => match b {
            Node::Float(y) => same_text(x.as_str(), y.as_str()),
            _ => false,
        },
        Node::Text(x) => match b {
            Node::Text(y) => same_text(x.as_str(), y.as_str()),
            _ => false,
        },
        Node::Bool(x) => match b {
            Node::Bool(y) => *x == *y,
            _ => false,
        },
        Node::Time(t1, z1) => match b {
            Node::Time(t2, z2) => *t1 == *t2 && *z1 == *z2,
            _ => false,
        },
        Node::Function(f) => match b {
            Node::Function(g) => *f == *g,
            _ => false,
        },
        Node::Regex(x) => match b {
            Node::Regex(y) => same_text(x.as_str(), y.as_str()),
            _ => false,
        },
        Node::List(xs) => match b {
            Node::List(ys) => {
                proof {
                    lemma_list_view(*xs);
                    lemma_list_view(*ys);
                }
                lists_equal(xs, ys)
            },
            _ => false,
        },
    }
}

/// Whether two lists are equal element by element.
fn lists_equal(xs: &Vec<Node>, ys: &Vec<Node>) -> (r: bool)
    ensures
        r == (views(xs@) == views(ys@)),
    decreases xs,
{
    if xs.len() != ys.len() {
        assert(views(xs@).len() != views(ys@).len());
        return false;
    }
    let mut i: usize = 0;
    while i < xs.len()
        invariant
            i <= xs.len(),
            xs.len() == ys.len(),
            forall|k: int| 0 <= k < i ==> #[trigger] views(xs@)[k] == views(ys@)[k],
        decreases xs.len() - i,
    {
        proof {
            vstd::std_specs::vec::axiom_vec_index_decreases(*xs, i as int);
        }
        if !test_equal(&xs[i], &ys[i]) {
            assert(views(xs@)[i as int] != views(ys@)[i as int]);
            return false;
        }
        i += 1;
    }
    assert(views(xs@) =~= views(ys@));
    true
}

/// Whether two values are of a variant that `=` compares.
pub open spec fn comparable(x: Datum, y: Datum) -> bool {
    (x is Number && y is Number) || (x is Text && y is Text) || (x is List && y is List) || (
    x is Bool && y is Bool) || (x is Symbol && y is Symbol) || (x is Float && y is Float) || (
    x is Time && y is Time)
}

pub open spec fn eq_spec(a: Seq<Datum>) -> Option<Datum> {
    if a.len() == 2 && comparable(a[0], a[1]) {
        Some(Datum::Bool(a[0] == a[1]))
    } else {
        None
    }
}

/// `(= a b)`: whether two values of the same comparable variant are equal.
pub fn fn_eq(arguments: &[Node]) -> (r: Result<Node, String>)
    ensures
        outcome(r) == eq_spec(views(arguments@)),
{
    if arguments.len() == 2 {
        let ok = match (&arguments[0], &arguments[1]) {
            (Node::Number(_), Node::Number(_)) => true,
            (Node::Text(_), Node::Text(_)) => true,
            (Node::List(_), Node::List(_)) => true,
            (Node::Bool(_), Node::Bool(_)) => true,
            (Node::Symbol(_), Node::Symbol(_)) => true,
            (Node::Float(_), Node::Float(_)) => true,
            (Node::Time(_, _), Node::Time(_, _)) => true,
            _ => false,
        };
        if ok {
            return Ok(Node::Bool(test_equal(&arguments[0], &arguments[1])));
        }
    }
    Err(invalid_arguments("="))
}

pub open spec fn compare_spec(a: Seq<Datum>, op: int) -> Option<Datum> {
    if two_numbers(a) {
        let x = a[0]->Number_0;
        let y = a[1]->Number_0;
        Some(
            Datum::Bool(
                if op == 0 {
                    x < y
                } else if op == 1 {
                    x > y
                } else if op == 2 {
                    x <= y
                } else {
                    x >= y
                },
            ),
        )
    } else {
        None
    }
}

fn compare_numbers(arguments: &[Node], op: u8, name: &str) -> (r: Result<Node, String>)
    requires
        op < 4,
    ensures
        outcome(r) == compare_spec(views(arguments@), op as int),
{
    if arguments.len() == 2 {
        if let Node::Number(x) = &arguments[0] {
            if let Node::Number(y) = &arguments[1] {
                let b = if op == 0 {
                    *x < *y
                } else if op == 1 {
                    *x > *y
                } else if op == 2 {
                    *x <= *y
                } else {
                    *x >= *y
                };
                return Ok(Node::Bool(b));
            }
        }
    }
    Err(invalid_arguments(name))
}

/// `(< a b)`.
pub fn fn_less_than(arguments: &[Node]) -> (r: Result<Node, String>)
    ensures
        outcome(r) == compare_spec(views(arguments@), 0),
{
    compare_numbers(arguments, 0, "<")
}

/// `(> a b)`.
pub fn fn_greater_than(arguments: &[Node]) -> (r: Result<Node, String>)
    ensures
        outcome(r) == compare_spec(views(arguments@), 1),
{
    compare_numbers(arguments, 1, ">")
}

/// `(<= a b)`.
pub fn fn_less_than_or_equal(arguments: &[Node]) -> (r: Result<Node, String>)
    ensures
        outcome(r) == compare_spec(views(arguments@), 2),
{
    compare_numbers(arguments, 2, "<=")
}

/// `(>= a b)`.
pub fn fn_greater_than_or_equal(arguments: &[Node]) -> (r: Result<Node, String>)
    ensures
        outcome(r) == compare_spec(views(arguments@), 3),
{
    compare_numbers(arguments, 3, ">=")
}

pub open spec fn not_spec(a: Seq<Datum>) -> Option<Datum> {
    if a.len() == 1 && a[0] is Bool {
        Some(Datum::Bool(!a[0]->Bool_0))
    } else {
        None
    }
}

/// `(not b)`.
pub fn fn_not(arguments: &[Node]) -> (r: Result<Node, String>)
    ensures
        outcome(r) == not_spec(views(arguments@)),
{
    if arguments.len() == 1 {
        if let Node::Bool(b) = &arguments[0] {
            return Ok(Node::Bool(!*b));
        }
    }
    Err(invalid_arguments("not"))
}

pub open spec fn logic_spec(a: Seq<Datum>, conj: bool) -> Option<Datum> {
    if a.len() == 2 && a[0] is Bool && a[1] is Bool {
        Some(
            Datum::Bool(
                if conj {
                    a[0]->Bool_0 && a[1]->Bool_0
                } else {
                    a[0]->Bool_0 || a[1]->Bool_0
                },
            ),
        )
    } else {
        None
    }
}

/// `(and a b)`.
pub fn fn_and(arguments: &[Node]) -> (r: Result<Node, String>)
    ensures
        outcome(r) == logic_spec(views(arguments@), true),
{
    if arguments.len() == 2 {
        if let Node::Bool(a) = &arguments[0] {
            if let Node::Bool(b) = &arguments[1] {
                return Ok(Node::Bool(*a && *b));
            }
        }
    }
    Err(invalid_arguments("and"))
}

/// `(or a b)`.
pub fn fn_or(arguments: &[Node]) -> (r: Result<Node, String>)
    ensures
        outcome(r) == logic_spec(views(arguments@), false),
{
    if arguments.len() == 2 {
        if let Node::Bool(a) = &arguments[0] {
            if let Node::Bool(b) = &arguments[1] {
                return Ok(Node::Bool(*a || *b));
            }
        }
    }
    Err(invalid_arguments("or"))
}

} // verus!
