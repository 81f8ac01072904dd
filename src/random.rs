use crate::node::{invalid_arguments, reply_of, views, Datum, Node};
use crate::text::chars_of;
use rand::Rng;
use vstd::prelude::*;

verus! {

/// Relies on `rand::random::<i64>`: any 64-bit integer.
#[verifier::external_body]
fn any_i64() -> (r: i64) {
    rand::random::<i64>()
}

/// Relies on `rand::random::<bool>`.
#[verifier::external_body]
fn any_bool() -> (r: bool) {
    rand::random::<bool>()
}

/// Relies on `Rng::random_range` over `lo..=hi`, which yields a value in the
/// range and panics only when it is empty.
#[verifier::external_body]
fn between(lo: i64, hi: i64) -> (r: i64)
    requires
        lo <= hi,
    ensures
        lo <= r <= hi,
{
    rand::rng().random_range(lo..=hi)
}

/// Relies on `Rng::random_range` over `0..n`, which yields a value in the
/// range and panics only when it is empty.
#[verifier::external_body]
fn below(n: usize) -> (r: usize)
    requires
        n > 0,
    ensures
        r < n,
{
    rand::rng().random_range(0..n)
}

/// Whether an outcome of `random-number` is allowed: any number with no
/// arguments, one in `0..=max`, or one in `min..=max`; an error otherwise.
pub open spec fn random_number_allows(a: Seq<Datum>, r: Result<Datum, Seq<char>>) -> bool {
    if a.len() == 0 {
        r matches Ok(Datum::Number(_))
    } else if a.len() == 1 && a[0] is Number && a[0]->Number_0 >= 0 {
        r matches Ok(Datum::Number(n)) && 0 <= n <= a[0]->Number_0
    } else if a.len() == 2 && a[0] is Number && a[1] is Number && a[0]->Number_0 <= a[1]->Number_0 {
        r matches Ok(Datum::Number(n)) && a[0]->Number_0 <= n <= a[1]->Number_0
    } else {
        r is Err
    }
}

/// Whether an outcome of `random-boolean` is allowed.
pub open spec fn random_boolean_allows(a: Seq<Datum>, r: Result<Datum, Seq<char>>) -> bool {
    if a.len() == 0 {
        r matches Ok(Datum::Bool(_))
    } else {
        r is Err
    }
}

/// Whether an outcome of `random-choice` is allowed: an element of the one
/// non-empty list argument; an error otherwise.
pub open spec fn random_choice_allows(a: Seq<Datum>, r: Result<Datum, Seq<char>>) -> bool {
    if a.len() == 1 && (a[0] matches Datum::List(l) && l.len() > 0) {
        r matches Ok(v) && a[0]->List_0.contains(v)
    } else {
        r is Err
    }
}

/// Whether an outcome of `random-letter` is allowed: one ASCII letter.
pub open spec fn random_letter_allows(a: Seq<Datum>, r: Result<Datum, Seq<char>>) -> bool {
    if a.len() == 0 {
        r matches Ok(Datum::Text(t)) && t.len() == 1 && letters().contains(t[0])
    } else {
        r is Err
    }
}

/// `(random-number)`, `(random-number max)`, `(random-number min max)`.
pub fn fn_random_number(arguments: &[Node]) -> (r: Result<Node, String>)
    ensures
        random_number_allows(views(arguments@), reply_of(r)),
{
    if arguments.len() == 0 {
        return Ok(Node::Number(any_i64()));
    }
    if arguments.len() == 1 {
        if let Node::Number(max) = &arguments[0] {
            if *max < 0 {
                return Err(String::from_str("Maximum value cannot be negative"));
            }
            return Ok(Node::Number(between(0, *max)));
        }
    }
    if arguments.len() == 2 {
        if let Node::Number(min) = &arguments[0] {
            if let Node::Number(max) = &arguments[1] {
                if *min > *max {
                    return Err(String::from_str("Minimum value cannot be greater than maximum value"));
                }
                return Ok(Node::Number(between(*min, *max)));
            }
        }
    }
    Err(invalid_arguments("random-number"))
}

/// `(random-boolean)`.
pub fn fn_random_boolean(arguments: &[Node]) -> (r: Result<Node, String>)
    ensures
        random_boolean_allows(views(arguments@), reply_of(r)),
{
    if arguments.len() == 0 {
        Ok(Node::Bool(any_bool()))
    } else {
        Err(invalid_arguments("random-boolean"))
    }
}

/// `(random-choice l)`: one element of a non-empty list.
pub fn fn_random_choice(arguments: &[Node]) -> (r: Result<Node, String>)
    ensures
        random_choice_allows(views(arguments@), reply_of(r)),
{
    if arguments.len() == 1 {
        if let Node::List(l) = &arguments[0] {
            proof {
                crate::node::lemma_list_view(*l);
            }
            if l.len() == 0 {
                return Err(String::from_str("Cannot choose from an empty list"));
            }
            let i = below(l.len());
            let v = l[i].duplicate();
            assert(views(l@)[i as int] == v@);
            return Ok(v);
        }
    }
    Err(invalid_arguments("random-choice"))
}

/// The letters a random letter or text is drawn from.
pub open spec fn letters() -> Seq<char> {
    "abcdefghijklmnopqrstuvwxyzABCDEFGHIJKLMNOPQRSTUVWXYZ"@
}

/// `(random-letter)`: one ASCII letter, as a text.
pub fn fn_random_letter(arguments: &[Node]) -> (r: Result<Node, String>)
    ensures
        random_letter_allows(views(arguments@), reply_of(r)),
{
    if arguments.len() == 0 {
        let cs = chars_of("abcdefghijklmnopqrstuvwxyzABCDEFGHIJKLMNOPQRSTUVWXYZ");
        proof {
            reveal_strlit("abcdefghijklmnopqrstuvwxyzABCDEFGHIJKLMNOPQRSTUVWXYZ");
        }
        let i = below(cs.len());
        let t = crate::text::string_of(&cs.as_slice()[i..i + 1]);
        assert(t@ =~= seq![cs@[i as int]]);
        return Ok(Node::Text(t));
    }
    Err(invalid_arguments("random-letter"))
}

} // verus!
