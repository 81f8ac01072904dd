use crate::lexer::{Lexeme, Token};
use crate::node::{invalid_arguments, lemma_list_view, list_node, outcome, views, Datum, Node};
use crate::parser::{describe, token_text};
use crate::text::{chars_of, string_of};
use vstd::prelude::*;

verus! {

/// The non-list values inside a value, left to right at any depth.
pub open spec fn leaves(d: Datum) -> Seq<Datum>
    decreases d, 1nat,
{
    match d {
        Datum::List(items) => leaves_of(items, items.len() as int),
        _ => seq![d],
    }
}

/// The leaves of the first `n` items.
pub open spec fn leaves_of(items: Seq<Datum>, n: int) -> Seq<Datum>
    decreases items, 0nat, n,
{
    if n <= 0 || n > items.len() {
        Seq::empty()
    } else {
        leaves_of(items, n - 1) + leaves(items[n - 1])
    }
}

fn collect_leaves(n: &Node, out: &mut Vec<Node>)
    ensures
        views(final(out)@) == views(old(out)@) + leaves(n@),
    decreases n, 1nat,
{
    match n {
        Node::List(items) => {
            proof {
                lemma_list_view(*items);
            }
            collect_leaves_of(items, items.len(), out);
        },
        _ => {
            crate::node::push_copy(out, n);
            assert(views(final(out)@) =~= views(old(out)@) + leaves(n@));
        },
    }
}

fn collect_leaves_of(items: &Vec<Node>, k: usize, out: &mut Vec<Node>)
    requires
        k <= items.len(),
    ensures
        views(final(out)@) == views(old(out)@) + leaves_of(views(items@), k as int),
    decreases items, 0nat, k,
{
    if k == 0 {
        assert(views(old(out)@) + leaves_of(views(items@), 0) =~= views(old(out)@));
        return;
    }
    proof {
        vstd::std_specs::vec::axiom_vec_index_decreases(*items, k - 1);
    }
    collect_leaves_of(items, k - 1, out);
    collect_leaves(&items[k - 1], out);
    assert(views(final(out)@) =~= views(old(out)@) + leaves_of(views(items@), k as int));
}

pub open spec fn leaves_spec(a: Seq<Datum>) -> Option<Datum> {
    if a.len() == 1 && a[0] is List {
        Some(Datum::List(leaves(a[0])))
    } else {
        None
    }
}

/// `(leaves l)`: the non-list values of a nested list, flattened in order.
pub fn fn_leaves(arguments: &[Node]) -> (r: Result<Node, String>)
    ensures
        outcome(r) == leaves_spec(views(arguments@)),
{
    if arguments.len() == 1 {
        if let Node::List(_) = &arguments[0] {
            let mut out: Vec<Node> = Vec::new();
            collect_leaves(&arguments[0], &mut out);
            assert(views(out@) =~= leaves(arguments@[0]@));
            return Ok(list_node(out));
        }
    }
    Err(invalid_arguments("leaves"))
}

/// How deeply lists nest in a value: 0 for a non-list, else one more than
/// its deepest element.
pub open spec fn depth(d: Datum) -> int
    decreases d, 1nat,
{
    match d {
        Datum::List(items) => 1 + deepest(items, items.len() as int),
        _ => 0,
    }
}

/// The greatest depth among the first `n` items, 0 if none.
pub open spec fn deepest(items: Seq<Datum>, n: int) -> int
    decreases items, 0nat, n,
{
    if n <= 0 || n > items.len() {
        0
    } else {
        let a = deepest(items, n - 1);
        let b = depth(items[n - 1]);
        if a >= b {
            a
        } else {
            b
        }
    }
}

proof fn lemma_depth_nonneg(d: Datum)
    ensures
        depth(d) >= 0,
    decreases d, 1nat,
{
    if let Datum::List(items) = d {
        lemma_deepest_nonneg(items, items.len() as int);
    }
}

proof fn lemma_deepest_nonneg(items: Seq<Datum>, n: int)
    ensures
        deepest(items, n) >= 0,
    decreases items, 0nat, n,
{
    if 0 < n <= items.len() {
        lemma_deepest_nonneg(items, n - 1);
    }
}

fn node_depth(n: &Node) -> (r: Option<i64>)
    ensures
        r matches Some(v) ==> v == depth(n@),
        r is None ==> depth(n@) > i64::MAX,
    decreases n, 1nat,
{
    proof {
        lemma_depth_nonneg(n@);
    }
    match n {
        Node::List(items) => {
            proof {
                lemma_list_view(*items);
            }
            match deepest_of(items, items.len()) {
                Some(m) => if m < 0x7FFF_FFFF_FFFF_FFFF {
                    Some(m + 1)
                } else {
                    None
                },
                None => None,
            }
        },
        _ => Some(0),
    }
}

fn deepest_of(items: &Vec<Node>, k: usize) -> (r: Option<i64>)
    requires
        k <= items.len(),
    ensures
        r matches Some(v) ==> v == deepest(views(items@), k as int),
        r is None ==> deepest(views(items@), k as int) > i64::MAX,
    decreases items, 0nat, k,
{
    if k == 0 {
        return Some(0);
    }
    proof {
        vstd::std_specs::vec::axiom_vec_index_decreases(*items, k - 1);
        lemma_deepest_nonneg(views(items@), k - 1);
        lemma_depth_nonneg(items@[k - 1]@);
    }
    match deepest_of(items, k - 1) {
        Some(a) => match node_depth(&items[k - 1]) {
            Some(b) => Some(if a >= b { a } else { b }),
            None => None,
        },
        None => None,
    }
}

pub open spec fn depth_spec(a: Seq<Datum>) -> Option<Datum> {
    if a.len() == 1 && a[0] is List && depth(a[0]) <= i64::MAX {
        Some(Datum::Number(depth(a[0]) as i64))
    } else {
        None
    }
}

/// `(depth l)`: how deeply lists nest in `l`, counting `l` itself.
pub fn fn_depth(arguments: &[Node]) -> (r: Result<Node, String>)
    ensures
        outcome(r) == depth_spec(views(arguments@)),
{
    if arguments.len() == 1 {
        if let Node::List(_) = &arguments[0] {
            return match node_depth(&arguments[0]) {
                Some(d) => Ok(Node::Number(d)),
                None => Err(String::from_str("Nesting too deep")),
            };
        }
    }
    Err(invalid_arguments("depth"))
}

/// `n` spaces.
pub open spec fn spaces(n: nat) -> Seq<char> {
    Seq::new(n, |i: int| ' ')
}

/// The lines of a value's tree at nesting `depth`: a list gives the lines of
/// its items one level deeper; any other value one line, indented by two
/// spaces a level, naming its kind and contents.
pub open spec fn tree_text(d: Datum, depth: nat) -> Seq<char>
    decreases d, 1nat,
{
    match d {
        Datum::List(items) => tree_items(items, items.len() as int, depth + 1),
        _ => spaces(2 * depth) + token_text(Lexeme::Atom(d)) + seq!['\n'],
    }
}

/// The lines of the first `n` items at nesting `depth`.
pub open spec fn tree_items(items: Seq<Datum>, n: int, depth: nat) -> Seq<char>
    decreases items, 0nat, n,
{
    if n <= 0 || n > items.len() {
        Seq::empty()
    } else {
        tree_items(items, n - 1, depth) + tree_text(items[n - 1], depth)
    }
}

fn write_tree(n: &Node, indent: &Vec<char>, out: &mut Vec<char>, depth: Ghost<nat>)
    requires
        indent@ == spaces(2 * depth@),
    ensures
        final(out)@ == old(out)@ + tree_text(n@, depth@),
    decreases n, 1nat,
{
    match n {
        Node::List(items) => {
            proof {
                lemma_list_view(*items);
            }
            let mut deeper = indent.clone();
            deeper.push(' ');
            deeper.push(' ');
            assert(deeper@ =~= spaces(2 * (depth@ + 1)));
            write_tree_items(items, items.len(), &deeper, out, Ghost(depth@ + 1));
        },
        _ => {
            let mut k: usize = 0;
            while k < indent.len()
                invariant
                    k <= indent.len(),
                    out@ == old(out)@ + indent@.subrange(0, k as int),
                decreases indent.len() - k,
            {
                out.push(indent[k]);
                k += 1;
                assert(out@ =~= old(out)@ + indent@.subrange(0, k as int));
            }
            let t = describe(&Token::Atom(n.duplicate()));
            let cs = chars_of(t.as_str());
            let mut j: usize = 0;
            let ghost mid = out@;
            while j < cs.len()
                invariant
                    j <= cs.len(),
                    out@ == mid + cs@.subrange(0, j as int),
                decreases cs.len() - j,
            {
                out.push(cs[j]);
                j += 1;
                assert(out@ =~= mid + cs@.subrange(0, j as int));
            }
            out.push('\n');
            assert(indent@.subrange(0, k as int) =~= indent@);
            assert(cs@.subrange(0, j as int) =~= cs@);
            assert(final(out)@ =~= old(out)@ + tree_text(n@, depth@));
        },
    }
}

fn write_tree_items(items: &Vec<Node>, k: usize, indent: &Vec<char>, out: &mut Vec<char>, depth: Ghost<nat>)
    requires
        k <= items.len(),
        indent@ == spaces(2 * depth@),
    ensures
        final(out)@ == old(out)@ + tree_items(views(items@), k as int, depth@),
    decreases items, 0nat, k,
{
    if k == 0 {
        assert(old(out)@ + tree_items(views(items@), 0, depth@) =~= old(out)@);
        return;
    }
    proof {
        vstd::std_specs::vec::axiom_vec_index_decreases(*items, k - 1);
    }
    write_tree_items(items, k - 1, indent, out, depth);
    write_tree(&items[k - 1], indent, out, depth);
    assert(final(out)@ =~= old(out)@ + tree_items(views(items@), k as int, depth@));
}

pub open spec fn format_tree_spec(a: Seq<Datum>) -> Option<Datum> {
    if a.len() == 1 && a[0] is List {
        Some(Datum::Text(tree_text(a[0], 0)))
    } else {
        None
    }
}

/// `(format-tree l)`: one line for each non-list value inside `l`, indented
/// by two spaces for each level of nesting.
pub fn fn_format_tree(arguments: &[Node]) -> (r: Result<Node, String>)
    ensures
        outcome(r) == format_tree_spec(views(arguments@)),
{
    if arguments.len() == 1 {
        if let Node::List(_) = &arguments[0] {
            let mut out: Vec<char> = Vec::new();
            let indent: Vec<char> = Vec::new();
            assert(indent@ =~= spaces(0));
            write_tree(&arguments[0], &indent, &mut out, Ghost(0));
            assert(out@ =~= tree_text(arguments@[0]@, 0));
            return Ok(Node::Text(string_of(out.as_slice())));
        }
    }
    Err(invalid_arguments("format-tree"))
}

} // verus!
