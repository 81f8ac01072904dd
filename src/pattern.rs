use crate::node::{invalid_arguments, list_node, outcome, push_node, views, Datum, Node};
use vstd::prelude::*;

verus! {

/// Whether `text` contains a match of the regular expression `pattern`;
/// `None` when the pattern does not compile.
pub uninterp spec fn regex_finds(pattern: Seq<char>, text: Seq<char>) -> Option<bool>;

/// `text` with every match of `pattern` replaced by `with`, `$` groups
/// expanded; `None` when the pattern does not compile.
pub uninterp spec fn regex_replaced(pattern: Seq<char>, text: Seq<char>, with: Seq<char>) -> Option<Seq<char>>;

/// The pieces of `text` between the matches of `pattern`; `None` when the
/// pattern does not compile.
pub uninterp spec fn regex_pieces(pattern: Seq<char>, text: Seq<char>) -> Option<Seq<Seq<char>>>;

/// Relies on `regex::Regex::new` and `Regex::is_match`.
#[verifier::external_body]
fn find_match(pattern: &str, text: &str) -> (r: Option<bool>)
    ensures
        r == regex_finds(pattern@, text@),
{
    match regex::Regex::new(pattern) {
        Ok(re) => Some(re.is_match(text)),
        Err(_) => None,
    }
}

/// Relies on `regex::Regex::new` and `Regex::replace_all`.
#[verifier::external_body]
fn replace_matches(pattern: &str, text: &str, with: &str) -> (r: Option<String>)
    ensures
        r matches Some(s) ==> regex_replaced(pattern@, text@, with@) == Some(s@),
        r is None ==> regex_replaced(pattern@, text@, with@) is None,
{
    match regex::Regex::new(pattern) {
        Ok(re) => Some(re.replace_all(text, with).to_string()),
        Err(_) => None,
    }
}

/// Relies on `regex::Regex::new` and `Regex::split`.
#[verifier::external_body]
fn split_matches(pattern: &str, text: &str) -> (r: Option<Vec<String>>)
    ensures
        r matches Some(v) ==> regex_pieces(pattern@, text@) == Some(
            v@.map_values(|s: String| s@),
        ),
        r is None ==> regex_pieces(pattern@, text@) is None,
{
    match regex::Regex::new(pattern) {
        Ok(re) => Some(re.split(text).map(|s| s.to_string()).collect()),
        Err(_) => None,
    }
}

pub open spec fn regex_spec(a: Seq<Datum>) -> Option<Datum> {
    if a.len() == 1 && a[0] is Text {
        Some(Datum::Regex(a[0]->Text_0))
    } else {
        None
    }
}

/// `(regex source)`: a regular expression value; it is compiled when used.
pub fn fn_regex(arguments: &[Node]) -> (r: Result<Node, String>)
    ensures
        outcome(r) == regex_spec(views(arguments@)),
{
    if arguments.len() == 1 {
        if let Node::Text(s) = &arguments[0] {
            return Ok(Node::Regex(s.clone()));
        }
    }
    Err(invalid_arguments("regex"))
}

pub open spec fn regex_match_spec(a: Seq<Datum>) -> Option<Datum> {
    if a.len() == 2 && a[0] is Regex && a[1] is Text {
        match regex_finds(a[0]->Regex_0, a[1]->Text_0) {
            Some(b) => Some(Datum::Bool(b)),
            None => None,
        }
    } else {
        None
    }
}

/// `(regex-match r text)`: whether `text` contains a match of `r`.
pub fn fn_regex_match(arguments: &[Node]) -> (r: Result<Node, String>)
    ensures
        outcome(r) == regex_match_spec(views(arguments@)),
{
    if arguments.len() == 2 {
        if let Node::Regex(p) = &arguments[0] {
            if let Node::Text(t) = &arguments[1] {
                return match find_match(p.as_str(), t.as_str()) {
                    Some(b) => Ok(Node::Bool(b)),
                    None => Err(String::from_str("Invalid regex")),
                };
            }
        }
    }
    Err(invalid_arguments("regex-match"))
}

pub open spec fn regex_replace_spec(a: Seq<Datum>) -> Option<Datum> {
    if a.len() == 3 && a[0] is Regex && a[1] is Text && a[2] is Text {
        match regex_replaced(a[0]->Regex_0, a[1]->Text_0, a[2]->Text_0) {
            Some(s) => Some(Datum::Text(s)),
            None => None,
        }
    } else {
        None
    }
}

/// `(regex-replace r text replacement)`: every match replaced.
pub fn fn_regex_replace(arguments: &[Node]) -> (r: Result<Node, String>)
    ensures
        outcome(r) == regex_replace_spec(views(arguments@)),
{
    if arguments.len() == 3 {
        if let Node::Regex(p) = &arguments[0] {
            if let Node::Text(t) = &arguments[1] {
                if let Node::Text(w) = &arguments[2] {
                    return match replace_matches(p.as_str(), t.as_str(), w.as_str()) {
                        Some(s) => Ok(Node::Text(s)),
                        None => Err(String::from_str("Invalid regex")),
                    };
                }
            }
        }
    }
    Err(invalid_arguments("regex-replace"))
}

pub open spec fn regex_split_spec(a: Seq<Datum>) -> Option<Datum> {
    if a.len() == 2 && a[0] is Regex && a[1] is Text {
        match regex_pieces(a[0]->Regex_0, a[1]->Text_0) {
            Some(ps) => Some(Datum::List(ps.map_values(|p: Seq<char>| Datum::Text(p)))),
            None => None,
        }
    } else {
        None
    }
}

/// `(regex-split r text)`: the pieces of `text` between the matches.
pub fn fn_regex_split(arguments: &[Node]) -> (r: Result<Node, String>)
    ensures
        outcome(r) == regex_split_spec(views(arguments@)),
{
    if arguments.len() == 2 {
        if let Node::Regex(p) = &arguments[0] {
            if let Node::Text(t) = &arguments[1] {
                return match split_matches(p.as_str(), t.as_str()) {
                    Some(v) => {
                        let ghost ps = v@.map_values(|s: String| s@);
                        let mut out: Vec<Node> = Vec::new();
                        let mut i: usize = 0;
                        while i < v.len()
                            invariant
                                i <= v.len(),
                                ps == v@.map_values(|s: String| s@),
                                views(out@) =~= ps.map_values(|p: Seq<char>| Datum::Text(p)).subrange(0, i as int),
                            decreases v.len() - i,
                        {
                            push_node(&mut out, Node::Text(v[i].clone()));
                            i += 1;
                        }
                        assert(ps.map_values(|p: Seq<char>| Datum::Text(p)).subrange(0, i as int) =~= ps.map_values(|p: Seq<char>| Datum::Text(p)));
                        Ok(list_node(out))
                    },
                    None => Err(String::from_str("Invalid regex")),
                };
            }
        }
    }
    Err(invalid_arguments("regex-split"))
}

} // verus!
