use crate::conversion::{concat_texts, joined_texts, one_text, single_text};
use crate::eval::variant_text;
use crate::node::{invalid_arguments, outcome, views, Datum, Node};
use crate::semantics::{is_closure, variant_name};
use crate::text::{chars_of, string_of};
use vstd::prelude::*;

verus! {

/// The `application/x-www-form-urlencoded` encoding of a text's UTF-8 bytes.
pub uninterp spec fn form_encoded(s: Seq<char>) -> Seq<char>;

/// The name and value pairs that a form-encoded text decodes to, in order.
pub uninterp spec fn form_pairs(s: Seq<char>) -> Seq<(Seq<char>, Seq<char>)>;

/// Relies on `url::form_urlencoded::byte_serialize`.
#[verifier::external_body]
fn url_encode(s: &str) -> (r: String)
    ensures
        r@ == form_encoded(s@),
{
    url::form_urlencoded::byte_serialize(s.as_bytes()).collect()
}

/// Relies on `url::form_urlencoded::parse`.
#[verifier::external_body]
fn url_pairs(s: &str) -> (r: Vec<(String, String)>)
    ensures
        r@.map_values(|p: (String, String)| (p.0@, p.1@)) == form_pairs(s@),
{
    url::form_urlencoded::parse(s.as_bytes()).map(|(k, v)| (k.into_owned(), v.into_owned())).collect()
}

pub open spec fn url_encode_spec(a: Seq<Datum>) -> Option<Datum> {
    if one_text(a) {
        Some(Datum::Text(form_encoded(a[0]->Text_0)))
    } else {
        None
    }
}

/// `(url-encode s)`: the form encoding of a text.
pub fn fn_url_encode(arguments: &[Node]) -> (r: Result<Node, String>)
    ensures
        outcome(r) == url_encode_spec(views(arguments@)),
{
    match single_text(arguments) {
        Some(s) => Ok(Node::Text(url_encode(s.as_str()))),
        None => Err(invalid_arguments("url-encode")),
    }
}

/// The first `n` pairs written `name=value`, joined by `&`.
pub open spec fn pairs_text(ps: Seq<(Seq<char>, Seq<char>)>, n: int) -> Seq<char>
    decreases n,
{
    if n <= 0 || n > ps.len() {
        Seq::empty()
    } else if n == 1 {
        ps[0].0 + seq!['='] + ps[0].1
    } else {
        pairs_text(ps, n - 1) + seq!['&'] + ps[n - 1].0 + seq!['='] + ps[n - 1].1
    }
}

pub open spec fn url_decode_spec(a: Seq<Datum>) -> Option<Datum> {
    if one_text(a) {
        let ps = form_pairs(a[0]->Text_0);
        Some(Datum::Text(pairs_text(ps, ps.len() as int)))
    } else {
        None
    }
}

fn push_all(out: &mut Vec<char>, s: &String)
    ensures
        final(out)@ == old(out)@ + s@,
{
    let cs = chars_of(s.as_str());
    let mut i: usize = 0;
    while i < cs.len()
        invariant
            i <= cs.len(),
            out@ == old(out)@ + cs@.subrange(0, i as int),
        decreases cs.len() - i,
    {
        out.push(cs[i]);
        i += 1;
        assert(out@ =~= old(out)@ + cs@.subrange(0, i as int));
    }
    assert(cs@.subrange(0, i as int) =~= cs@);
}

/// `(url-decode s)`: the decoded pairs of a form-encoded text, written
/// `name=value` and joined by `&`.
pub fn fn_url_decode(arguments: &[Node]) -> (r: Result<Node, String>)
    ensures
        outcome(r) == url_decode_spec(views(arguments@)),
{
    match single_text(arguments) {
        Some(s) => {
            let pairs = url_pairs(s.as_str());
            let ghost ps = pairs@.map_values(|p: (String, String)| (p.0@, p.1@));
            let mut out: Vec<char> = Vec::new();
            let mut i: usize = 0;
            while i < pairs.len()
                invariant
                    i <= pairs.len(),
                    ps == pairs@.map_values(|p: (String, String)| (p.0@, p.1@)),
                    out@ == pairs_text(ps, i as int),
                decreases pairs.len() - i,
            {
                if i > 0 {
                    out.push('&');
                }
                push_all(&mut out, &pairs[i].0);
                out.push('=');
                push_all(&mut out, &pairs[i].1);
                i += 1;
                assert(out@ =~= pairs_text(ps, i as int));
            }
            Ok(Node::Text(string_of(out.as_slice())))
        },
        None => Err(invalid_arguments("url-decode")),
    }
}

/// `(version)`: the interpreter's name and version.
pub fn fn_version(arguments: &[Node]) -> (r: Result<Node, String>)
    ensures
        outcome(r) == Some(Datum::Text("Lich version 0.1.0"@)),
{
    Ok(Node::Text(String::from_str("Lich version 0.1.0")))
}

/// `(format x ...)`: the texts of the arguments, one after another.
pub fn fn_format(arguments: &[Node]) -> (r: Result<Node, String>)
    ensures
        outcome(r) == Some(Datum::Text(joined_texts(views(arguments@), arguments.len() as int))),
{
    Ok(Node::Text(concat_texts(arguments)))
}

pub open spec fn type_spec(a: Seq<Datum>) -> Option<Datum> {
    if a.len() == 1 {
        Some(Datum::Text(variant_name(a[0])))
    } else {
        None
    }
}

/// `(type x)`: the name of a value's variant.
pub fn fn_type(arguments: &[Node]) -> (r: Result<Node, String>)
    ensures
        outcome(r) == type_spec(views(arguments@)),
{
    if arguments.len() == 1 {
        return Ok(Node::Text(variant_text(&arguments[0])));
    }
    Err(invalid_arguments("type"))
}

/// `(true)`: the value true.
pub fn fn_true(arguments: &[Node]) -> (r: Result<Node, String>)
    ensures
        outcome(r) == Some(Datum::Bool(true)),
{
    Ok(Node::Bool(true))
}

/// `(false)`: the value false.
pub fn fn_false(arguments: &[Node]) -> (r: Result<Node, String>)
    ensures
        outcome(r) == Some(Datum::Bool(false)),
{
    Ok(Node::Bool(false))
}

/// What a one-argument predicate on values says: a boolean for exactly one argument.
pub open spec fn test_spec(a: Seq<Datum>, b: bool) -> Option<Datum> {
    if a.len() == 1 {
        Some(Datum::Bool(b))
    } else {
        None
    }
}

/// `(text? x)`.
pub fn fn_is_text(arguments: &[Node]) -> (r: Result<Node, String>)
    ensures
        outcome(r) == test_spec(views(arguments@), arguments.len() == 1 && views(arguments@)[0] is Text),
{
    if arguments.len() == 1 {
        return Ok(Node::Bool(matches!(&arguments[0], Node::Text(_))));
    }
    Err(invalid_arguments("text?"))
}

/// `(number?  x)`.
pub fn fn_is_number(arguments: &[Node]) -> (r: Result<Node, String>)
    ensures
        outcome(r) == test_spec(views(arguments@), arguments.len() == 1 && views(arguments@)[0] is Number),
{
    if arguments.len() == 1 {
        return Ok(Node::Bool(matches!(&arguments[0], Node::Number(_))));
    }
    Err(invalid_arguments("number?"))
}

/// `(symbol? x)`.
pub fn fn_is_symbol(arguments: &[Node]) -> (r: Result<Node, String>)
    ensures
        outcome(r) == test_spec(views(arguments@), arguments.len() == 1 && views(arguments@)[0] is Symbol),
{
    if arguments.len() == 1 {
        return Ok(Node::Bool(matches!(&arguments[0], Node::Symbol(_))));
    }
    Err(invalid_arguments("symbol?"))
}

/// `(list? x)`.
pub fn fn_is_lparen(arguments: &[Node]) -> (r: Result<Node, String>)
    ensures
        outcome(r) == test_spec(views(arguments@), arguments.len() == 1 && views(arguments@)[0] is List),
{
    if arguments.len() == 1 {
        return Ok(Node::Bool(matches!(&arguments[0], Node::List(_))));
    }
    Err(invalid_arguments("list?"))
}

/// `(atom? x)`: whether `x` is not a list.
pub fn fn_is_atom(arguments: &[Node]) -> (r: Result<Node, String>)
    ensures
        outcome(r) == test_spec(views(arguments@), arguments.len() == 1 && !(views(arguments@)[0] is List)),
{
    if arguments.len() == 1 {
        return Ok(Node::Bool(!matches!(&arguments[0], Node::List(_))));
    }
    Err(invalid_arguments("atom?"))
}

/// `(lambda? x)`: whether `x` is a closure-shaped list.
pub fn fn_is_lambda(arguments: &[Node]) -> (r: Result<Node, String>)
    ensures
        outcome(r) == test_spec(
            views(arguments@),
            arguments.len() == 1 && (views(arguments@)[0] matches Datum::List(parts) && is_closure(parts)),
        ),
{
    if arguments.len() == 1 {
        if let Node::List(parts) = &arguments[0] {
            proof {
                crate::node::lemma_list_view(*parts);
            }
            if parts.len() == 3 {
                let head = match &parts[0] {
                    Node::Symbol(s) => crate::environment::same_text(s.as_str(), "lambda"),
                    _ => false,
                };
                let params = matches!(&parts[1], Node::List(_));
                return Ok(Node::Bool(head && params));
            }
            return Ok(Node::Bool(false));
        }
        return Ok(Node::Bool(false));
    }
    Err(invalid_arguments("lambda?"))
}

/// The place of a colour name among the eight terminal colours.
pub open spec fn color_index(name: Seq<char>) -> Option<int> {
    if name == "black"@ {
        Some(0)
    } else if name == "red"@ {
        Some(1)
    } else if name == "green"@ {
        Some(2)
    } else if name == "yellow"@ {
        Some(3)
    } else if name == "blue"@ {
        Some(4)
    } else if name == "magenta"@ {
        Some(5)
    } else if name == "cyan"@ {
        Some(6)
    } else if name == "white"@ {
        Some(7)
    } else {
        None
    }
}

/// The terminal escape sequence that sets a named colour for the text, or
/// with `background` for the background; `None` for an unknown name.
pub open spec fn color_code_spec(name: Seq<char>, background: bool) -> Option<Seq<char>> {
    match color_index(name) {
        Some(i) => Some(seq!['\u{1b}', '[', if background { '4' } else { '3' }, crate::text::digit_char(i), 'm']),
        None => None,
    }
}

/// The escape sequence that sets a named terminal colour.
pub fn color_code(name: &str, background: bool) -> (r: Option<String>)
    ensures
        r matches Some(c) ==> color_code_spec(name@, background) == Some(c@),
        r is None ==> color_code_spec(name@, background) is None,
{
    let d: char = if crate::environment::same_text(name, "black") {
        '0'
    } else if crate::environment::same_text(name, "red") {
        '1'
    } else if crate::environment::same_text(name, "green") {
        '2'
    } else if crate::environment::same_text(name, "yellow") {
        '3'
    } else if crate::environment::same_text(name, "blue") {
        '4'
    } else if crate::environment::same_text(name, "magenta") {
        '5'
    } else if crate::environment::same_text(name, "cyan") {
        '6'
    } else if crate::environment::same_text(name, "white") {
        '7'
    } else {
        return None;
    };
    let mut out: Vec<char> = Vec::new();
    out.push('\u{1b}');
    out.push('[');
    out.push(if background { '4' } else { '3' });
    out.push(d);
    out.push('m');
    proof {
        assert(out@ =~= color_code_spec(name@, background)->Some_0);
    }
    Some(string_of(out.as_slice()))
}

} // verus!
