use crate::conversion::{one_text, single_text};
use crate::lexer::is_space;
use crate::node::{
    invalid_arguments, lemma_list_view, list_node, outcome, push_node, views, Datum, Node,
};
use crate::text::{chars_of, string_of};
use vstd::prelude::*;
use vstd::string::StringSliceAdditionalSpecFns;
use vstd::utf8::{decode_utf8, encode_utf8};

verus! {

/// The pieces of `text` between the occurrences of `delim`.
pub uninterp spec fn split_by(text: Seq<char>, delim: Seq<char>) -> Seq<Seq<char>>;

/// `s` without its leading whitespace.
pub open spec fn trim_start(s: Seq<char>) -> Seq<char>
    decreases s.len(),
{
    if s.len() > 0 && is_space(s[0]) {
        trim_start(s.drop_first())
    } else {
        s
    }
}

/// `s` without its trailing whitespace.
pub open spec fn trim_end(s: Seq<char>) -> Seq<char>
    decreases s.len(),
{
    if s.len() > 0 && is_space(s.last()) {
        trim_end(s.drop_last())
    } else {
        s
    }
}

/// `s` without leading and trailing whitespace (the characters with
/// Unicode's White_Space property).
pub open spec fn trimmed(s: Seq<char>) -> Seq<char> {
    trim_end(trim_start(s))
}

/// The first index from `i` on at which the bytes `p` occur in `b`.
pub open spec fn first_at(b: Seq<u8>, p: Seq<u8>, i: int) -> Option<int>
    decreases b.len() + 1 - i,
{
    if i < 0 || i + p.len() > b.len() {
        None
    } else if b.subrange(i, i + p.len()) == p {
        Some(i)
    } else {
        first_at(b, p, i + 1)
    }
}

/// The byte index of the first occurrence of `pat` in `text`, if any: the
/// least index at which `pat`'s UTF-8 encoding occurs in `text`'s.
pub open spec fn find_in(text: Seq<char>, pat: Seq<char>) -> Option<int> {
    first_at(encode_utf8(text), encode_utf8(pat), 0)
}

/// `text` with every occurrence of `from` replaced by `to`.
pub uninterp spec fn replaced(text: Seq<char>, from: Seq<char>, to: Seq<char>) -> Seq<char>;

/// The upper-case form of a text.
pub uninterp spec fn upper_of(s: Seq<char>) -> Seq<char>;

/// The lower-case form of a text.
pub uninterp spec fn lower_of(s: Seq<char>) -> Seq<char>;

/// The lines of a text, without their line endings.
pub uninterp spec fn lines_of(s: Seq<char>) -> Seq<Seq<char>>;

/// The texts of a sequence of strings.
pub open spec fn texts_of(v: Seq<String>) -> Seq<Seq<char>> {
    v.map_values(|s: String| s@)
}

/// Relies on `str::split` with a string pattern: the pieces, in order.
#[verifier::external_body]
fn split_text(text: &str, delim: &str) -> (r: Vec<String>)
    ensures
        texts_of(r@) == split_by(text@, delim@),
{
    text.split(delim).map(|s| s.to_string()).collect()
}

/// Relies on `str::trim`: leading and trailing White_Space removed.
#[verifier::external_body]
fn trim_text(s: &str) -> (r: String)
    ensures
        r@ == trimmed(s@),
{
    s.trim().to_string()
}

/// Relies on `str::find` with a string pattern: the byte index of the first match.
#[verifier::external_body]
fn find_text(text: &str, pat: &str) -> (r: Option<usize>)
    ensures
        r matches Some(i) ==> find_in(text@, pat@) == Some(i as int),
        r is None ==> find_in(text@, pat@) is None,
{
    text.find(pat)
}

/// Relies on `str::replace`.
#[verifier::external_body]
fn replace_text(text: &str, from: &str, to: &str) -> (r: String)
    ensures
        r@ == replaced(text@, from@, to@),
{
    text.replace(from, to)
}

/// Relies on `str::to_uppercase`; the empty text stays empty.
#[verifier::external_body]
fn uppercase(s: &str) -> (r: String)
    ensures
        r@ == upper_of(s@),
        s@.len() == 0 ==> r@.len() == 0,
{
    s.to_uppercase()
}

/// Relies on `str::to_lowercase`; the empty text stays empty.
#[verifier::external_body]
fn lowercase(s: &str) -> (r: String)
    ensures
        r@ == lower_of(s@),
        s@.len() == 0 ==> r@.len() == 0,
{
    s.to_lowercase()
}

/// Relies on `str::lines`.
#[verifier::external_body]
fn text_lines(s: &str) -> (r: Vec<String>)
    ensures
        texts_of(r@) == lines_of(s@),
{
    s.lines().map(|l| l.to_string()).collect()
}

/// Texts as a list of text nodes.
fn text_list(v: Vec<String>) -> (r: Node)
    ensures
        r@ == Datum::List(texts_of(v@).map_values(|t: Seq<char>| Datum::Text(t))),
{
    let mut out: Vec<Node> = Vec::new();
    let mut i: usize = 0;
    while i < v.len()
        invariant
            i <= v.len(),
            views(out@) =~= texts_of(v@).map_values(|t: Seq<char>| Datum::Text(t)).subrange(0, i as int),
        decreases v.len() - i,
    {
        push_node(&mut out, Node::Text(v[i].clone()));
        i += 1;
    }
    assert(texts_of(v@).map_values(|t: Seq<char>| Datum::Text(t)).subrange(0, i as int) =~= texts_of(
        v@,
    ).map_values(|t: Seq<char>| Datum::Text(t)));
    list_node(out)
}

/// Text nodes for each text.
pub open spec fn text_nodes(ts: Seq<Seq<char>>) -> Seq<Datum> {
    ts.map_values(|t: Seq<char>| Datum::Text(t))
}

/// Whether every argument is a list.
pub open spec fn all_lists(a: Seq<Datum>) -> bool {
    forall|i: int| 0 <= i < a.len() ==> #[trigger] a[i] is List
}

/// Whether every argument is a text.
pub open spec fn all_texts(a: Seq<Datum>) -> bool {
    forall|i: int| 0 <= i < a.len() ==> #[trigger] a[i] is Text
}

/// The elements of the first `n` lists, one list after another.
pub open spec fn flat_lists(a: Seq<Datum>, n: int) -> Seq<Datum>
    decreases n,
{
    if n <= 0 || n > a.len() {
        Seq::empty()
    } else {
        flat_lists(a, n - 1) + a[n - 1]->List_0
    }
}

/// The characters of the first `n` texts, one after another.
pub open spec fn flat_texts(a: Seq<Datum>, n: int) -> Seq<char>
    decreases n,
{
    if n <= 0 || n > a.len() {
        Seq::empty()
    } else {
        flat_texts(a, n - 1) + a[n - 1]->Text_0
    }
}

pub open spec fn concat_spec(a: Seq<Datum>) -> Option<Datum> {
    if a.len() > 0 && a[0] is List && all_lists(a) {
        Some(Datum::List(flat_lists(a, a.len() as int)))
    } else if a.len() > 0 && a[0] is Text && all_texts(a) {
        Some(Datum::Text(flat_texts(a, a.len() as int)))
    } else {
        None
    }
}

/// `(concat x ...)`: lists joined into one list, or texts into one text; all
/// arguments must be of the first one's kind.
pub fn fn_concat(arguments: &[Node]) -> (r: Result<Node, String>)
    ensures
        outcome(r) == concat_spec(views(arguments@)),
{
    if arguments.len() == 0 {
        return Err(invalid_arguments("concat"));
    }
    if let Node::List(_) = &arguments[0] {
        let mut out: Vec<Node> = Vec::new();
        let mut i: usize = 0;
        while i < arguments.len()
            invariant
                i <= arguments.len(),
                arguments.len() > 0,
                all_lists(views(arguments@).subrange(0, i as int)),
                views(arguments@)[0] is List,
                views(out@) == flat_lists(views(arguments@), i as int),
            decreases arguments.len() - i,
        {
            if let Node::List(l) = &arguments[i] {
                proof {
                    lemma_list_view(*l);
                }
                crate::node::extend_copies(&mut out, l.as_slice());
                i += 1;
                assert(all_lists(views(arguments@).subrange(0, i as int)));
            } else {
                assert(!(views(arguments@)[i as int] is List));
                assert(!all_lists(views(arguments@)));
                return Err(String::from_str("Arguments to `concat` must all be of the same type"));
            }
        }
        assert(views(arguments@).subrange(0, i as int) =~= views(arguments@));
        return Ok(list_node(out));
    }
    if let Node::Text(_) = &arguments[0] {
        let mut out: Vec<char> = Vec::new();
        let mut i: usize = 0;
        while i < arguments.len()
            invariant
                i <= arguments.len(),
                arguments.len() > 0,
                all_texts(views(arguments@).subrange(0, i as int)),
                views(arguments@)[0] is Text,
                out@ == flat_texts(views(arguments@), i as int),
            decreases arguments.len() - i,
        {
            if let Node::Text(t) = &arguments[i] {
                let cs = chars_of(t.as_str());
                let mut k: usize = 0;
                let ghost before = out@;
                while k < cs.len()
                    invariant
                        k <= cs.len(),
                        out@ == before + cs@.subrange(0, k as int),
                    decreases cs.len() - k,
                {
                    out.push(cs[k]);
                    k += 1;
                    assert(out@ =~= before + cs@.subrange(0, k as int));
                }
                assert(cs@.subrange(0, k as int) =~= cs@);
                i += 1;
                assert(all_texts(views(arguments@).subrange(0, i as int)));
            } else {
                assert(!(views(arguments@)[i as int] is Text));
                assert(!all_texts(views(arguments@)));
                return Err(String::from_str("Arguments to `concat` must all be of the same type"));
            }
        }
        assert(views(arguments@).subrange(0, i as int) =~= views(arguments@));
        return Ok(Node::Text(string_of(out.as_slice())));
    }
    Err(invalid_arguments("concat"))
}

/// The texts of a list's text elements, others left out.
pub open spec fn text_elements(l: Seq<Datum>) -> Seq<Seq<char>> {
    l.filter(|d: Datum| d is Text).map_values(|d: Datum| d->Text_0)
}

/// Texts with `sep` between each two.
pub open spec fn joined(ts: Seq<Seq<char>>, sep: Seq<char>) -> Seq<char>
    decreases ts.len(),
{
    if ts.len() == 0 {
        Seq::empty()
    } else if ts.len() == 1 {
        ts[0]
    } else {
        joined(ts.drop_last(), sep) + sep + ts.last()
    }
}

pub open spec fn two_texts(a: Seq<Datum>) -> bool {
    a.len() == 2 && a[0] is Text && a[1] is Text
}

pub open spec fn split_spec(a: Seq<Datum>) -> Option<Datum> {
    if two_texts(a) {
        Some(Datum::List(text_nodes(split_by(a[1]->Text_0, a[0]->Text_0))))
    } else {
        None
    }
}

/// `(split delimiter text)`: the pieces of `text` between the delimiters.
pub fn fn_split(arguments: &[Node]) -> (r: Result<Node, String>)
    ensures
        outcome(r) == split_spec(views(arguments@)),
{
    if arguments.len() == 2 {
        if let Node::Text(d) = &arguments[0] {
            if let Node::Text(t) = &arguments[1] {
                return Ok(text_list(split_text(t.as_str(), d.as_str())));
            }
        }
    }
    Err(invalid_arguments("split"))
}

pub open spec fn strip_spec(a: Seq<Datum>) -> Option<Datum> {
    if one_text(a) {
        Some(Datum::Text(trimmed(a[0]->Text_0)))
    } else {
        None
    }
}

/// `(strip s)`: `s` without surrounding whitespace.
pub fn fn_strip(arguments: &[Node]) -> (r: Result<Node, String>)
    ensures
        outcome(r) == strip_spec(views(arguments@)),
{
    match single_text(arguments) {
        Some(s) => Ok(Node::Text(trim_text(s.as_str()))),
        None => Err(invalid_arguments("strip")),
    }
}

pub open spec fn join_spec(a: Seq<Datum>) -> Option<Datum> {
    if a.len() == 2 && a[0] is Text && a[1] is List {
        Some(Datum::Text(joined(text_elements(a[1]->List_0), a[0]->Text_0)))
    } else {
        None
    }
}

/// `(join separator list)`: the list's texts with the separator between
/// each two; elements that are not texts are left out.
pub fn fn_join(arguments: &[Node]) -> (r: Result<Node, String>)
    ensures
        outcome(r) == join_spec(views(arguments@)),
{
    if arguments.len() == 2 {
        if let Node::Text(sep) = &arguments[0] {
            if let Node::List(l) = &arguments[1] {
                proof {
                    lemma_list_view(*l);
                }
                let sep_chars = chars_of(sep.as_str());
                let mut out: Vec<char> = Vec::new();
                let mut count: usize = 0;
                let mut i: usize = 0;
                let ghost items = views(l@);
                while i < l.len()
                    invariant
                        i <= l.len(),
                        items == views(l@),
                        sep_chars@ == sep@,
                        count as int == text_elements(items.subrange(0, i as int)).len(),
                        out@ == joined(text_elements(items.subrange(0, i as int)), sep@),
                    decreases l.len() - i,
                {
                    proof {
                        assert(items.subrange(0, i + 1).drop_last() =~= items.subrange(0, i as int));
                        reveal(Seq::filter);
                    }
                    if let Node::Text(t) = &l[i] {
                        let ghost prev = text_elements(items.subrange(0, i as int));
                        if count > 0 {
                            let mut k: usize = 0;
                            let ghost before = out@;
                            while k < sep_chars.len()
                                invariant
                                    k <= sep_chars.len(),
                                    out@ == before + sep_chars@.subrange(0, k as int),
                                decreases sep_chars.len() - k,
                            {
                                out.push(sep_chars[k]);
                                k += 1;
                                assert(out@ =~= before + sep_chars@.subrange(0, k as int));
                            }
                            assert(sep_chars@.subrange(0, k as int) =~= sep_chars@);
                        }
                        let cs = chars_of(t.as_str());
                        let mut k: usize = 0;
                        let ghost before = out@;
                        while k < cs.len()
                            invariant
                                k <= cs.len(),
                                out@ == before + cs@.subrange(0, k as int),
                            decreases cs.len() - k,
                        {
                            out.push(cs[k]);
                            k += 1;
                            assert(out@ =~= before + cs@.subrange(0, k as int));
                        }
                        proof {
                            assert(cs@.subrange(0, k as int) =~= cs@);
                            let now = text_elements(items.subrange(0, i + 1));
                            assert(now =~= prev.push(t@));
                            assert(now.drop_last() =~= prev);
                            if count == 0 {
                                assert(out@ =~= joined(now, sep@));
                            }
                        }
                        count += 1;
                    } else {
                        proof {
                            assert(text_elements(items.subrange(0, i + 1)) =~= text_elements(items.subrange(0, i as int)));
                        }
                    }
                    i += 1;
                }
                proof {
                    assert(items.subrange(0, i as int) =~= items);
                }
                return Ok(Node::Text(string_of(out.as_slice())));
            }
        }
    }
    Err(invalid_arguments("join"))
}

pub open spec fn index_of_spec(a: Seq<Datum>) -> Option<Datum> {
    if two_texts(a) {
        match find_in(a[1]->Text_0, a[0]->Text_0) {
            Some(i) => if i <= i64::MAX {
                Some(Datum::Number(i as i64))
            } else {
                None
            },
            None => None,
        }
    } else {
        None
    }
}

/// `(index-of pattern text)`: the byte index of the first occurrence; an
/// error when there is none.
pub fn fn_index_of(arguments: &[Node]) -> (r: Result<Node, String>)
    ensures
        outcome(r) == index_of_spec(views(arguments@)),
{
    if arguments.len() == 2 {
        if let Node::Text(p) = &arguments[0] {
            if let Node::Text(t) = &arguments[1] {
                return match find_text(t.as_str(), p.as_str()) {
                    Some(i) => if (i as u64) <= 0x7FFF_FFFF_FFFF_FFFF {
                        Ok(Node::Number(i as i64))
                    } else {
                        Err(String::from_str("Index is too large for a Number"))
                    },
                    None => Err(String::from_str("Substring not found")),
                };
            }
        }
    }
    Err(invalid_arguments("index-of"))
}

/// Whether the byte range `[start, end)` of `t`'s encoding falls on character boundaries.
pub open spec fn byte_range_ok(t: Seq<char>, start: int, end: int) -> bool {
    let b = encode_utf8(t);
    &&& 0 <= start <= end <= b.len()
    &&& vstd::utf8::is_char_boundary(b, start)
    &&& vstd::utf8::is_char_boundary(b.subrange(start, b.len() as int), end - start)
}

pub open spec fn substring_spec(a: Seq<Datum>) -> Option<Datum> {
    if a.len() == 3 && a[0] is Text && a[1] is Number && a[2] is Number {
        let t = a[0]->Text_0;
        let s = a[1]->Number_0 as int;
        let e = a[2]->Number_0 as int;
        if byte_range_ok(t, s, e) {
            Some(Datum::Text(decode_utf8(encode_utf8(t).subrange(s, e))))
        } else {
            None
        }
    } else {
        None
    }
}

/// `(substring text start end)`: the text between two byte indexes, which
/// must fall on character boundaries.
pub fn fn_substring(arguments: &[Node]) -> (r: Result<Node, String>)
    ensures
        outcome(r) == substring_spec(views(arguments@)),
{
    if arguments.len() == 3 {
        if let Node::Text(t) = &arguments[0] {
            if let Node::Number(s) = &arguments[1] {
                if let Node::Number(e) = &arguments[2] {
                    let text = t.as_str();
                    let len = text.as_bytes().len();
                    if *s < 0 || *e < *s || *e as u64 > len as u64 {
                        return Err(String::from_str("Invalid substring range"));
                    }
                    let start = *s as usize;
                    let end = *e as usize;
                    if !text.is_char_boundary(start) {
                        return Err(String::from_str("Invalid substring range"));
                    }
                    let (_, rest) = text.split_at(start);
                    if !rest.is_char_boundary(end - start) {
                        return Err(String::from_str("Invalid substring range"));
                    }
                    let (piece, _) = rest.split_at(end - start);
                    proof {
                        vstd::utf8::encode_utf8_decode_utf8(piece@);
                        assert(piece.spec_bytes() =~= encode_utf8(t@).subrange(start as int, end as int));
                    }
                    return Ok(Node::Text(piece.to_owned()));
                }
            }
        }
    }
    Err(invalid_arguments("substring"))
}

pub open spec fn replace_spec(a: Seq<Datum>) -> Option<Datum> {
    if a.len() == 3 && a[0] is Text && a[1] is Text && a[2] is Text {
        Some(Datum::Text(replaced(a[2]->Text_0, a[0]->Text_0, a[1]->Text_0)))
    } else {
        None
    }
}

/// `(replace old new text)`: `text` with each `old` replaced by `new`.
pub fn fn_replace(arguments: &[Node]) -> (r: Result<Node, String>)
    ensures
        outcome(r) == replace_spec(views(arguments@)),
{
    if arguments.len() == 3 {
        if let Node::Text(old) = &arguments[0] {
            if let Node::Text(new) = &arguments[1] {
                if let Node::Text(t) = &arguments[2] {
                    return Ok(Node::Text(replace_text(t.as_str(), old.as_str(), new.as_str())));
                }
            }
        }
    }
    Err(invalid_arguments("replace"))
}

pub open spec fn upper_spec(a: Seq<Datum>) -> Option<Datum> {
    if one_text(a) {
        Some(Datum::Text(upper_of(a[0]->Text_0)))
    } else {
        None
    }
}

pub open spec fn lower_spec(a: Seq<Datum>) -> Option<Datum> {
    if one_text(a) {
        Some(Datum::Text(lower_of(a[0]->Text_0)))
    } else {
        None
    }
}

/// `(upper s)`.
pub fn fn_upper(arguments: &[Node]) -> (r: Result<Node, String>)
    ensures
        outcome(r) == upper_spec(views(arguments@)),
{
    match single_text(arguments) {
        Some(s) => Ok(Node::Text(uppercase(s.as_str()))),
        None => Err(invalid_arguments("upper")),
    }
}

/// `(lower s)`.
pub fn fn_lower(arguments: &[Node]) -> (r: Result<Node, String>)
    ensures
        outcome(r) == lower_spec(views(arguments@)),
{
    match single_text(arguments) {
        Some(s) => Ok(Node::Text(lowercase(s.as_str()))),
        None => Err(invalid_arguments("lower")),
    }
}

pub open spec fn starts_with_spec(a: Seq<Datum>) -> Option<Datum> {
    if two_texts(a) {
        let p = a[0]->Text_0;
        let t = a[1]->Text_0;
        Some(Datum::Bool(p.len() <= t.len() && t.subrange(0, p.len() as int) == p))
    } else {
        None
    }
}

pub open spec fn ends_with_spec(a: Seq<Datum>) -> Option<Datum> {
    if two_texts(a) {
        let p = a[0]->Text_0;
        let t = a[1]->Text_0;
        Some(Datum::Bool(p.len() <= t.len() && t.subrange(t.len() - p.len(), t.len() as int) == p))
    } else {
        None
    }
}

/// Whether `t[at..at + p.len()]` is `p`.
fn matches_at(t: &Vec<char>, p: &Vec<char>, at: usize) -> (r: bool)
    requires
        at + p.len() <= t.len(),
    ensures
        r == (t@.subrange(at as int, at + p.len()) == p@),
{
    let mut k: usize = 0;
    while k < p.len()
        invariant
            k <= p.len(),
            at + p.len() <= t.len(),
            forall|m: int| 0 <= m < k ==> t@[at + m] == p@[m],
        decreases p.len() - k,
    {
        if t[at + k] != p[k] {
            assert(t@.subrange(at as int, at + p.len())[k as int] != p@[k as int]);
            return false;
        }
        k += 1;
    }
    assert(t@.subrange(at as int, at + p.len()) =~= p@);
    true
}

/// `(starts-with? prefix text)`.
pub fn fn_starts_with(arguments: &[Node]) -> (r: Result<Node, String>)
    ensures
        outcome(r) == starts_with_spec(views(arguments@)),
{
    if arguments.len() == 2 {
        if let Node::Text(p) = &arguments[0] {
            if let Node::Text(t) = &arguments[1] {
                let pc = chars_of(p.as_str());
                let tc = chars_of(t.as_str());
                if pc.len() > tc.len() {
                    return Ok(Node::Bool(false));
                }
                return Ok(Node::Bool(matches_at(&tc, &pc, 0)));
            }
        }
    }
    Err(invalid_arguments("starts-with?"))
}

/// `(ends-with? suffix text)`.
pub fn fn_ends_with(arguments: &[Node]) -> (r: Result<Node, String>)
    ensures
        outcome(r) == ends_with_spec(views(arguments@)),
{
    if arguments.len() == 2 {
        if let Node::Text(p) = &arguments[0] {
            if let Node::Text(t) = &arguments[1] {
                let pc = chars_of(p.as_str());
                let tc = chars_of(t.as_str());
                if pc.len() > tc.len() {
                    return Ok(Node::Bool(false));
                }
                return Ok(Node::Bool(matches_at(&tc, &pc, tc.len() - pc.len())));
            }
        }
    }
    Err(invalid_arguments("ends-with?"))
}

pub open spec fn lines_spec(a: Seq<Datum>) -> Option<Datum> {
    if one_text(a) {
        Some(Datum::List(text_nodes(lines_of(a[0]->Text_0))))
    } else {
        None
    }
}

/// `(lines s)`: the lines of a text.
pub fn fn_lines(arguments: &[Node]) -> (r: Result<Node, String>)
    ensures
        outcome(r) == lines_spec(views(arguments@)),
{
    match single_text(arguments) {
        Some(s) => Ok(text_list(text_lines(s.as_str()))),
        None => Err(invalid_arguments("lines")),
    }
}

pub open spec fn strlen_spec(a: Seq<Datum>) -> Option<Datum> {
    if one_text(a) {
        let n = encode_utf8(a[0]->Text_0).len();
        if n <= i64::MAX {
            Some(Datum::Number(n as i64))
        } else {
            None
        }
    } else {
        None
    }
}

/// `(strlen s)`: the length of a text's UTF-8 encoding in bytes.
pub fn fn_strlen(arguments: &[Node]) -> (r: Result<Node, String>)
    ensures
        outcome(r) == strlen_spec(views(arguments@)),
{
    match single_text(arguments) {
        Some(s) => {
            let n = s.as_str().as_bytes().len();
            if (n as u64) <= 0x7FFF_FFFF_FFFF_FFFF {
                Ok(Node::Number(n as i64))
            } else {
                Err(String::from_str("Length is too large for a Number"))
            }
        },
        None => Err(invalid_arguments("strlen")),
    }
}

pub open spec fn empty_string_spec(a: Seq<Datum>) -> Option<Datum> {
    if one_text(a) {
        Some(Datum::Bool(a[0]->Text_0.len() == 0))
    } else {
        None
    }
}

/// `(empty-string? s)`.
pub fn fn_empty_string(arguments: &[Node]) -> (r: Result<Node, String>)
    ensures
        outcome(r) == empty_string_spec(views(arguments@)),
{
    match single_text(arguments) {
        Some(s) => Ok(Node::Bool(s.as_str().is_empty())),
        None => Err(invalid_arguments("empty-string?")),
    }
}

} // verus!
