use crate::arithmetic::{one_number, single_number};
use crate::display::{display, write_node};
use crate::environment::same_text;
use crate::node::{
    invalid_arguments, lemma_list_view, list_node, outcome, push_node, views, Datum, Node,
};
use crate::text::{chars_of, decimal, decimal_text, integer_of, parse_integer, string_of};
use vstd::prelude::*;

verus! {

/// The text of a one-text argument list.
pub open spec fn one_text(a: Seq<Datum>) -> bool {
    a.len() == 1 && a[0] is Text
}

/// The text of an argument list that is exactly one text.
pub fn single_text(arguments: &[Node]) -> (r: Option<&String>)
    ensures
        r is Some <==> one_text(views(arguments@)),
        r matches Some(s) ==> s@ == views(arguments@)[0]->Text_0,
{
    if arguments.len() == 1 {
        if let Node::Text(s) = &arguments[0] {
            return Some(s);
        }
    }
    None
}

pub open spec fn number_to_string_spec(a: Seq<Datum>) -> Option<Datum> {
    if one_number(a) {
        Some(Datum::Text(decimal(a[0]->Number_0 as int)))
    } else {
        None
    }
}

/// `(number->string n)`: the decimal text of a number.
pub fn fn_number_to_string(arguments: &[Node]) -> (r: Result<Node, String>)
    ensures
        outcome(r) == number_to_string_spec(views(arguments@)),
{
    match single_number(arguments) {
        Some(n) => Ok(Node::Text(decimal_text(n))),
        None => Err(invalid_arguments("number->string")),
    }
}

pub open spec fn string_to_number_spec(a: Seq<Datum>) -> Option<Datum> {
    if one_text(a) {
        match integer_of(a[0]->Text_0) {
            Some(n) => Some(Datum::Number(n)),
            None => None,
        }
    } else {
        None
    }
}

/// `(string->number s)`: the integer a text spells.
pub fn fn_string_to_number(arguments: &[Node]) -> (r: Result<Node, String>)
    ensures
        outcome(r) == string_to_number_spec(views(arguments@)),
{
    match single_text(arguments) {
        Some(s) => match parse_integer(&chars_of(s.as_str())) {
            Some(n) => Ok(Node::Number(n)),
            None => Err(String::from_str("Invalid number")),
        },
        None => Err(invalid_arguments("string->number")),
    }
}

/// One single-character text for each character.
pub open spec fn char_texts(s: Seq<char>) -> Seq<Datum> {
    Seq::new(s.len(), |i: int| Datum::Text(seq![s[i]]))
}

pub open spec fn string_to_list_spec(a: Seq<Datum>) -> Option<Datum> {
    if one_text(a) {
        Some(Datum::List(char_texts(a[0]->Text_0)))
    } else {
        None
    }
}

/// `(string->list s)`: the characters of a text, each as a text.
pub fn fn_string_to_list(arguments: &[Node]) -> (r: Result<Node, String>)
    ensures
        outcome(r) == string_to_list_spec(views(arguments@)),
{
    match single_text(arguments) {
        Some(s) => {
            let cs = chars_of(s.as_str());
            let mut out: Vec<Node> = Vec::new();
            let mut i: usize = 0;
            while i < cs.len()
                invariant
                    i <= cs.len(),
                    views(out@) =~= char_texts(cs@).subrange(0, i as int),
                decreases cs.len() - i,
            {
                let one = string_of(&cs.as_slice()[i..i + 1]);
                assert(cs@.subrange(i as int, i + 1) =~= seq![cs@[i as int]]);
                push_node(&mut out, Node::Text(one));
                i += 1;
            }
            assert(char_texts(cs@).subrange(0, i as int) =~= char_texts(cs@));
            Ok(list_node(out))
        },
        None => Err(invalid_arguments("string->list")),
    }
}

/// The texts of the first `n` items, one after another.
pub open spec fn joined_texts(items: Seq<Datum>, n: int) -> Seq<char>
    decreases n,
{
    if n <= 0 || n > items.len() {
        Seq::empty()
    } else {
        joined_texts(items, n - 1) + display(items[n - 1])
    }
}

pub open spec fn list_to_string_spec(a: Seq<Datum>) -> Option<Datum> {
    if a.len() == 1 && a[0] is List {
        Some(Datum::Text(joined_texts(a[0]->List_0, a[0]->List_0.len() as int)))
    } else {
        None
    }
}

/// The texts of the nodes, one after another.
pub fn concat_texts(items: &[Node]) -> (r: String)
    ensures
        r@ == joined_texts(views(items@), items.len() as int),
{
    let mut out: Vec<char> = Vec::new();
    let mut i: usize = 0;
    while i < items.len()
        invariant
            i <= items.len(),
            out@ == joined_texts(views(items@), i as int),
        decreases items.len() - i,
    {
        write_node(&items[i], &mut out);
        i += 1;
    }
    string_of(out.as_slice())
}

/// `(list->string l)`: the texts of a list's elements, one after another.
pub fn fn_list_to_string(arguments: &[Node]) -> (r: Result<Node, String>)
    ensures
        outcome(r) == list_to_string_spec(views(arguments@)),
{
    if arguments.len() == 1 {
        if let Node::List(l) = &arguments[0] {
            proof {
                lemma_list_view(*l);
            }
            return Ok(Node::Text(concat_texts(l.as_slice())));
        }
    }
    Err(invalid_arguments("list->string"))
}

pub open spec fn string_to_symbol_spec(a: Seq<Datum>) -> Option<Datum> {
    if one_text(a) {
        Some(Datum::Symbol(a[0]->Text_0))
    } else {
        None
    }
}

/// `(string->symbol s)`.
pub fn fn_string_to_symbol(arguments: &[Node]) -> (r: Result<Node, String>)
    ensures
        outcome(r) == string_to_symbol_spec(views(arguments@)),
{
    match single_text(arguments) {
        Some(s) => Ok(Node::Symbol(s.clone())),
        None => Err(invalid_arguments("string->symbol")),
    }
}

pub open spec fn symbol_to_string_spec(a: Seq<Datum>) -> Option<Datum> {
    if a.len() == 1 && a[0] is Symbol {
        Some(Datum::Text(a[0]->Symbol_0))
    } else {
        None
    }
}

/// `(symbol->string s)`.
pub fn fn_symbol_to_string(arguments: &[Node]) -> (r: Result<Node, String>)
    ensures
        outcome(r) == symbol_to_string_spec(views(arguments@)),
{
    if arguments.len() == 1 {
        if let Node::Symbol(s) = &arguments[0] {
            return Ok(Node::Text(s.clone()));
        }
    }
    Err(invalid_arguments("symbol->string"))
}

pub open spec fn string_to_boolean_spec(a: Seq<Datum>) -> Option<Datum> {
    if one_text(a) {
        Some(Datum::Bool(a[0]->Text_0 == "true"@))
    } else {
        None
    }
}

/// `(string->boolean s)`: true exactly for the text `true`.
pub fn fn_string_to_boolean(arguments: &[Node]) -> (r: Result<Node, String>)
    ensures
        outcome(r) == string_to_boolean_spec(views(arguments@)),
{
    match single_text(arguments) {
        Some(s) => Ok(Node::Bool(same_text(s.as_str(), "true"))),
        None => Err(invalid_arguments("string->boolean")),
    }
}

pub open spec fn boolean_to_string_spec(a: Seq<Datum>) -> Option<Datum> {
    if a.len() == 1 && a[0] is Bool {
        Some(Datum::Text(if a[0]->Bool_0 { "true"@ } else { "false"@ }))
    } else {
        None
    }
}

/// `(boolean->string b)`.
pub fn fn_boolean_to_string(arguments: &[Node]) -> (r: Result<Node, String>)
    ensures
        outcome(r) == boolean_to_string_spec(views(arguments@)),
{
    if arguments.len() == 1 {
        if let Node::Bool(b) = &arguments[0] {
            return Ok(Node::Text(if *b { String::from_str("true") } else { String::from_str("false") }));
        }
    }
    Err(invalid_arguments("boolean->string"))
}

pub open spec fn time_to_string_spec(a: Seq<Datum>) -> Option<Datum> {
    if a.len() == 1 && a[0] is Time {
        Some(Datum::Text(display(a[0])))
    } else {
        None
    }
}

/// `(time->string t)`: the canonical text of a time.
pub fn fn_time_to_string(arguments: &[Node]) -> (r: Result<Node, String>)
    ensures
        outcome(r) == time_to_string_spec(views(arguments@)),
{
    if arguments.len() == 1 {
        if let Node::Time(_, _) = &arguments[0] {
            return Ok(Node::Text(arguments[0].to_text()));
        }
    }
    Err(invalid_arguments("time->string"))
}

pub open spec fn time_to_number_spec(a: Seq<Datum>) -> Option<Datum> {
    if a.len() == 1 && a[0] is Time {
        Some(Datum::Number(a[0]->Time_0))
    } else {
        None
    }
}

/// `(time->number t)`: the seconds since the epoch.
pub fn fn_time_to_number(arguments: &[Node]) -> (r: Result<Node, String>)
    ensures
        outcome(r) == time_to_number_spec(views(arguments@)),
{
    if arguments.len() == 1 {
        if let Node::Time(t, _) = &arguments[0] {
            return Ok(Node::Number(*t));
        }
    }
    Err(invalid_arguments("time->number"))
}

pub open spec fn number_to_float_spec(a: Seq<Datum>) -> Option<Datum> {
    if one_number(a) && i32::MIN <= a[0]->Number_0 <= i32::MAX {
        Some(Datum::Float(decimal(a[0]->Number_0 as int)))
    } else {
        None
    }
}

/// `(number->float n)`: the float of the same value, for a number in 32-bit range.
pub fn fn_number_to_float(arguments: &[Node]) -> (r: Result<Node, String>)
    ensures
        outcome(r) == number_to_float_spec(views(arguments@)),
{
    match single_number(arguments) {
        Some(n) => if n < -0x8000_0000 || n > 0x7FFF_FFFF {
            Err(String::from_str("Invalid number for conversion to float"))
        } else {
            Ok(Node::Float(decimal_text(n)))
        },
        None => Err(invalid_arguments("number->float")),
    }
}

} // verus!
