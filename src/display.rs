use crate::node::{lemma_list_view, views, Datum, Node};
use crate::text::{decimal, decimal_text, string_of};
use vstd::prelude::*;

verus! {

/// The date and time, in UTC, `seconds` after the epoch, as
/// `YYYY-MM-DD HH:MM:SS`; `None` outside the range of representable dates.
pub uninterp spec fn utc_date_time(seconds: i64) -> Option<Seq<char>>;

/// Relies on `chrono::DateTime::from_timestamp` (`None` out of range) and
/// `DateTime::format` with the pattern `%Y-%m-%d %H:%M:%S`.
#[verifier::external_body]
fn utc_text(seconds: i64) -> (r: Option<String>)
    ensures
        r matches Some(s) ==> utc_date_time(seconds) == Some(s@),
        r is None ==> utc_date_time(seconds) is None,
{
    match chrono::DateTime::from_timestamp(seconds, 0) {
        Some(t) => Some(t.format("%Y-%m-%d %H:%M:%S").to_string()),
        None => None,
    }
}

/// A natural number written with at least two digits.
pub open spec fn two_digits(n: int) -> Seq<char> {
    if 0 <= n < 10 {
        seq!['0'] + decimal(n)
    } else {
        decimal(n)
    }
}

/// A UTC offset in seconds, as `UTC+HH:MM`: the hours (truncated toward
/// zero) signed and padded to two digits, then the remaining minutes padded
/// to two places, with a `-` of their own when the offset is negative.
pub open spec fn offset_text(z: i32) -> Seq<char> {
    let neg = z < 0;
    let a: int = if neg { -(z as int) } else { z as int };
    let ha = a / 3600;
    let ma = (a % 3600) / 60;
    "UTC"@ + (if !neg || ha == 0 { seq!['+'] } else { seq!['-'] }) + two_digits(ha) + seq![':']
        + (if !neg || ma == 0 { two_digits(ma) } else { seq!['-'] + decimal(ma) })
}

/// How a time value is written.
pub open spec fn time_text(t: i64, z: i32) -> Seq<char> {
    match utc_date_time(t) {
        Some(s) => s + seq![' '] + offset_text(z),
        None => "invalid time"@,
    }
}

/// The canonical text of a value: symbols, text and numbers literally, lists
/// as their elements' texts separated by spaces in parentheses, the empty
/// list as `nil`.
pub open spec fn display(d: Datum) -> Seq<char>
    decreases d, 1nat,
{
    match d {
        Datum::Number(n) => decimal(n as int),
        Datum::Bool(b) => if b { "true"@ } else { "false"@ },
        Datum::Text(s) => s,
        Datum::Symbol(s) => s,
        Datum::Float(s) => s,
        Datum::Function(_) => "function"@,
        Datum::Regex(r) => "regex("@ + r + ")"@,
        Datum::Time(t, z) => time_text(t, z),
        Datum::List(items) => if items.len() == 0 {
            "nil"@
        } else {
            seq!['('] + spaced(items, items.len() as int) + seq![')']
        },
    }
}

/// The texts of the first `n` items, separated by single spaces.
pub open spec fn spaced(items: Seq<Datum>, n: int) -> Seq<char>
    decreases items, 0nat, n,
{
    if n <= 0 || n > items.len() {
        Seq::empty()
    } else if n == 1 {
        display(items[0])
    } else {
        spaced(items, n - 1) + seq![' '] + display(items[n - 1])
    }
}

fn push_str(out: &mut Vec<char>, s: &str)
    ensures
        final(out)@ == old(out)@ + s@,
{
    let cs = crate::text::chars_of(s);
    let mut i: usize = 0;
    while i < cs.len()
        invariant
            i <= cs.len(),
            out@ == old(out)@ + cs@.subrange(0, i as int),
        decreases cs.len() - i,
    {
        out.push(cs[i]);
        i += 1;
        assert(out@ =~= old(out)@ + cs@.subrange(0, i as int));
    }
    assert(cs@.subrange(0, i as int) =~= cs@);
}

fn push_two_digits(out: &mut Vec<char>, n: i64)
    requires
        n >= 0,
    ensures
        final(out)@ == old(out)@ + two_digits(n as int),
{
    if n < 10 {
        out.push('0');
    }
    let d = crate::text::decimal_chars(n);
    push_str(out, string_of(d.as_slice()).as_str());
    assert(final(out)@ =~= old(out)@ + two_digits(n as int));
}

fn push_time(out: &mut Vec<char>, t: i64, z: i32)
    ensures
        final(out)@ == old(out)@ + time_text(t, z),
{
    match utc_text(t) {
        Some(s) => {
            push_str(out, s.as_str());
            out.push(' ');
            push_str(out, "UTC");
            let neg = z < 0;
            let a: i64 = if neg { -(z as i64) } else { z as i64 };
            let ha = a / 3600;
            let ma = (a % 3600) / 60;
            if !neg || ha == 0 {
                out.push('+');
            } else {
                out.push('-');
            }
            push_two_digits(out, ha);
            out.push(':');
            if !neg || ma == 0 {
                push_two_digits(out, ma);
            } else {
                out.push('-');
                push_str(out, decimal_text(ma).as_str());
            }
            proof {
                reveal_strlit("UTC");
            }
            assert(final(out)@ =~= old(out)@ + time_text(t, z));
        },
        None => {
            push_str(out, "invalid time");
        },
    }
}

/// Appends the text of `n` to `out`.
pub fn write_node(n: &Node, out: &mut Vec<char>)
    ensures
        final(out)@ == old(out)@ + display(n@),
    decreases n, 1nat,
{
    match n {
        Node::Number(v) => push_str(out, decimal_text(*v).as_str()),
        Node::Bool(b) => if *b {
            push_str(out, "true")
        } else {
            push_str(out, "false")
        },
        Node::Text(s) => push_str(out, s.as_str()),
        Node::Symbol(s) => push_str(out, s.as_str()),
        Node::Float(s) => push_str(out, s.as_str()),
        Node::Function(_) => push_str(out, "function"),
        Node::Regex(r) => {
            push_str(out, "regex(");
            push_str(out, r.as_str());
            push_str(out, ")");
            assert(final(out)@ =~= old(out)@ + display(n@));
        },
        Node::Time(t, z) => push_time(out, *t, *z),
        Node::List(items) => {
            proof {
                lemma_list_view(*items);
            }
            if items.len() == 0 {
                push_str(out, "nil");
            } else {
                out.push('(');
                write_spaced(items, items.len(), out);
                out.push(')');
                assert(final(out)@ =~= old(out)@ + display(n@));
            }
        },
    }
}

/// Appends the texts of the first `n` items, separated by spaces.
fn write_spaced(items: &Vec<Node>, n: usize, out: &mut Vec<char>)
    requires
        n <= items.len(),
    ensures
        final(out)@ == old(out)@ + spaced(views(items@), n as int),
    decreases items, 0nat, n,
{
    if n == 0 {
        assert(old(out)@ + spaced(views(items@), 0) =~= old(out)@);
        return;
    }
    proof {
        vstd::std_specs::vec::axiom_vec_index_decreases(*items, n - 1);
    }
    if n == 1 {
        write_node(&items[0], out);
    } else {
        write_spaced(items, n - 1, out);
        out.push(' ');
        write_node(&items[n - 1], out);
        assert(final(out)@ =~= old(out)@ + spaced(views(items@), n as int));
    }
}

impl Node {
    /// The canonical text of this value.
    pub fn to_text(&self) -> (r: String)
        ensures
            r@ == display(self@),
    {
        let mut out: Vec<char> = Vec::new();
        write_node(self, &mut out);
        assert(out@ =~= display(self@));
        string_of(out.as_slice())
    }
}

} // verus!
