use crate::arithmetic::{
    abs_spec, add_spec, dec_spec, extreme_spec, fn_abs, fn_add, fn_dec, fn_inc, fn_is_even,
    fn_is_odd, fn_max, fn_min, fn_mod, fn_mult, fn_negate, fn_pow, fn_sub, inc_spec, is_even_spec,
    is_odd_spec, mod_spec, mult_spec, negate_spec, pow_spec, sub_spec,
};
use crate::compare::{
    compare_spec, eq_spec, fn_and, fn_eq, fn_greater_than, fn_greater_than_or_equal, fn_less_than,
    fn_less_than_or_equal, fn_not, fn_or, logic_spec, not_spec,
};
use crate::conversion::{
    boolean_to_string_spec, fn_boolean_to_string, fn_list_to_string, fn_number_to_float,
    fn_number_to_string, fn_string_to_boolean, fn_string_to_list, fn_string_to_number,
    fn_string_to_symbol, fn_symbol_to_string, fn_time_to_number, fn_time_to_string,
    list_to_string_spec, number_to_float_spec, number_to_string_spec, string_to_boolean_spec,
    string_to_list_spec, string_to_number_spec, string_to_symbol_spec, symbol_to_string_spec,
    time_to_number_spec, time_to_string_spec,
};
use crate::list::{
    car_spec, cdr_spec, cons_spec, contains_spec, fn_car, fn_cdr, fn_cons, fn_contains, fn_head,
    fn_is_null, fn_last, fn_length, fn_list, fn_nth, fn_reverse, fn_tail, head_spec, is_null_spec,
    last_spec, length_spec, nth_spec, reverse_spec, tail_spec,
};
use crate::misc::{
    fn_format, fn_is_atom, fn_is_lambda, fn_is_lparen, fn_is_number, fn_is_symbol, fn_is_text,
    fn_url_decode, fn_url_encode, fn_version, url_decode_spec, url_encode_spec,
};
use crate::parser::{fn_parse, fn_tokenize, parse_call_spec, tokenize_call_spec};
use crate::pattern::{
    fn_regex, fn_regex_match, fn_regex_replace, fn_regex_split, regex_match_spec,
    regex_replace_spec, regex_spec, regex_split_spec,
};
use crate::random::{
    random_boolean_allows, random_choice_allows, random_letter_allows, random_number_allows,fn_random_boolean, fn_random_choice, fn_random_letter, fn_random_number};
use crate::sequence::{fn_range, fn_zip, range_spec, zip_spec};
use crate::string::{
    concat_spec, empty_string_spec, ends_with_spec, fn_concat, fn_empty_string, fn_ends_with,
    fn_index_of, fn_join, fn_lines, fn_lower, fn_replace, fn_split, fn_starts_with, fn_strip,
    fn_strlen, fn_substring, fn_upper, index_of_spec, join_spec, lines_spec, lower_spec,
    replace_spec, split_spec, starts_with_spec, strip_spec, strlen_spec, substring_spec, upper_spec,
};
use crate::time::{
    now_allows,
    fn_add_days, fn_add_hours, fn_add_minutes, fn_add_seconds, fn_now, fn_time, shift_spec,
    time_spec,
};
use crate::tree::{depth_spec, fn_depth, fn_format_tree, fn_leaves, format_tree_spec, leaves_spec};
use crate::conversion::joined_texts;
use crate::misc::test_spec;
use crate::semantics::is_closure;
use crate::environment::{Environment, Frame};
use crate::node::{invalid_arguments, outcome, reply_of, views, Builtin, Datum, Node};
use vstd::prelude::*;

verus! {

/// The operations that call back into the evaluator; the evaluator runs them itself.
pub open spec fn is_higher_order(b: Builtin) -> bool {
    b == Builtin::MapItems || b == Builtin::FilterItems || b == Builtin::FoldItems
}

/// The operations whose result depends on the clock, on a random source or
/// on the embedding program.
pub open spec fn is_worldly(b: Builtin) -> bool {
    b is Host || b == Builtin::Now || b == Builtin::RandomNumber || b == Builtin::RandomBoolean
        || b == Builtin::RandomChoice || b == Builtin::RandomLetter
}

/// The arithmetic that the embedding program does when an argument is a float.
pub open spec fn is_float_op(b: Builtin) -> bool {
    b == Builtin::Add || b == Builtin::Sub || b == Builtin::Mult || b == Builtin::Div
        || b == Builtin::Abs || b == Builtin::Pow
}

/// Whether some argument is a float.
pub open spec fn has_float(a: Seq<Datum>) -> bool {
    exists|i: int| 0 <= i < a.len() && #[trigger] a[i] is Float
}

/// Whether applying `b` to `a` asks the outside world: the clock, a random
/// source, an operation of the embedding program, or float arithmetic.
pub open spec fn is_worldly_call(b: Builtin, a: Seq<Datum>) -> bool {
    is_worldly(b) || (is_float_op(b) && has_float(a))
}

/// Whether `r` is a reply that applying `b` to `a` can get from the outside
/// world. The embedding program's operations and float arithmetic may reply
/// anything.
pub open spec fn allows_reply(b: Builtin, a: Seq<Datum>, r: Result<Datum, Seq<char>>) -> bool {
    match b {
        Builtin::Now => now_allows(a, r),
        Builtin::RandomNumber => random_number_allows(a, r),
        Builtin::RandomBoolean => random_boolean_allows(a, r),
        Builtin::RandomChoice => random_choice_allows(a, r),
        Builtin::RandomLetter => random_letter_allows(a, r),
        _ => true,
    }
}

/// Whether some argument is a float.
pub fn any_float(a: &[Node]) -> (r: bool)
    ensures
        r == has_float(views(a@)),
{
    let mut i: usize = 0;
    while i < a.len()
        invariant
            i <= a.len(),
            forall|j: int| 0 <= j < i ==> !(#[trigger] views(a@)[j] is Float),
        decreases a.len() - i,
    {
        if let Node::Float(_) = &a[i] {
            assert(views(a@)[i as int] is Float);
            return true;
        }
        i += 1;
    }
    false
}

/// Whether `b` is arithmetic that floats are handed out for.
pub fn float_op(b: Builtin) -> (r: bool)
    ensures
        r == is_float_op(b),
{
    match b {
        Builtin::Add | Builtin::Sub | Builtin::Mult | Builtin::Div | Builtin::Abs | Builtin::Pow => true,
        _ => false,
    }
}

/// The model of each native operation that needs neither the evaluator nor
/// the outside world.
pub open spec fn native_spec(b: Builtin, a: Seq<Datum>) -> Option<Datum> {
    match b {
        Builtin::Add => add_spec(a),
        Builtin::Sub => sub_spec(a),
        Builtin::Mult => mult_spec(a),
        Builtin::IsEven => is_even_spec(a),
        Builtin::IsOdd => is_odd_spec(a),
        Builtin::Inc => inc_spec(a),
        Builtin::Dec => dec_spec(a),
        Builtin::Abs => abs_spec(a),
        Builtin::Pow => pow_spec(a),
        Builtin::Negate => negate_spec(a),
        Builtin::Remainder => mod_spec(a),
        Builtin::Max => extreme_spec(a, true),
        Builtin::Min => extreme_spec(a, false),
        Builtin::Equal => eq_spec(a),
        Builtin::Less => compare_spec(a, 0),
        Builtin::Greater => compare_spec(a, 1),
        Builtin::LessOrEqual => compare_spec(a, 2),
        Builtin::GreaterOrEqual => compare_spec(a, 3),
        Builtin::Not => not_spec(a),
        Builtin::And => logic_spec(a, true),
        Builtin::Or => logic_spec(a, false),
        Builtin::NumberToString => number_to_string_spec(a),
        Builtin::StringToNumber => string_to_number_spec(a),
        Builtin::StringToList => string_to_list_spec(a),
        Builtin::ListToString => list_to_string_spec(a),
        Builtin::StringToSymbol => string_to_symbol_spec(a),
        Builtin::SymbolToString => symbol_to_string_spec(a),
        Builtin::StringToBoolean => string_to_boolean_spec(a),
        Builtin::BooleanToString => boolean_to_string_spec(a),
        Builtin::TimeToString => time_to_string_spec(a),
        Builtin::TimeToNumber => time_to_number_spec(a),
        Builtin::NumberToFloat => number_to_float_spec(a),
        Builtin::Car => car_spec(a),
        Builtin::Cdr => cdr_spec(a),
        Builtin::Cons => cons_spec(a),
        Builtin::Length => length_spec(a),
        Builtin::IsNull => is_null_spec(a),
        Builtin::MakeList => Some(Datum::List(a)),
        Builtin::Last => last_spec(a),
        Builtin::Nth => nth_spec(a),
        Builtin::Head => head_spec(a),
        Builtin::Tail => tail_spec(a),
        Builtin::Reverse => reverse_spec(a),
        Builtin::Contains => contains_spec(a),
        Builtin::Zip => zip_spec(a),
        Builtin::Range => range_spec(a),
        Builtin::Concat => concat_spec(a),
        Builtin::Split => split_spec(a),
        Builtin::Strip => strip_spec(a),
        Builtin::Join => join_spec(a),
        Builtin::IndexOf => index_of_spec(a),
        Builtin::Substring => substring_spec(a),
        Builtin::Replace => replace_spec(a),
        Builtin::Upper => upper_spec(a),
        Builtin::Lower => lower_spec(a),
        Builtin::StartsWith => starts_with_spec(a),
        Builtin::EndsWith => ends_with_spec(a),
        Builtin::Lines => lines_spec(a),
        Builtin::Strlen => strlen_spec(a),
        Builtin::EmptyString => empty_string_spec(a),
        Builtin::MakeRegex => regex_spec(a),
        Builtin::RegexMatch => regex_match_spec(a),
        Builtin::RegexReplace => regex_replace_spec(a),
        Builtin::RegexSplit => regex_split_spec(a),
        Builtin::MakeTime => time_spec(a),
        Builtin::AddDays => shift_spec(a, 86400),
        Builtin::AddHours => shift_spec(a, 3600),
        Builtin::AddMinutes => shift_spec(a, 60),
        Builtin::AddSeconds => shift_spec(a, 1),
        Builtin::Leaves => leaves_spec(a),
        Builtin::Depth => depth_spec(a),
        Builtin::FormatTree => format_tree_spec(a),
        Builtin::Version => Some(Datum::Text("Lich version 0.1.0"@)),
        Builtin::Format => Some(Datum::Text(joined_texts(a, a.len() as int))),
        Builtin::UrlEncode => url_encode_spec(a),
        Builtin::UrlDecode => url_decode_spec(a),
        Builtin::IsText => test_spec(a, a.len() == 1 && a[0] is Text),
        Builtin::IsNumber => test_spec(a, a.len() == 1 && a[0] is Number),
        Builtin::IsSymbol => test_spec(a, a.len() == 1 && a[0] is Symbol),
        Builtin::IsList => test_spec(a, a.len() == 1 && a[0] is List),
        Builtin::IsAtom => test_spec(a, a.len() == 1 && !(a[0] is List)),
        Builtin::IsLambda => test_spec(a, a.len() == 1 && (a[0] matches Datum::List(parts) && is_closure(parts))),
        Builtin::Parse => parse_call_spec(a),
        Builtin::Tokenize => tokenize_call_spec(a),
        _ => None,
    }
}

/// Runs a native operation that needs neither the evaluator nor the outside
/// world on already evaluated arguments.
pub fn call_native(b: Builtin, arguments: &[Node]) -> (r: Result<Node, String>)
    requires
        !is_higher_order(b),
        !is_worldly(b),
    ensures
        outcome(r) == native_spec(b, views(arguments@)),
{
    match b {
        Builtin::Add => fn_add(arguments),
        Builtin::Sub => fn_sub(arguments),
        Builtin::Mult => fn_mult(arguments),
        Builtin::Div => Err(invalid_arguments("/")),
        Builtin::IsEven => fn_is_even(arguments),
        Builtin::IsOdd => fn_is_odd(arguments),
        Builtin::Inc => fn_inc(arguments),
        Builtin::Dec => fn_dec(arguments),
        Builtin::Abs => fn_abs(arguments),
        Builtin::Pow => fn_pow(arguments),
        Builtin::Negate => fn_negate(arguments),
        Builtin::Remainder => fn_mod(arguments),
        Builtin::Max => fn_max(arguments),
        Builtin::Min => fn_min(arguments),
        Builtin::Equal => fn_eq(arguments),
        Builtin::Less => fn_less_than(arguments),
        Builtin::Greater => fn_greater_than(arguments),
        Builtin::LessOrEqual => fn_less_than_or_equal(arguments),
        Builtin::GreaterOrEqual => fn_greater_than_or_equal(arguments),
        Builtin::Not => fn_not(arguments),
        Builtin::And => fn_and(arguments),
        Builtin::Or => fn_or(arguments),
        Builtin::NumberToString => fn_number_to_string(arguments),
        Builtin::StringToNumber => fn_string_to_number(arguments),
        Builtin::StringToList => fn_string_to_list(arguments),
        Builtin::ListToString => fn_list_to_string(arguments),
        Builtin::StringToSymbol => fn_string_to_symbol(arguments),
        Builtin::SymbolToString => fn_symbol_to_string(arguments),
        Builtin::StringToBoolean => fn_string_to_boolean(arguments),
        Builtin::BooleanToString => fn_boolean_to_string(arguments),
        Builtin::TimeToString => fn_time_to_string(arguments),
        Builtin::TimeToNumber => fn_time_to_number(arguments),
        Builtin::NumberToFloat => fn_number_to_float(arguments),
        Builtin::Car => fn_car(arguments),
        Builtin::Cdr => fn_cdr(arguments),
        Builtin::Cons => fn_cons(arguments),
        Builtin::Length => fn_length(arguments),
        Builtin::IsNull => fn_is_null(arguments),
        Builtin::MakeList => fn_list(arguments),
        Builtin::Last => fn_last(arguments),
        Builtin::Nth => fn_nth(arguments),
        Builtin::Head => fn_head(arguments),
        Builtin::Tail => fn_tail(arguments),
        Builtin::Reverse => fn_reverse(arguments),
        Builtin::Contains => fn_contains(arguments),
        Builtin::Zip => fn_zip(arguments),
        Builtin::Range => fn_range(arguments),
        Builtin::Concat => fn_concat(arguments),
        Builtin::Split => fn_split(arguments),
        Builtin::Strip => fn_strip(arguments),
        Builtin::Join => fn_join(arguments),
        Builtin::IndexOf => fn_index_of(arguments),
        Builtin::Substring => fn_substring(arguments),
        Builtin::Replace => fn_replace(arguments),
        Builtin::Upper => fn_upper(arguments),
        Builtin::Lower => fn_lower(arguments),
        Builtin::StartsWith => fn_starts_with(arguments),
        Builtin::EndsWith => fn_ends_with(arguments),
        Builtin::Lines => fn_lines(arguments),
        Builtin::Strlen => fn_strlen(arguments),
        Builtin::EmptyString => fn_empty_string(arguments),
        Builtin::MakeRegex => fn_regex(arguments),
        Builtin::RegexMatch => fn_regex_match(arguments),
        Builtin::RegexReplace => fn_regex_replace(arguments),
        Builtin::RegexSplit => fn_regex_split(arguments),
        Builtin::MakeTime => fn_time(arguments),
        Builtin::AddDays => fn_add_days(arguments),
        Builtin::AddHours => fn_add_hours(arguments),
        Builtin::AddMinutes => fn_add_minutes(arguments),
        Builtin::AddSeconds => fn_add_seconds(arguments),
        Builtin::Leaves => fn_leaves(arguments),
        Builtin::Depth => fn_depth(arguments),
        Builtin::FormatTree => fn_format_tree(arguments),
        Builtin::Version => fn_version(arguments),
        Builtin::Format => fn_format(arguments),
        Builtin::UrlEncode => fn_url_encode(arguments),
        Builtin::UrlDecode => fn_url_decode(arguments),
        Builtin::IsText => fn_is_text(arguments),
        Builtin::IsNumber => fn_is_number(arguments),
        Builtin::IsSymbol => fn_is_symbol(arguments),
        Builtin::IsList => fn_is_lparen(arguments),
        Builtin::IsAtom => fn_is_atom(arguments),
        Builtin::IsLambda => fn_is_lambda(arguments),
        Builtin::Parse => fn_parse(arguments),
        Builtin::Tokenize => fn_tokenize(arguments),
        _ => Err(String::from_str("not a native operation")),
    }
}

/// Runs a native operation that reads the clock or a random source.
pub fn call_worldly(b: Builtin, arguments: &[Node]) -> (r: Result<Node, String>)
    requires
        is_worldly(b),
    ensures
        allows_reply(b, views(arguments@), reply_of(r)),
{
    match b {
        Builtin::Now => fn_now(arguments),
        Builtin::RandomNumber => fn_random_number(arguments),
        Builtin::RandomBoolean => fn_random_boolean(arguments),
        Builtin::RandomChoice => fn_random_choice(arguments),
        Builtin::RandomLetter => fn_random_letter(arguments),
        _ => Err(String::from_str("not a native operation")),
    }
}

/// Whether a builtin is one the evaluator runs itself.
pub fn higher_order(b: Builtin) -> (r: bool)
    ensures
        r == is_higher_order(b),
{
    match b {
        Builtin::MapItems | Builtin::FilterItems | Builtin::FoldItems => true,
        _ => false,
    }
}

/// Whether a builtin reads the clock or a random source.
pub fn worldly(b: Builtin) -> (r: bool)
    ensures
        r == is_worldly(b),
{
    match b {
        Builtin::Host(_) | Builtin::Now | Builtin::RandomNumber | Builtin::RandomBoolean
        | Builtin::RandomChoice | Builtin::RandomLetter => true,
        _ => false,
    }
}

/// Each builtin with the name programs call it by.
pub open spec fn builtin_table() -> Seq<(Seq<char>, Builtin)> {
    seq![
        ("+"@, Builtin::Add),
        ("-"@, Builtin::Sub),
        ("*"@, Builtin::Mult),
        ("/"@, Builtin::Div),
        ("even?"@, Builtin::IsEven),
        ("odd?"@, Builtin::IsOdd),
        ("inc"@, Builtin::Inc),
        ("dec"@, Builtin::Dec),
        ("abs"@, Builtin::Abs),
        ("pow"@, Builtin::Pow),
        ("negate"@, Builtin::Negate),
        ("%"@, Builtin::Remainder),
        ("max"@, Builtin::Max),
        ("min"@, Builtin::Min),
        ("="@, Builtin::Equal),
        ("<"@, Builtin::Less),
        (">"@, Builtin::Greater),
        ("<="@, Builtin::LessOrEqual),
        (">="@, Builtin::GreaterOrEqual),
        ("not"@, Builtin::Not),
        ("and"@, Builtin::And),
        ("or"@, Builtin::Or),
        ("number->string"@, Builtin::NumberToString),
        ("string->number"@, Builtin::StringToNumber),
        ("string->list"@, Builtin::StringToList),
        ("list->string"@, Builtin::ListToString),
        ("string->symbol"@, Builtin::StringToSymbol),
        ("symbol->string"@, Builtin::SymbolToString),
        ("string->boolean"@, Builtin::StringToBoolean),
        ("boolean->string"@, Builtin::BooleanToString),
        ("time->string"@, Builtin::TimeToString),
        ("time->number"@, Builtin::TimeToNumber),
        ("number->float"@, Builtin::NumberToFloat),
        ("car"@, Builtin::Car),
        ("cdr"@, Builtin::Cdr),
        ("cons"@, Builtin::Cons),
        ("length"@, Builtin::Length),
        ("null?"@, Builtin::IsNull),
        ("list"@, Builtin::MakeList),
        ("last"@, Builtin::Last),
        ("nth"@, Builtin::Nth),
        ("head"@, Builtin::Head),
        ("tail"@, Builtin::Tail),
        ("reverse"@, Builtin::Reverse),
        ("contains"@, Builtin::Contains),
        ("zip"@, Builtin::Zip),
        ("range"@, Builtin::Range),
        ("concat"@, Builtin::Concat),
        ("split"@, Builtin::Split),
        ("strip"@, Builtin::Strip),
        ("join"@, Builtin::Join),
        ("index-of"@, Builtin::IndexOf),
        ("substring"@, Builtin::Substring),
        ("replace"@, Builtin::Replace),
        ("upper"@, Builtin::Upper),
        ("lower"@, Builtin::Lower),
        ("starts-with?"@, Builtin::StartsWith),
        ("ends-with?"@, Builtin::EndsWith),
        ("lines"@, Builtin::Lines),
        ("strlen"@, Builtin::Strlen),
        ("empty-string?"@, Builtin::EmptyString),
        ("regex"@, Builtin::MakeRegex),
        ("regex-match"@, Builtin::RegexMatch),
        ("regex-replace"@, Builtin::RegexReplace),
        ("regex-split"@, Builtin::RegexSplit),
        ("time"@, Builtin::MakeTime),
        ("add-days"@, Builtin::AddDays),
        ("add-hours"@, Builtin::AddHours),
        ("add-minutes"@, Builtin::AddMinutes),
        ("add-seconds"@, Builtin::AddSeconds),
        ("leaves"@, Builtin::Leaves),
        ("depth"@, Builtin::Depth),
        ("format-tree"@, Builtin::FormatTree),
        ("version"@, Builtin::Version),
        ("format"@, Builtin::Format),
        ("url-encode"@, Builtin::UrlEncode),
        ("url-decode"@, Builtin::UrlDecode),
        ("text?"@, Builtin::IsText),
        ("number?"@, Builtin::IsNumber),
        ("symbol?"@, Builtin::IsSymbol),
        ("list?"@, Builtin::IsList),
        ("atom?"@, Builtin::IsAtom),
        ("lambda?"@, Builtin::IsLambda),
        ("parse"@, Builtin::Parse),
        ("tokenize"@, Builtin::Tokenize),
        ("now"@, Builtin::Now),
        ("random-number"@, Builtin::RandomNumber),
        ("random-boolean"@, Builtin::RandomBoolean),
        ("random-choice"@, Builtin::RandomChoice),
        ("random-letter"@, Builtin::RandomLetter),
        ("map"@, Builtin::MapItems),
        ("filter"@, Builtin::FilterItems),
        ("fold"@, Builtin::FoldItems),
    ]
}

/// The frame `f` with the first `n` names of table `t` bound to their builtins, in order.
pub open spec fn installed(f: Frame, t: Seq<(Seq<char>, Builtin)>, n: int) -> Frame
    decreases n,
{
    if n <= 0 || n > t.len() {
        f
    } else {
        installed(f, t, n - 1).insert(t[n - 1].0, Datum::Function(t[n - 1].1))
    }
}

/// The names and builtins of `builtin_table`.
fn table() -> (r: Vec<(&'static str, Builtin)>)
    ensures
        r@.len() == builtin_table().len(),
        forall|i: int| 0 <= i < r@.len() ==> (#[trigger] r@[i]).0@ == builtin_table()[i].0 && r@[i].1 == builtin_table()[i].1,
{
    let mut r: Vec<(&'static str, Builtin)> = Vec::new();
    r.push(("+", Builtin::Add));
    r.push(("-", Builtin::Sub));
    r.push(("*", Builtin::Mult));
    r.push(("/", Builtin::Div));
    r.push(("even?", Builtin::IsEven));
    r.push(("odd?", Builtin::IsOdd));
    r.push(("inc", Builtin::Inc));
    r.push(("dec", Builtin::Dec));
    r.push(("abs", Builtin::Abs));
    r.push(("pow", Builtin::Pow));
    r.push(("negate", Builtin::Negate));
    r.push(("%", Builtin::Remainder));
    r.push(("max", Builtin::Max));
    r.push(("min", Builtin::Min));
    r.push(("=", Builtin::Equal));
    r.push(("<", Builtin::Less));
    r.push((">", Builtin::Greater));
    r.push(("<=", Builtin::LessOrEqual));
    r.push((">=", Builtin::GreaterOrEqual));
    r.push(("not", Builtin::Not));
    r.push(("and", Builtin::And));
    r.push(("or", Builtin::Or));
    r.push(("number->string", Builtin::NumberToString));
    r.push(("string->number", Builtin::StringToNumber));
    r.push(("string->list", Builtin::StringToList));
    r.push(("list->string", Builtin::ListToString));
    r.push(("string->symbol", Builtin::StringToSymbol));
    r.push(("symbol->string", Builtin::SymbolToString));
    r.push(("string->boolean", Builtin::StringToBoolean));
    r.push(("boolean->string", Builtin::BooleanToString));
    r.push(("time->string", Builtin::TimeToString));
    r.push(("time->number", Builtin::TimeToNumber));
    r.push(("number->float", Builtin::NumberToFloat));
    r.push(("car", Builtin::Car));
    r.push(("cdr", Builtin::Cdr));
    r.push(("cons", Builtin::Cons));
    r.push(("length", Builtin::Length));
    r.push(("null?", Builtin::IsNull));
    r.push(("list", Builtin::MakeList));
    r.push(("last", Builtin::Last));
    r.push(("nth", Builtin::Nth));
    r.push(("head", Builtin::Head));
    r.push(("tail", Builtin::Tail));
    r.push(("reverse", Builtin::Reverse));
    r.push(("contains", Builtin::Contains));
    r.push(("zip", Builtin::Zip));
    r.push(("range", Builtin::Range));
    r.push(("concat", Builtin::Concat));
    r.push(("split", Builtin::Split));
    r.push(("strip", Builtin::Strip));
    r.push(("join", Builtin::Join));
    r.push(("index-of", Builtin::IndexOf));
    r.push(("substring", Builtin::Substring));
    r.push(("replace", Builtin::Replace));
    r.push(("upper", Builtin::Upper));
    r.push(("lower", Builtin::Lower));
    r.push(("starts-with?", Builtin::StartsWith));
    r.push(("ends-with?", Builtin::EndsWith));
    r.push(("lines", Builtin::Lines));
    r.push(("strlen", Builtin::Strlen));
    r.push(("empty-string?", Builtin::EmptyString));
    r.push(("regex", Builtin::MakeRegex));
    r.push(("regex-match", Builtin::RegexMatch));
    r.push(("regex-replace", Builtin::RegexReplace));
    r.push(("regex-split", Builtin::RegexSplit));
    r.push(("time", Builtin::MakeTime));
    r.push(("add-days", Builtin::AddDays));
    r.push(("add-hours", Builtin::AddHours));
    r.push(("add-minutes", Builtin::AddMinutes));
    r.push(("add-seconds", Builtin::AddSeconds));
    r.push(("leaves", Builtin::Leaves));
    r.push(("depth", Builtin::Depth));
    r.push(("format-tree", Builtin::FormatTree));
    r.push(("version", Builtin::Version));
    r.push(("format", Builtin::Format));
    r.push(("url-encode", Builtin::UrlEncode));
    r.push(("url-decode", Builtin::UrlDecode));
    r.push(("text?", Builtin::IsText));
    r.push(("number?", Builtin::IsNumber));
    r.push(("symbol?", Builtin::IsSymbol));
    r.push(("list?", Builtin::IsList));
    r.push(("atom?", Builtin::IsAtom));
    r.push(("lambda?", Builtin::IsLambda));
    r.push(("parse", Builtin::Parse));
    r.push(("tokenize", Builtin::Tokenize));
    r.push(("now", Builtin::Now));
    r.push(("random-number", Builtin::RandomNumber));
    r.push(("random-boolean", Builtin::RandomBoolean));
    r.push(("random-choice", Builtin::RandomChoice));
    r.push(("random-letter", Builtin::RandomLetter));
    r.push(("map", Builtin::MapItems));
    r.push(("filter", Builtin::FilterItems));
    r.push(("fold", Builtin::FoldItems));
    r
}

/// Binds every builtin under its name in the innermost frame of `env`.
pub fn create_environment(env: &mut Environment)
    requires
        old(env).wf(),
    ensures
        final(env)@ == old(env)@.update(
            old(env)@.len() - 1,
            installed(old(env)@.last(), builtin_table(), builtin_table().len() as int),
        ),
{
    let t = table();
    let mut i: usize = 0;
    proof {
        assert(old(env)@.update(old(env)@.len() - 1, installed(old(env)@.last(), builtin_table(), 0)) =~= old(env)@);
    }
    while i < t.len()
        invariant
            i <= t.len(),
            t@.len() == builtin_table().len(),
            forall|k: int| 0 <= k < t@.len() ==> (#[trigger] t@[k]).0@ == builtin_table()[k].0 && t@[k].1 == builtin_table()[k].1,
            env.wf(),
            old(env)@.len() > 0,
            env@ == old(env)@.update(old(env)@.len() - 1, installed(old(env)@.last(), builtin_table(), i as int)),
        decreases t.len() - i,
    {
        let (name, b) = t[i];
        let ghost prev = env@;
        proof {
            assert(name@ == builtin_table()[i as int].0 && b == builtin_table()[i as int].1);
            assert(prev.last() == installed(old(env)@.last(), builtin_table(), i as int));
        }
        env.add_function(name, b);
        i += 1;
        proof {
            assert(env@.last() == installed(old(env)@.last(), builtin_table(), i as int));
            assert(env@ =~= old(env)@.update(old(env)@.len() - 1, installed(old(env)@.last(), builtin_table(), i as int)));
        }
    }
}

} // verus!
