use crate::node::{invalid_arguments, outcome, reply_of, views, Datum, Node};
use vstd::prelude::*;

verus! {

/// The seconds since the epoch of a date and time of day in UTC; `None`
/// when the date does not exist or the time of day is out of range.
pub uninterp spec fn utc_seconds(year: i32, month: u32, day: u32, hour: u32, minute: u32, second: u32) -> Option<i64>;

/// Relies on `chrono::NaiveDate::from_ymd_opt`, `NaiveDate::and_hms_opt`
/// and `DateTime::timestamp` of the result taken as UTC.
#[verifier::external_body]
fn timestamp_of(year: i32, month: u32, day: u32, hour: u32, minute: u32, second: u32) -> (r: Option<i64>)
    ensures
        r == utc_seconds(year, month, day, hour, minute, second),
{
    match chrono::NaiveDate::from_ymd_opt(year, month, day) {
        Some(d) => match d.and_hms_opt(hour, minute, second) {
            Some(t) => Some(t.and_utc().timestamp()),
            None => None,
        },
        None => None,
    }
}

/// Relies on `chrono::Local::now`: the time now, as seconds since the epoch,
/// and the local offset from UTC in seconds.
#[verifier::external_body]
fn local_now() -> (r: (i64, i32)) {
    let now = chrono::Local::now();
    (now.timestamp(), now.offset().local_minus_utc())
}

/// Whether every argument is a number.
pub open spec fn all_numbers(a: Seq<Datum>) -> bool {
    forall|i: int| 0 <= i < a.len() ==> #[trigger] a[i] is Number
}

pub open spec fn in_u32(v: i64) -> bool {
    0 <= v <= u32::MAX
}

pub open spec fn time_spec(a: Seq<Datum>) -> Option<Datum> {
    if (a.len() == 3 || a.len() == 6 || a.len() == 7) && all_numbers(a) {
        let y = a[0]->Number_0;
        let mo = a[1]->Number_0;
        let d = a[2]->Number_0;
        let h = if a.len() > 3 { a[3]->Number_0 } else { 0 };
        let mi = if a.len() > 3 { a[4]->Number_0 } else { 0 };
        let s = if a.len() > 3 { a[5]->Number_0 } else { 0 };
        let off = if a.len() == 7 { a[6]->Number_0 as int } else { 0 };
        if i32::MIN <= y <= i32::MAX && in_u32(mo) && in_u32(d) && in_u32(h) && in_u32(mi) && in_u32(s)
            && i32::MIN <= off * 3600 <= i32::MAX {
            match utc_seconds(y as i32, mo as u32, d as u32, h as u32, mi as u32, s as u32) {
                Some(t) => Some(Datum::Time(t, (off * 3600) as i32)),
                None => None,
            }
        } else {
            None
        }
    } else {
        None
    }
}

fn number_at(arguments: &[Node], i: usize) -> (r: i64)
    requires
        i < arguments.len(),
        views(arguments@)[i as int] is Number,
    ensures
        r == views(arguments@)[i as int]->Number_0,
{
    match &arguments[i] {
        Node::Number(n) => *n,
        _ => 0,
    }
}

/// `(time year month day [hour minute second [offset-hours]])`: a time in UTC
/// with the given offset in hours.
pub fn fn_time(arguments: &[Node]) -> (r: Result<Node, String>)
    ensures
        outcome(r) == time_spec(views(arguments@)),
{
    let n = arguments.len();
    if n != 3 && n != 6 && n != 7 {
        return Err(invalid_arguments("time"));
    }
    let mut i: usize = 0;
    while i < n
        invariant
            i <= n,
            n == arguments.len(),
            forall|k: int| 0 <= k < i ==> #[trigger] views(arguments@)[k] is Number,
        decreases n - i,
    {
        if let Node::Number(_) = &arguments[i] {
        } else {
            assert(!(views(arguments@)[i as int] is Number));
            return Err(invalid_arguments("time"));
        }
        i += 1;
    }
    let y = number_at(arguments, 0);
    let mo = number_at(arguments, 1);
    let d = number_at(arguments, 2);
    let h = if n > 3 { number_at(arguments, 3) } else { 0 };
    let mi = if n > 3 { number_at(arguments, 4) } else { 0 };
    let s = if n > 3 { number_at(arguments, 5) } else { 0 };
    let off = if n == 7 { number_at(arguments, 6) } else { 0 };
    if y < -0x8000_0000 || y > 0x7FFF_FFFF {
        return Err(String::from_str("Invalid year"));
    }
    if mo < 0 || mo > 0xFFFF_FFFF || d < 0 || d > 0xFFFF_FFFF || h < 0 || h > 0xFFFF_FFFF || mi < 0
        || mi > 0xFFFF_FFFF || s < 0 || s > 0xFFFF_FFFF {
        return Err(String::from_str("Invalid date or time"));
    }
    if off < -596523 || off > 596523 {
        return Err(String::from_str("Invalid offset"));
    }
    match timestamp_of(y as i32, mo as u32, d as u32, h as u32, mi as u32, s as u32) {
        Some(t) => Ok(Node::Time(t, (off * 3600) as i32)),
        None => Err(String::from_str("Invalid date or time")),
    }
}

pub open spec fn shift_spec(a: Seq<Datum>, unit: int) -> Option<Datum> {
    if a.len() == 2 && a[0] is Number && a[1] is Time {
        let t = a[1]->Time_0 + a[0]->Number_0 * unit;
        if i64::MIN <= t <= i64::MAX {
            Some(Datum::Time(t as i64, a[1]->Time_1))
        } else {
            None
        }
    } else {
        None
    }
}

fn shift(arguments: &[Node], unit: i64, name: &str) -> (r: Result<Node, String>)
    requires
        1 <= unit <= 86400,
    ensures
        outcome(r) == shift_spec(views(arguments@), unit as int),
{
    if arguments.len() == 2 {
        if let Node::Number(k) = &arguments[0] {
            if let Node::Time(t, z) = &arguments[1] {
                proof {
                    let kk = *k as int;
                    let uu = unit as int;
                    assert(-0x8000_0000_0000_0000 * 86400 <= kk * uu <= 0x7FFF_FFFF_FFFF_FFFF * 86400) by (nonlinear_arith)
                        requires -0x8000_0000_0000_0000 <= kk <= 0x7FFF_FFFF_FFFF_FFFF, 1 <= uu <= 86400;
                }
                let x: i128 = (*k as i128) * (unit as i128);
                let v: i128 = (*t as i128) + x;
                return if v < -0x8000_0000_0000_0000 || v > 0x7FFF_FFFF_FFFF_FFFF {
                    Err(String::from_str("Time out of range"))
                } else {
                    Ok(Node::Time(v as i64, *z))
                };
            }
        }
    }
    Err(invalid_arguments(name))
}

/// `(add-days n t)`: `t` moved by `n` days.
pub fn fn_add_days(arguments: &[Node]) -> (r: Result<Node, String>)
    ensures
        outcome(r) == shift_spec(views(arguments@), 86400),
{
    shift(arguments, 86400, "add-days")
}

/// `(add-hours n t)`: `t` moved by `n` hours.
pub fn fn_add_hours(arguments: &[Node]) -> (r: Result<Node, String>)
    ensures
        outcome(r) == shift_spec(views(arguments@), 3600),
{
    shift(arguments, 3600, "add-hours")
}

/// `(add-minutes n t)`: `t` moved by `n` minutes.
pub fn fn_add_minutes(arguments: &[Node]) -> (r: Result<Node, String>)
    ensures
        outcome(r) == shift_spec(views(arguments@), 60),
{
    shift(arguments, 60, "add-minutes")
}

/// `(add-seconds n t)`: `t` moved by `n` seconds.
pub fn fn_add_seconds(arguments: &[Node]) -> (r: Result<Node, String>)
    ensures
        outcome(r) == shift_spec(views(arguments@), 1),
{
    shift(arguments, 1, "add-seconds")
}

/// The local time of an instant `t` seconds after the epoch at UTC offset
/// `z` seconds: the seconds shifted by the offset, with the offset; `None`
/// when the shifted seconds do not fit.
pub open spec fn local_time_spec(t: i64, z: i32) -> Option<Datum> {
    if i64::MIN <= t + z <= i64::MAX {
        Some(Datum::Time((t + z) as i64, z))
    } else {
        None
    }
}

/// The local time of an instant at a UTC offset.
pub fn local_time(t: i64, z: i32) -> (r: Option<Node>)
    ensures
        r matches Some(n) ==> local_time_spec(t, z) == Some(n@),
        r is None ==> local_time_spec(t, z) is None,
{
    match t.checked_add(z as i64) {
        Some(local) => Some(Node::Time(local, z)),
        None => None,
    }
}

/// Whether an outcome of `now` is allowed: a time with no arguments (or an
/// error if the clock's reading is out of range), an error otherwise.
pub open spec fn now_allows(a: Seq<Datum>, r: Result<Datum, Seq<char>>) -> bool {
    if a.len() == 0 {
        r matches Ok(Datum::Time(_, _)) || r is Err
    } else {
        r is Err
    }
}

/// `(now)`: the local time as the clock gives it, through `local_time`.
pub fn fn_now(arguments: &[Node]) -> (r: Result<Node, String>)
    ensures
        now_allows(views(arguments@), reply_of(r)),
{
    if arguments.len() == 0 {
        let (t, z) = local_now();
        match local_time(t, z) {
            Some(n) => Ok(n),
            None => Err(String::from_str("Time out of range")),
        }
    } else {
        Err(invalid_arguments("now"))
    }
}

} // verus!
