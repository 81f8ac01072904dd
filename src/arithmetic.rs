use crate::node::{invalid_arguments, outcome, views, Datum, Node};
use vstd::prelude::*;

verus! {

/// Whether an integer fits in 64 bits.
pub open spec fn fits(v: int) -> bool {
    i64::MIN <= v <= i64::MAX
}

/// A number, or an error when it does not fit in 64 bits.
pub open spec fn number_result(v: int) -> Option<Datum> {
    if fits(v) {
        Some(Datum::Number(v as i64))
    } else {
        None
    }
}

/// The two integers of a two-number argument list.
pub open spec fn two_numbers(a: Seq<Datum>) -> bool {
    a.len() == 2 && a[0] is Number && a[1] is Number
}

/// The integer of a one-number argument list.
pub open spec fn one_number(a: Seq<Datum>) -> bool {
    a.len() == 1 && a[0] is Number
}

pub open spec fn add_spec(a: Seq<Datum>) -> Option<Datum> {
    if two_numbers(a) {
        number_result(a[0]->Number_0 + a[1]->Number_0)
    } else {
        None
    }
}

pub open spec fn sub_spec(a: Seq<Datum>) -> Option<Datum> {
    if two_numbers(a) {
        number_result(a[0]->Number_0 - a[1]->Number_0)
    } else {
        None
    }
}

pub open spec fn mult_spec(a: Seq<Datum>) -> Option<Datum> {
    if two_numbers(a) {
        number_result(a[0]->Number_0 * a[1]->Number_0)
    } else {
        None
    }
}

/// The two numbers of an argument list that is exactly two numbers.
fn number_pair(arguments: &[Node]) -> (r: Option<(i64, i64)>)
    ensures
        r is Some <==> two_numbers(views(arguments@)),
        r matches Some(p) ==> p.0 == views(arguments@)[0]->Number_0 && p.1 == views(
            arguments@,
        )[1]->Number_0,
{
    if arguments.len() == 2 {
        if let Node::Number(a) = &arguments[0] {
            if let Node::Number(b) = &arguments[1] {
                return Some((*a, *b));
            }
        }
    }
    None
}

/// The number of an argument list that is exactly one number.
pub fn single_number(arguments: &[Node]) -> (r: Option<i64>)
    ensures
        r is Some <==> one_number(views(arguments@)),
        r matches Some(n) ==> n == views(arguments@)[0]->Number_0,
{
    if arguments.len() == 1 {
        if let Node::Number(a) = &arguments[0] {
            return Some(*a);
        }
    }
    None
}

/// `(+ a b)`: the sum; an error when it overflows.
pub fn fn_add(arguments: &[Node]) -> (r: Result<Node, String>)
    ensures
        outcome(r) == add_spec(views(arguments@)),
{
    match number_pair(arguments) {
        Some((a, b)) => match a.checked_add(b) {
            Some(v) => Ok(Node::Number(v)),
            None => Err(String::from_str("Integer overflow in '+'")),
        },
        None => Err(invalid_arguments("+")),
    }
}

/// `(- a b)`: the difference; an error when it overflows.
pub fn fn_sub(arguments: &[Node]) -> (r: Result<Node, String>)
    ensures
        outcome(r) == sub_spec(views(arguments@)),
{
    match number_pair(arguments) {
        Some((a, b)) => match a.checked_sub(b) {
            Some(v) => Ok(Node::Number(v)),
            None => Err(String::from_str("Integer overflow in '-'")),
        },
        None => Err(invalid_arguments("-")),
    }
}

/// `(* a b)`: the product; an error when it overflows.
pub fn fn_mult(arguments: &[Node]) -> (r: Result<Node, String>)
    ensures
        outcome(r) == mult_spec(views(arguments@)),
{
    match number_pair(arguments) {
        Some((a, b)) => match a.checked_mul(b) {
            Some(v) => Ok(Node::Number(v)),
            None => Err(String::from_str("Integer overflow in '*'")),
        },
        None => Err(invalid_arguments("*")),
    }
}

pub open spec fn is_even_spec(a: Seq<Datum>) -> Option<Datum> {
    if one_number(a) {
        Some(Datum::Bool(a[0]->Number_0 % 2 == 0))
    } else {
        None
    }
}

pub open spec fn is_odd_spec(a: Seq<Datum>) -> Option<Datum> {
    if one_number(a) {
        Some(Datum::Bool(a[0]->Number_0 % 2 != 0))
    } else {
        None
    }
}

/// `(even? n)`.
pub fn fn_is_even(arguments: &[Node]) -> (r: Result<Node, String>)
    ensures
        outcome(r) == is_even_spec(views(arguments@)),
{
    match single_number(arguments) {
        Some(n) => Ok(Node::Bool(n % 2 == 0)),
        None => Err(invalid_arguments("even?")),
    }
}

/// `(odd? n)`.
pub fn fn_is_odd(arguments: &[Node]) -> (r: Result<Node, String>)
    ensures
        outcome(r) == is_odd_spec(views(arguments@)),
{
    match single_number(arguments) {
        Some(n) => Ok(Node::Bool(n % 2 != 0)),
        None => Err(invalid_arguments("odd?")),
    }
}

pub open spec fn inc_spec(a: Seq<Datum>) -> Option<Datum> {
    if one_number(a) {
        number_result(a[0]->Number_0 + 1)
    } else {
        None
    }
}

pub open spec fn dec_spec(a: Seq<Datum>) -> Option<Datum> {
    if one_number(a) {
        number_result(a[0]->Number_0 - 1)
    } else {
        None
    }
}

pub open spec fn abs_spec(a: Seq<Datum>) -> Option<Datum> {
    if one_number(a) {
        let n = a[0]->Number_0 as int;
        number_result(if n < 0 { -n } else { n })
    } else {
        None
    }
}

pub open spec fn negate_spec(a: Seq<Datum>) -> Option<Datum> {
    if one_number(a) {
        number_result(-(a[0]->Number_0 as int))
    } else {
        None
    }
}

/// `(inc n)`: `n + 1`.
pub fn fn_inc(arguments: &[Node]) -> (r: Result<Node, String>)
    ensures
        outcome(r) == inc_spec(views(arguments@)),
{
    match single_number(arguments) {
        Some(n) => match n.checked_add(1) {
            Some(v) => Ok(Node::Number(v)),
            None => Err(String::from_str("Integer overflow in 'inc'")),
        },
        None => Err(invalid_arguments("inc")),
    }
}

/// `(dec n)`: `n - 1`.
pub fn fn_dec(arguments: &[Node]) -> (r: Result<Node, String>)
    ensures
        outcome(r) == dec_spec(views(arguments@)),
{
    match single_number(arguments) {
        Some(n) => match n.checked_sub(1) {
            Some(v) => Ok(Node::Number(v)),
            None => Err(String::from_str("Integer overflow in 'dec'")),
        },
        None => Err(invalid_arguments("dec")),
    }
}

/// `(abs n)`: the absolute value.
pub fn fn_abs(arguments: &[Node]) -> (r: Result<Node, String>)
    ensures
        outcome(r) == abs_spec(views(arguments@)),
{
    match single_number(arguments) {
        Some(n) => if n == i64::MIN {
            Err(String::from_str("Integer overflow in 'abs'"))
        } else if n < 0 {
            Ok(Node::Number(-n))
        } else {
            Ok(Node::Number(n))
        },
        None => Err(invalid_arguments("abs")),
    }
}

/// `(negate n)`: `-n`.
pub fn fn_negate(arguments: &[Node]) -> (r: Result<Node, String>)
    ensures
        outcome(r) == negate_spec(views(arguments@)),
{
    match single_number(arguments) {
        Some(n) => if n == i64::MIN {
            Err(String::from_str("Integer overflow in 'negate'"))
        } else {
            Ok(Node::Number(-n))
        },
        None => Err(invalid_arguments("negate")),
    }
}

/// `b` raised to the power `e`.
pub open spec fn power(b: int, e: nat) -> int
    decreases e,
{
    if e == 0 {
        1
    } else {
        b * power(b, (e - 1) as nat)
    }
}

pub open spec fn pow_spec(a: Seq<Datum>) -> Option<Datum> {
    if two_numbers(a) && 0 <= a[1]->Number_0 <= u32::MAX {
        number_result(power(a[0]->Number_0 as int, a[1]->Number_0 as nat))
    } else {
        None
    }
}

proof fn lemma_power_unit(b: int, e: nat)
    requires
        b == 0 || b == 1 || b == -1,
    ensures
        power(b, e) == if b == 0 {
            if e == 0 { 1 } else { 0 }
        } else if b == 1 || e % 2 == 0 {
            1
        } else {
            -1
        },
    decreases e,
{
    if e > 0 {
        lemma_power_unit(b, (e - 1) as nat);
    }
}

proof fn lemma_power_grows(b: int, e: nat)
    requires
        b >= 2 || b <= -2,
    ensures
        power(b, e) >= e + 1 || power(b, e) <= -(e + 1),
    decreases e,
{
    if e > 0 {
        lemma_power_grows(b, (e - 1) as nat);
        let p = power(b, (e - 1) as nat);
        if p >= e {
            if b >= 2 {
                assert(b * p >= 2 * p) by (nonlinear_arith) requires b >= 2, p >= 0;
            } else {
                assert(b * p <= -2 * p) by (nonlinear_arith) requires b <= -2, p >= 0;
            }
        } else {
            if b >= 2 {
                assert(b * p <= 2 * p) by (nonlinear_arith) requires b >= 2, p <= 0;
            } else {
                assert(b * p >= -2 * p) by (nonlinear_arith) requires b <= -2, p <= 0;
            }
        }
    }
}

/// `(pow b e)`: `b` to the power `e`, for `0 <= e <= u32::MAX`; an error when it overflows.
pub fn fn_pow(arguments: &[Node]) -> (r: Result<Node, String>)
    ensures
        outcome(r) == pow_spec(views(arguments@)),
{
    match number_pair(arguments) {
        Some((b, e)) => {
            if e < 0 || e > 0xFFFF_FFFF {
                return Err(invalid_arguments("pow"));
            }
            if b == 0 || b == 1 || b == -1 {
                proof {
                    lemma_power_unit(b as int, e as nat);
                }
                return if b == 0 {
                    Ok(Node::Number(if e == 0 { 1 } else { 0 }))
                } else if b == 1 || e % 2 == 0 {
                    Ok(Node::Number(1))
                } else {
                    Ok(Node::Number(-1))
                };
            }
            let mut acc: i64 = 1;
            let mut i: i64 = 0;
            while i < e
                invariant
                    0 <= i <= e,
                    acc == power(b as int, i as nat),
                    b >= 2 || b <= -2,
                    e <= 0xFFFF_FFFF,
                    two_numbers(views(arguments@)),
                    views(arguments@)[0]->Number_0 == b,
                    views(arguments@)[1]->Number_0 == e,
                decreases e - i,
            {
                proof {
                    lemma_power_grows(b as int, (i + 1) as nat);
                    assert(power(b as int, (i + 1) as nat) == (b as int) * power(b as int, i as nat));
                    assert((b as int) * (acc as int) == (acc as int) * (b as int)) by (nonlinear_arith);
                }
                match acc.checked_mul(b) {
                    Some(v) => {
                        acc = v;
                    },
                    None => {
                        proof {
                            assert(!fits((acc as int) * (b as int)));
                            assert(!fits(power(b as int, (i + 1) as nat)));
                            if e > i + 1 {
                                lemma_power_overflow(b as int, (i + 1) as nat, e as nat);
                            }
                            assert(!fits(power(b as int, e as nat)));

                        }
                        return Err(String::from_str("Integer overflow in 'pow'"));
                    },
                }
                i += 1;
            }
            Ok(Node::Number(acc))
        },
        None => Err(invalid_arguments("pow")),
    }
}

proof fn lemma_power_overflow(b: int, k: nat, e: nat)
    requires
        b >= 2 || b <= -2,
        k <= e,
        !fits(power(b, k)),
    ensures
        !fits(power(b, e)),
    decreases e - k,
{
    if k < e {
        let p = power(b, k);
        assert(power(b, k + 1) == b * p);
        if p > 0 {
            if b >= 2 {
                assert(b * p >= 2 * p) by (nonlinear_arith) requires b >= 2, p >= 0;
            } else {
                assert(b * p <= -2 * p) by (nonlinear_arith) requires b <= -2, p >= 0;
            }
        } else {
            if b >= 2 {
                assert(b * p <= 2 * p) by (nonlinear_arith) requires b >= 2, p <= 0;
            } else {
                assert(b * p >= -2 * p) by (nonlinear_arith) requires b <= -2, p <= 0;
            }
        }
        lemma_power_overflow(b, k + 1, e);
    }
}

/// The remainder of `a / b` with the quotient truncated toward zero: it has
/// the sign of `a`.
pub open spec fn remainder(a: int, b: int) -> int {
    let m = if b < 0 { -b } else { b };
    if a >= 0 {
        a % m
    } else {
        -((-a) % m)
    }
}

pub open spec fn mod_spec(a: Seq<Datum>) -> Option<Datum> {
    if two_numbers(a) && a[1]->Number_0 != 0 && !(a[0]->Number_0 == i64::MIN && a[1]->Number_0 == -1) {
        Some(Datum::Number(remainder(a[0]->Number_0 as int, a[1]->Number_0 as int) as i64))
    } else {
        None
    }
}

/// `(% a b)`: the remainder of `a / b`, with the sign of `a`.
pub fn fn_mod(arguments: &[Node]) -> (r: Result<Node, String>)
    ensures
        outcome(r) == mod_spec(views(arguments@)),
{
    match number_pair(arguments) {
        Some((a, b)) => {
            if b == 0 {
                return Err(String::from_str("Division by zero"));
            }
            if a == i64::MIN && b == -1 {
                return Err(String::from_str("Integer overflow in '%'"));
            }
            let m: i128 = if b < 0 { -(b as i128) } else { b as i128 };
            let r: i128 = if a >= 0 { (a as i128) % m } else { -((-(a as i128)) % m) };
            proof {
                assert(-m < r < m);
            }
            Ok(Node::Number(r as i64))
        },
        None => Err(invalid_arguments("%")),
    }
}

/// Whether every argument is a number.
pub open spec fn numbers_only(a: Seq<Datum>) -> bool {
    forall|i: int| 0 <= i < a.len() ==> #[trigger] a[i] is Number
}

/// The greatest (`most`) or least of the first `n` numbers, `n > 0`.
pub open spec fn extreme(a: Seq<Datum>, n: int, most: bool) -> int
    decreases n,
{
    if n <= 1 {
        a[0]->Number_0 as int
    } else {
        let e = extreme(a, n - 1, most);
        let x = a[n - 1]->Number_0 as int;
        if (most && x > e) || (!most && x < e) {
            x
        } else {
            e
        }
    }
}

pub open spec fn extreme_spec(a: Seq<Datum>, most: bool) -> Option<Datum> {
    if a.len() > 0 && numbers_only(a) {
        Some(Datum::Number(extreme(a, a.len() as int, most) as i64))
    } else {
        None
    }
}

fn extreme_of(arguments: &[Node], most: bool, name: &str) -> (r: Result<Node, String>)
    ensures
        outcome(r) == extreme_spec(views(arguments@), most),
{
    if arguments.len() == 0 {
        return Err(invalid_arguments(name));
    }
    let mut best: i64 = 0;
    let mut i: usize = 0;
    while i < arguments.len()
        invariant
            i <= arguments.len(),
            arguments.len() > 0,
            numbers_only(views(arguments@).subrange(0, i as int)),
            i > 0 ==> best == extreme(views(arguments@), i as int, most),
        decreases arguments.len() - i,
    {
        if let Node::Number(x) = &arguments[i] {
            proof {
                if i > 0 {
                    assert forall|k: int| 0 <= k < i implies #[trigger] views(arguments@)[k] is Number by {
                        assert(views(arguments@).subrange(0, i as int)[k] is Number);
                    }
                }
            }
            if i == 0 || (most && *x > best) || (!most && *x < best) {
                best = *x;
            }
            i += 1;
            assert(numbers_only(views(arguments@).subrange(0, i as int)));
        } else {
            assert(!(views(arguments@)[i as int] is Number));
            return Err(invalid_arguments(name));
        }
    }
    assert(views(arguments@).subrange(0, i as int) =~= views(arguments@));
    Ok(Node::Number(best))
}

/// `(max n ...)`: the greatest of one or more numbers.
pub fn fn_max(arguments: &[Node]) -> (r: Result<Node, String>)
    ensures
        outcome(r) == extreme_spec(views(arguments@), true),
{
    extreme_of(arguments, true, "max")
}

/// `(min n ...)`: the least of one or more numbers.
pub fn fn_min(arguments: &[Node]) -> (r: Result<Node, String>)
    ensures
        outcome(r) == extreme_spec(views(arguments@), false),
{
    extreme_of(arguments, false, "min")
}

} // verus!
