//! The arithmetic of `calc()`: fixed-point numbers, the four operators and
//! the evaluation of an expression.

use vstd::prelude::*;
use crate::text::{text_is, views};
use crate::values::{CssValue, CssValueView};

verus! {

/// The four operators of a `calc()` expression.
#[derive(Debug, Clone, Copy, PartialEq, Eq, Structural)]
pub enum CalcOperator {
    Add,
    Subtract,
    Multiply,
    Divide,
}

/// `x`, held to the range of the numbers a value can carry.
pub open spec fn clamp(x: int) -> int {
    if x > i64::MAX {
        i64::MAX as int
    } else if x < i64::MIN {
        i64::MIN as int
    } else {
        x
    }
}

/// The absolute value of `x`.
pub open spec fn magnitude(x: int) -> int {
    if x < 0 {
        -x
    } else {
        x
    }
}

/// The quotient of `x` by `y`, rounded towards zero; `y` is not zero.
pub open spec fn truncated_quotient(x: int, y: int) -> int {
    let q = magnitude(x) / magnitude(y);
    if (x < 0) != (y < 0) {
        -q
    } else {
        q
    }
}

/// What an operator makes of two numbers counted in thousandths. A result
/// out of range is held to the nearest number in range; a quotient is
/// rounded towards zero; dividing by zero gives the largest number, the
/// smallest, or zero, as the dividend is positive, negative or zero.
pub open spec fn apply_operator(op: CalcOperator, a: int, b: int) -> int {
    match op {
        CalcOperator::Add => clamp(a + b),
        CalcOperator::Subtract => clamp(a - b),
        CalcOperator::Multiply => clamp(truncated_quotient(a * b, 1000)),
        CalcOperator::Divide => if b == 0 {
            if a > 0 {
                i64::MAX as int
            } else if a < 0 {
                i64::MIN as int
            } else {
                0
            }
        } else {
            clamp(truncated_quotient(a * 1000, b))
        },
    }
}

/// The operator that a value spells, if it spells one.
pub open spec fn operator_of(v: CssValueView) -> Option<CalcOperator> {
    match v {
        CssValueView::Keyword(k) => if k == "+"@ {
            Some(CalcOperator::Add)
        } else if k == "-"@ {
            Some(CalcOperator::Subtract)
        } else if k == "*"@ {
            Some(CalcOperator::Multiply)
        } else if k == "/"@ {
            Some(CalcOperator::Divide)
        } else {
            None
        },
        _ => None,
    }
}

/// The value spells `*` or `/`.
pub open spec fn is_multiplicative(v: CssValueView) -> bool {
    operator_of(v) == Some(CalcOperator::Multiply) || operator_of(v) == Some(CalcOperator::Divide)
}

/// The number that a value carries; 0 where it is no number.
pub open spec fn number_of(v: CssValueView) -> int {
    match v {
        CssValueView::Number(n) => n,
        _ => 0,
    }
}

/// The operator that a value spells; `+` where it spells none.
pub open spec fn operator_or_add(v: CssValueView) -> CalcOperator {
    match operator_of(v) {
        Some(op) => op,
        None => CalcOperator::Add,
    }
}

/// An expression: numbers at the even places, operators at the odd places,
/// a number first and last.
pub open spec fn is_expression(ts: Seq<CssValueView>) -> bool {
    &&& ts.len() % 2 == 1
    &&& forall|i: int|
        0 <= i < ts.len() ==> if i % 2 == 0 {
            (#[trigger] ts[i]) is Number
        } else {
            operator_of(ts[i]) is Some
        }
}

/// The value of the product that runs from the number at `lo` to the number
/// at `hi`, taken from left to right.
pub open spec fn product_value(ts: Seq<CssValueView>, lo: int, hi: int) -> int
    decreases hi - lo,
{
    if hi < lo + 2 {
        number_of(ts[lo])
    } else {
        apply_operator(operator_or_add(ts[hi - 1]), product_value(ts, lo, hi - 2), number_of(ts[hi]))
    }
}

/// The place of the first number of the product that ends at the number at `hi`.
pub open spec fn term_start(ts: Seq<CssValueView>, hi: int) -> int
    decreases hi,
{
    if hi >= 2 && is_multiplicative(ts[hi - 1]) {
        term_start(ts, hi - 2)
    } else {
        hi
    }
}

/// The value of the expression up to the number at `hi`: products bind
/// tighter than sums, and both are taken from left to right.
pub open spec fn sum_value(ts: Seq<CssValueView>, hi: int) -> int
    decreases hi,
{
    let lo = term_start(ts, hi);
    let term = product_value(ts, lo, hi);
    if 2 <= lo <= hi {
        apply_operator(operator_or_add(ts[lo - 1]), sum_value(ts, lo - 2), term)
    } else {
        term
    }
}

/// The value of a list of values read as an expression, if it is one.
pub open spec fn evaluate(ts: Seq<CssValueView>) -> Option<int> {
    if is_expression(ts) {
        Some(sum_value(ts, ts.len() - 1))
    } else {
        None
    }
}

proof fn lemma_term_start_bounds(ts: Seq<CssValueView>, hi: int)
    requires
        0 <= hi,
        hi % 2 == 0,
    ensures
        0 <= term_start(ts, hi) <= hi,
        term_start(ts, hi) % 2 == 0,
    decreases hi,
{
    if hi >= 2 && is_multiplicative(ts[hi - 1]) {
        lemma_term_start_bounds(ts, hi - 2);
    }
}

fn clamp_wide(x: i128) -> (r: i64)
    ensures
        r == clamp(x as int),
{
    if x > 0x7fff_ffff_ffff_ffff {
        0x7fff_ffff_ffff_ffff
    } else if x < -0x8000_0000_0000_0000 {
        -0x8000_0000_0000_0000
    } else {
        x as i64
    }
}

fn magnitude_of(a: i64) -> (r: u128)
    ensures
        r == magnitude(a as int),
        r <= 0x8000_0000_0000_0000,
{
    if a >= 0 {
        a as u128
    } else {
        let wide: i128 = a as i128;
        (-wide) as u128
    }
}

fn signed(q: u128, negative: bool) -> (r: i64)
    requires
        q <= 0x4000_0000_0000_0000_0000_0000_0000_0000,
    ensures
        r == clamp(if negative { -(q as int) } else { q as int }),
{
    let wide: i128 = q as i128;
    if negative {
        clamp_wide(-wide)
    } else {
        clamp_wide(wide)
    }
}

fn scaled_product(a: i64, b: i64) -> (r: i64)
    ensures
        r == clamp(truncated_quotient(a * b, 1000)),
{
    let ma = magnitude_of(a);
    let mb = magnitude_of(b);
    assert(ma * mb <= 0x4000_0000_0000_0000_0000_0000_0000_0000) by (nonlinear_arith)
        requires
            ma <= 0x8000_0000_0000_0000,
            mb <= 0x8000_0000_0000_0000,
    ;
    assert(magnitude(a * b) == magnitude(a as int) * magnitude(b as int)) by (nonlinear_arith);
    assert(((a * b) < 0) == ((a < 0) != (b < 0) && a != 0 && b != 0)) by (nonlinear_arith);
    let q: u128 = (ma * mb) / 1000;
    let negative = (a < 0) != (b < 0);
    signed(q, negative)
}

fn scaled_quotient(a: i64, b: i64) -> (r: i64)
    requires
        b != 0,
    ensures
        r == clamp(truncated_quotient(a * 1000, b as int)),
{
    let ma = magnitude_of(a);
    let mb = magnitude_of(b);
    assert(magnitude(a * 1000) == magnitude(a as int) * 1000);
    let num: u128 = ma * 1000;
    let q: u128 = num / mb;
    assert(q <= num) by (nonlinear_arith)
        requires
            q == num / mb,
            mb >= 1,
    ;
    let negative = (a < 0) != (b < 0);
    signed(q, negative)
}

/// Applies an operator to two numbers counted in thousandths.
pub fn apply(op: CalcOperator, a: i64, b: i64) -> (r: i64)
    ensures
        r == apply_operator(op, a as int, b as int),
{
    match op {
        CalcOperator::Add => {
            let x: i128 = a as i128;
            let y: i128 = b as i128;
            clamp_wide(x + y)
        },
        CalcOperator::Subtract => {
            let x: i128 = a as i128;
            let y: i128 = b as i128;
            clamp_wide(x - y)
        },
        CalcOperator::Multiply => scaled_product(a, b),
        CalcOperator::Divide => {
            if b == 0 {
                if a > 0 {
                    0x7fff_ffff_ffff_ffff
                } else if a < 0 {
                    -0x8000_0000_0000_0000
                } else {
                    0
                }
            } else {
                scaled_quotient(a, b)
            }
        },
    }
}

/// The operator that a value spells, if it spells one.
pub fn read_operator(v: &CssValue) -> (r: Option<CalcOperator>)
    ensures
        r == operator_of(v@),
{
    match v {
        CssValue::Keyword(k) => {
            if text_is(k, "+") {
                Some(CalcOperator::Add)
            } else if text_is(k, "-") {
                Some(CalcOperator::Subtract)
            } else if text_is(k, "*") {
                Some(CalcOperator::Multiply)
            } else if text_is(k, "/") {
                Some(CalcOperator::Divide)
            } else {
                None
            }
        },
        _ => None,
    }
}

fn read_number(v: &CssValue) -> (r: Option<i64>)
    ensures
        match r {
            Some(n) => v@ == CssValueView::Number(n as int),
            None => !(v@ is Number),
        },
{
    match v {
        CssValue::Number(n) => Some(*n),
        _ => None,
    }
}

/// Evaluates a list of values as an expression over numbers. `None` where
/// the list is no such expression.
pub fn evaluate_expression(tokens: &Vec<CssValue>) -> (r: Option<i64>)
    ensures
        match r {
            Some(n) => evaluate(views(tokens@)) == Some(n as int),
            None => evaluate(views(tokens@)) is None,
        },
{
    let ghost ts = views(tokens@);
    if tokens.len() == 0 {
        return None;
    }
    let first = match read_number(&tokens[0]) {
        Some(n) => n,
        None => {
            assert(!(ts[0] is Number));
            return None;
        },
    };
    let mut p: usize = 0;
    let mut term: i64 = first;
    let mut acc: i64 = 0;
    let mut has_acc = false;
    let mut pending = CalcOperator::Add;
    while p + 1 < tokens.len()
        invariant
            ts == views(tokens@),
            p < tokens.len(),
            p % 2 == 0,
            forall|i: int|
                0 <= i <= p ==> if i % 2 == 0 {
                    (#[trigger] ts[i]) is Number
                } else {
                    operator_of(ts[i]) is Some
                },
            term == product_value(ts, term_start(ts, p as int), p as int),
            has_acc == (term_start(ts, p as int) >= 2),
            has_acc ==> acc == sum_value(ts, term_start(ts, p as int) - 2) && pending == operator_or_add(
                ts[term_start(ts, p as int) - 1],
            ),
        decreases tokens.len() - p,
    {
        proof {
            lemma_term_start_bounds(ts, p as int);
            lemma_term_start_bounds(ts, p + 2);
        }
        let op = match read_operator(&tokens[p + 1]) {
            Some(op) => op,
            None => {
                assert(operator_of(ts[p + 1]) is None);
                return None;
            },
        };
        if p + 2 >= tokens.len() {
            return None;
        }
        let n = match read_number(&tokens[p + 2]) {
            Some(n) => n,
            None => {
                assert(!(ts[p + 2] is Number));
                return None;
            },
        };
        match op {
            CalcOperator::Multiply | CalcOperator::Divide => {
                assert(is_multiplicative(ts[p + 1]));
                term = apply(op, term, n);
            },
            _ => {
                assert(!is_multiplicative(ts[p + 1]));
                acc = if has_acc {
                    apply(pending, acc, term)
                } else {
                    term
                };
                has_acc = true;
                pending = op;
                term = n;
            },
        }
        p += 2;
    }
    proof {
        lemma_term_start_bounds(ts, p as int);
        assert(ts.len() == p + 1);
        assert(is_expression(ts));
    }
    if has_acc {
        Some(apply(pending, acc, term))
    } else {
        Some(term)
    }
}

} // verus!
