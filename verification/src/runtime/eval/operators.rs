//! What the operators make of their operands.

use vstd::prelude::*;
use vstd::string::StringExecFns;
use crate::error::RuntimeError;
use crate::frontend::ast::BinaryOperator;
use crate::runtime::host::{Host, Interpreter};
use crate::runtime::semantics::Exchange;
use crate::runtime::number::{equal, is_zero, less, negated, Number};
use crate::runtime::values::{RuntimeVal, ValueView};

verus! {

/// What came of an evaluation, as the contracts see it.
pub open spec fn outcome(r: Result<RuntimeVal, RuntimeError>) -> Result<ValueView, RuntimeError> {
    match r {
        Ok(value) => Ok(value@),
        Err(e) => Err(e),
    }
}

/// `base` to the power `exponent`, multiplied out; `None` as soon as a
/// product is out of range.
pub open spec fn powered(base: i64, exponent: nat) -> Option<i64>
    decreases exponent,
{
    if exponent == 0 {
        Some(1i64)
    } else {
        match powered(base, (exponent - 1) as nat) {
            Some(product) => product.checked_mul(base),
            None => None,
        }
    }
}

/// An integer result that may be out of range.
pub open spec fn in_range(result: Option<i64>) -> Result<ValueView, RuntimeError> {
    match result {
        Some(value) => Ok(ValueView::Integer(value)),
        None => Err(RuntimeError::IntegerOverflow),
    }
}

/// What `operator` makes of two integers. Division and remainder round
/// towards zero. The exponent of a power must lie between 0 and 4294967295.
pub open spec fn integer_value(operator: BinaryOperator, lhs: i64, rhs: i64) -> Result<
    ValueView,
    RuntimeError,
> {
    match operator {
        BinaryOperator::Add => in_range(lhs.checked_add(rhs)),
        BinaryOperator::Subtract => in_range(lhs.checked_sub(rhs)),
        BinaryOperator::Multiply => in_range(lhs.checked_mul(rhs)),
        BinaryOperator::Divide => if rhs == 0 {
            Err(RuntimeError::DivisionByZero)
        } else {
            in_range(lhs.checked_div(rhs))
        },
        BinaryOperator::Modulus => if rhs == 0 {
            Err(RuntimeError::DivisionByZero)
        } else {
            in_range(lhs.checked_rem(rhs))
        },
        BinaryOperator::Exponent => if 0 <= rhs <= u32::MAX {
            in_range(powered(lhs, rhs as nat))
        } else {
            Err(RuntimeError::IntegerOverflow)
        },
        BinaryOperator::Equal => Ok(ValueView::Bool(lhs == rhs)),
        BinaryOperator::NotEqual => Ok(ValueView::Bool(lhs != rhs)),
        BinaryOperator::LessThan => Ok(ValueView::Bool(lhs < rhs)),
        BinaryOperator::GreaterThan => Ok(ValueView::Bool(lhs > rhs)),
        BinaryOperator::LessThanOrEqual => Ok(ValueView::Bool(lhs <= rhs)),
        BinaryOperator::GreaterThanOrEqual => Ok(ValueView::Bool(lhs >= rhs)),
        BinaryOperator::And | BinaryOperator::Or => Err(RuntimeError::UnsupportedOperands),
    }
}

/// Whether `operator` on two numbers is computed by the host's arithmetic:
/// sums, differences, products and powers are, and quotients and remainders
/// where the divisor is not zero.
pub open spec fn asks_arithmetic(operator: BinaryOperator, rhs: u64) -> bool {
    match operator {
        BinaryOperator::Add | BinaryOperator::Subtract | BinaryOperator::Multiply | BinaryOperator::Exponent => {
            true
        },
        BinaryOperator::Divide | BinaryOperator::Modulus => !is_zero(rhs),
        _ => false,
    }
}

/// What `operator` makes of two numbers, given as their bits; `computed`
/// is what the host's arithmetic gave, and counts only where
/// [`asks_arithmetic`] holds. Division and remainder by zero are errors.
/// Comparisons follow IEEE 754: any comparison with not-a-number is false,
/// but `!=`.
pub open spec fn numeric_value(
    operator: BinaryOperator,
    lhs: u64,
    rhs: u64,
    computed: u64,
) -> Result<
    ValueView,
    RuntimeError,
> {
    match operator {
        BinaryOperator::Add | BinaryOperator::Subtract | BinaryOperator::Multiply | BinaryOperator::Exponent => {
            Ok(ValueView::Number(computed))
        },
        BinaryOperator::Divide | BinaryOperator::Modulus => if is_zero(rhs) {
            Err(RuntimeError::DivisionByZero)
        } else {
            Ok(ValueView::Number(computed))
        },
        BinaryOperator::Equal => Ok(ValueView::Bool(equal(lhs, rhs))),
        BinaryOperator::NotEqual => Ok(ValueView::Bool(!equal(lhs, rhs))),
        BinaryOperator::LessThan => Ok(ValueView::Bool(less(lhs, rhs))),
        BinaryOperator::GreaterThan => Ok(ValueView::Bool(less(rhs, lhs))),
        BinaryOperator::LessThanOrEqual => Ok(ValueView::Bool(less(lhs, rhs) || equal(lhs, rhs))),
        BinaryOperator::GreaterThanOrEqual => Ok(
            ValueView::Bool(less(rhs, lhs) || equal(lhs, rhs)),
        ),
        BinaryOperator::And | BinaryOperator::Or => Err(RuntimeError::UnsupportedOperands),
    }
}

/// Whether `operator` on these operands is computed by the host.
pub open spec fn asks_host(operator: BinaryOperator, lhs: ValueView, rhs: ValueView) -> bool {
    lhs is Number && rhs is Number && asks_arithmetic(operator, rhs->Number_0)
}

/// What `operator` makes of two values: numbers with numbers and integers
/// with integers take every operator but `&&` and `||`; strings with
/// strings take `+`, which joins them; truth values take `&&` and `||`. Any
/// other pairing is an error.
pub open spec fn binary_value(
    operator: BinaryOperator,
    lhs: ValueView,
    rhs: ValueView,
    computed: u64,
)
    -> Result<ValueView, RuntimeError> {
    match (lhs, rhs) {
        (ValueView::Number(a), ValueView::Number(b)) => numeric_value(operator, a, b, computed),
        (ValueView::Integer(a), ValueView::Integer(b)) => integer_value(operator, a, b),
        (ValueView::Text(a), ValueView::Text(b)) => match operator {
            BinaryOperator::Add => Ok(ValueView::Text(a + b)),
            _ => Err(RuntimeError::UnsupportedOperands),
        },
        (ValueView::Bool(a), ValueView::Bool(b)) => match operator {
            BinaryOperator::And => Ok(ValueView::Bool(a && b)),
            BinaryOperator::Or => Ok(ValueView::Bool(a || b)),
            _ => Err(RuntimeError::UnsupportedOperands),
        },
        _ => Err(RuntimeError::UnsupportedOperands),
    }
}

/// What the sign `operator` makes of a value: `-` negates a number, `!` a
/// truth value.
pub open spec fn unary_value(operator: Seq<char>, operand: ValueView) -> Result<
    ValueView,
    RuntimeError,
> {
    if operator == "-"@ {
        match operand {
            ValueView::Number(bits) => Ok(ValueView::Number(negated(bits))),
            _ => Err(RuntimeError::UnsupportedOperands),
        }
    } else if operator == "!"@ {
        match operand {
            ValueView::Bool(b) => Ok(ValueView::Bool(!b)),
            _ => Err(RuntimeError::UnsupportedOperands),
        }
    } else {
        Err(RuntimeError::UnsupportedOperator)
    }
}

/// Once a product is out of range, so is every later one.
pub proof fn lemma_powered_stays_out(base: i64, reached: nat, exponent: nat)
    requires
        reached <= exponent,
        powered(base, reached) is None,
    ensures
        powered(base, exponent) is None,
    decreases exponent,
{
    if reached < exponent {
        lemma_powered_stays_out(base, reached, (exponent - 1) as nat);
    }
}

/// The powers of 0, 1 and -1.
pub proof fn lemma_powered_small(base: i64, exponent: nat)
    requires
        -1 <= base <= 1,
    ensures
        base == 1 ==> powered(base, exponent) == Some(1i64),
        base == 0 ==> powered(base, exponent) == Some(if exponent == 0 { 1i64 } else { 0i64 }),
        base == -1 ==> powered(base, exponent) == Some(if exponent % 2 == 0 { 1i64 } else { -1i64 }),
    decreases exponent,
{
    if exponent > 0 {
        lemma_powered_small(base, (exponent - 1) as nat);
    }
}

/// Computes [`powered`].
pub fn integer_power(base: i64, exponent: u32) -> (result: Option<i64>)
    ensures
        result == powered(base, exponent as nat),
{
    if base == 1 || base == 0 || base == -1 {
        proof {
            lemma_powered_small(base, exponent as nat);
        }
        return Some(
            if base == 1 {
                1
            } else if base == 0 {
                if exponent == 0 {
                    1
                } else {
                    0
                }
            } else if exponent % 2 == 0 {
                1
            } else {
                -1
            },
        );
    }
    let mut product: i64 = 1;
    let mut done: u32 = 0;
    while done < exponent
        invariant
            done <= exponent,
            powered(base, done as nat) == Some(product),
        decreases exponent - done,
    {
        match product.checked_mul(base) {
            Some(next) => {
                product = next;
                done += 1;
            },
            None => {
                proof {
                    lemma_powered_stays_out(base, (done + 1) as nat, exponent as nat);
                }
                return None;
            },
        }
    }
    Some(product)
}

/// Wraps an integer result that may be out of range.
fn ranged(result: Option<i64>) -> (r: Result<RuntimeVal, RuntimeError>)
    ensures
        outcome(r) == in_range(result),
{
    match result {
        Some(value) => Ok(RuntimeVal::Integer(value)),
        None => Err(RuntimeError::IntegerOverflow),
    }
}

/// Computes [`integer_value`].
pub fn eval_integer_binary_expr(lhs: i64, rhs: i64, operator: &BinaryOperator) -> (r: Result<
    RuntimeVal,
    RuntimeError,
>)
    ensures
        outcome(r) == integer_value(*operator, lhs, rhs),
{
    match operator {
        BinaryOperator::Add => ranged(lhs.checked_add(rhs)),
        BinaryOperator::Subtract => ranged(lhs.checked_sub(rhs)),
        BinaryOperator::Multiply => ranged(lhs.checked_mul(rhs)),
        BinaryOperator::Divide => if rhs == 0 {
            Err(RuntimeError::DivisionByZero)
        } else {
            ranged(lhs.checked_div(rhs))
        },
        BinaryOperator::Modulus => if rhs == 0 {
            Err(RuntimeError::DivisionByZero)
        } else {
            ranged(lhs.checked_rem(rhs))
        },
        BinaryOperator::Exponent => if 0 <= rhs && rhs <= 0xFFFF_FFFF {
            ranged(integer_power(lhs, rhs as u32))
        } else {
            Err(RuntimeError::IntegerOverflow)
        },
        BinaryOperator::Equal => Ok(RuntimeVal::Bool(lhs == rhs)),
        BinaryOperator::NotEqual => Ok(RuntimeVal::Bool(lhs != rhs)),
        BinaryOperator::LessThan => Ok(RuntimeVal::Bool(lhs < rhs)),
        BinaryOperator::GreaterThan => Ok(RuntimeVal::Bool(lhs > rhs)),
        BinaryOperator::LessThanOrEqual => Ok(RuntimeVal::Bool(lhs <= rhs)),
        BinaryOperator::GreaterThanOrEqual => Ok(RuntimeVal::Bool(lhs >= rhs)),
        BinaryOperator::And => Err(RuntimeError::UnsupportedOperands),
        BinaryOperator::Or => Err(RuntimeError::UnsupportedOperands),
    }
}

/// Decides [`asks_arithmetic`].
pub fn needs_arithmetic(operator: &BinaryOperator, rhs: &Number) -> (asks: bool)
    ensures
        asks == asks_arithmetic(*operator, rhs.bits),
{
    match operator {
        BinaryOperator::Add => true,
        BinaryOperator::Subtract => true,
        BinaryOperator::Multiply => true,
        BinaryOperator::Exponent => true,
        BinaryOperator::Divide => !rhs.is_zero(),
        BinaryOperator::Modulus => !rhs.is_zero(),
        _ => false,
    }
}

/// Computes [`numeric_value`] from the operands and from what the host's
/// arithmetic gave.
pub fn numeric_result(lhs: Number, rhs: Number, operator: &BinaryOperator, computed: Number) -> (r:
    Result<RuntimeVal, RuntimeError>)
    ensures
        outcome(r) == numeric_value(*operator, lhs.bits, rhs.bits, computed.bits),
{
    match operator {
        BinaryOperator::Add => Ok(RuntimeVal::Number(computed)),
        BinaryOperator::Subtract => Ok(RuntimeVal::Number(computed)),
        BinaryOperator::Multiply => Ok(RuntimeVal::Number(computed)),
        BinaryOperator::Exponent => Ok(RuntimeVal::Number(computed)),
        BinaryOperator::Divide => if rhs.is_zero() {
            Err(RuntimeError::DivisionByZero)
        } else {
            Ok(RuntimeVal::Number(computed))
        },
        BinaryOperator::Modulus => if rhs.is_zero() {
            Err(RuntimeError::DivisionByZero)
        } else {
            Ok(RuntimeVal::Number(computed))
        },
        BinaryOperator::Equal => Ok(RuntimeVal::Bool(lhs.equals(&rhs))),
        BinaryOperator::NotEqual => Ok(RuntimeVal::Bool(!lhs.equals(&rhs))),
        BinaryOperator::LessThan => Ok(RuntimeVal::Bool(lhs.less_than(&rhs))),
        BinaryOperator::GreaterThan => Ok(RuntimeVal::Bool(rhs.less_than(&lhs))),
        BinaryOperator::LessThanOrEqual => Ok(
            RuntimeVal::Bool(lhs.less_than(&rhs) || lhs.equals(&rhs)),
        ),
        BinaryOperator::GreaterThanOrEqual => Ok(
            RuntimeVal::Bool(rhs.less_than(&lhs) || lhs.equals(&rhs)),
        ),
        BinaryOperator::And => Err(RuntimeError::UnsupportedOperands),
        BinaryOperator::Or => Err(RuntimeError::UnsupportedOperands),
    }
}

/// Computes [`binary_value`] from the operands and from what the host's
/// arithmetic gave.
pub fn binary_result(
    operator: &BinaryOperator,
    lhs: &RuntimeVal,
    rhs: &RuntimeVal,
    computed: Number,
) -> (r: Result<RuntimeVal, RuntimeError>)
    ensures
        outcome(r) == binary_value(*operator, lhs@, rhs@, computed.bits),
{
    match (lhs, rhs) {
        (RuntimeVal::Number(a), RuntimeVal::Number(b)) => numeric_result(*a, *b, operator, computed),
        (RuntimeVal::Integer(a), RuntimeVal::Integer(b)) => eval_integer_binary_expr(
            *a,
            *b,
            operator,
        ),
        (RuntimeVal::String(a), RuntimeVal::String(b)) => match operator {
            BinaryOperator::Add => Ok(RuntimeVal::String(a.clone().concat(b.as_str()))),
            _ => Err(RuntimeError::UnsupportedOperands),
        },
        (RuntimeVal::Bool(a), RuntimeVal::Bool(b)) => match operator {
            BinaryOperator::And => Ok(RuntimeVal::Bool(*a && *b)),
            BinaryOperator::Or => Ok(RuntimeVal::Bool(*a || *b)),
            _ => Err(RuntimeError::UnsupportedOperands),
        },
        _ => Err(RuntimeError::UnsupportedOperands),
    }
}

/// What `operator` makes of two numbers: asks the host for the sum,
/// difference, product, quotient, remainder or power, and decides the rest
/// itself. Where the host is asked, the log grows by that exchange and the
/// result is [`numeric_value`] of the answer; else the log stays and the
/// result is that of the operands alone.
pub fn eval_numeric_binary_expr<H: Host>(
    lhs: Number,
    rhs: Number,
    operator: &BinaryOperator,
    interpreter: &mut Interpreter<H>,
) -> (r: Result<RuntimeVal, RuntimeError>)
    ensures
        final(interpreter).fuel == old(interpreter).fuel,
        asks_arithmetic(*operator, rhs.bits) ==> {
            &&& final(interpreter).log@ == old(interpreter).log@.push(final(interpreter).log@.last())
            &&& final(interpreter).log@.last() matches Exchange::Arithmetic {
                operator: asked,
                lhs: a,
                rhs: b,
                answer,
            } && asked == *operator && a == lhs.bits && b == rhs.bits && outcome(r)
                == numeric_value(*operator, lhs.bits, rhs.bits, answer)
        },
        !asks_arithmetic(*operator, rhs.bits) ==> final(interpreter).log@ == old(interpreter).log@
            && outcome(r) == numeric_value(*operator, lhs.bits, rhs.bits, 0),
{
    let computed = if needs_arithmetic(operator, &rhs) {
        interpreter.ask_arithmetic(*operator, lhs, rhs)
    } else {
        Number { bits: 0 }
    };
    numeric_result(lhs, rhs, operator, computed)
}

/// What `operator` makes of two values. Asks the host's arithmetic where
/// [`asks_host`] holds, and nowhere else: there the log grows by that
/// exchange and the result is [`binary_value`] of the answer; elsewhere the
/// log stays and the result is that of the operands alone.
pub fn apply_binary<H: Host>(
    operator: &BinaryOperator,
    lhs: &RuntimeVal,
    rhs: &RuntimeVal,
    interpreter: &mut Interpreter<H>,
) -> (r: Result<RuntimeVal, RuntimeError>)
    ensures
        final(interpreter).fuel == old(interpreter).fuel,
        asks_host(*operator, lhs@, rhs@) ==> {
            &&& final(interpreter).log@ == old(interpreter).log@.push(final(interpreter).log@.last())
            &&& final(interpreter).log@.last() matches Exchange::Arithmetic {
                operator: asked,
                lhs: a,
                rhs: b,
                answer,
            } && asked == *operator && ValueView::Number(a) == lhs@ && ValueView::Number(b) == rhs@
                && outcome(r) == binary_value(*operator, lhs@, rhs@, answer)
        },
        !asks_host(*operator, lhs@, rhs@) ==> final(interpreter).log@ == old(interpreter).log@
            && outcome(r) == binary_value(*operator, lhs@, rhs@, 0),
{
    match (lhs, rhs) {
        (RuntimeVal::Number(a), RuntimeVal::Number(b)) => eval_numeric_binary_expr(
            *a,
            *b,
            operator,
            interpreter,
        ),
        _ => binary_result(operator, lhs, rhs, Number { bits: 0 }),
    }
}

/// Computes [`unary_value`].
pub fn unary_result(operator: &str, operand: &RuntimeVal) -> (r: Result<RuntimeVal, RuntimeError>)
    ensures
        outcome(r) == unary_value(operator@, operand@),
{
    if operator.eq("-") {
        match operand {
            RuntimeVal::Number(n) => Ok(RuntimeVal::Number(n.negate())),
            _ => Err(RuntimeError::UnsupportedOperands),
        }
    } else if operator.eq("!") {
        match operand {
            RuntimeVal::Bool(b) => Ok(RuntimeVal::Bool(!*b)),
            _ => Err(RuntimeError::UnsupportedOperands),
        }
    } else {
        Err(RuntimeError::UnsupportedOperator)
    }
}

} // verus!
