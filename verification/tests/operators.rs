use kaulin::error::RuntimeError;
use kaulin::frontend::ast::BinaryOperator;
use kaulin::runtime::eval::operators::{
    binary_result, eval_integer_binary_expr, integer_power, needs_arithmetic, numeric_result,
    unary_result,
};
use kaulin::runtime::number::Number;
use kaulin::runtime::values::RuntimeVal;

fn n(x: f64) -> Number {
    Number::from_bits(x.to_bits())
}

fn shown<T: std::fmt::Debug>(value: &T) -> String {
    format!("{:?}", value)
}

fn integer(r: Result<RuntimeVal, RuntimeError>) -> Result<i64, RuntimeError> {
    match r {
        Ok(RuntimeVal::Integer(i)) => Ok(i),
        Ok(other) => panic!("not an integer: {:?}", other),
        Err(e) => Err(e),
    }
}

fn truth(r: Result<RuntimeVal, RuntimeError>) -> Result<bool, RuntimeError> {
    match r {
        Ok(RuntimeVal::Bool(b)) => Ok(b),
        Ok(other) => panic!("not a truth value: {:?}", other),
        Err(e) => Err(e),
    }
}

const ALL: [BinaryOperator; 14] = [
    BinaryOperator::Add,
    BinaryOperator::Subtract,
    BinaryOperator::Multiply,
    BinaryOperator::Divide,
    BinaryOperator::Exponent,
    BinaryOperator::Modulus,
    BinaryOperator::Equal,
    BinaryOperator::NotEqual,
    BinaryOperator::LessThan,
    BinaryOperator::GreaterThan,
    BinaryOperator::LessThanOrEqual,
    BinaryOperator::GreaterThanOrEqual,
    BinaryOperator::And,
    BinaryOperator::Or,
];

#[test]
fn integer_arithmetic() {
    assert_eq!(integer(eval_integer_binary_expr(7, 3, &BinaryOperator::Add)), Ok(10));
    assert_eq!(integer(eval_integer_binary_expr(7, 3, &BinaryOperator::Subtract)), Ok(4));
    assert_eq!(integer(eval_integer_binary_expr(7, 3, &BinaryOperator::Multiply)), Ok(21));
    assert_eq!(integer(eval_integer_binary_expr(7, 3, &BinaryOperator::Divide)), Ok(2));
    assert_eq!(integer(eval_integer_binary_expr(7, 3, &BinaryOperator::Modulus)), Ok(1));
    assert_eq!(integer(eval_integer_binary_expr(7, 3, &BinaryOperator::Exponent)), Ok(343));
}

#[test]
fn integer_division_rounds_towards_zero() {
    assert_eq!(integer(eval_integer_binary_expr(-7, 2, &BinaryOperator::Divide)), Ok(-3));
    assert_eq!(integer(eval_integer_binary_expr(7, -2, &BinaryOperator::Divide)), Ok(-3));
    assert_eq!(integer(eval_integer_binary_expr(-7, -2, &BinaryOperator::Divide)), Ok(3));
    assert_eq!(integer(eval_integer_binary_expr(-7, 2, &BinaryOperator::Modulus)), Ok(-1));
    assert_eq!(integer(eval_integer_binary_expr(7, -2, &BinaryOperator::Modulus)), Ok(1));
    assert_eq!(integer(eval_integer_binary_expr(1675000000123, 1000, &BinaryOperator::Divide)), Ok(1675000000));
}

#[test]
fn integer_division_by_zero_is_an_error() {
    assert_eq!(integer(eval_integer_binary_expr(1, 0, &BinaryOperator::Divide)), Err(RuntimeError::DivisionByZero));
    assert_eq!(integer(eval_integer_binary_expr(1, 0, &BinaryOperator::Modulus)), Err(RuntimeError::DivisionByZero));
    assert_eq!(integer(eval_integer_binary_expr(0, 0, &BinaryOperator::Divide)), Err(RuntimeError::DivisionByZero));
}

#[test]
fn integer_results_out_of_range_are_errors() {
    assert_eq!(integer(eval_integer_binary_expr(i64::MAX, 1, &BinaryOperator::Add)), Err(RuntimeError::IntegerOverflow));
    assert_eq!(integer(eval_integer_binary_expr(i64::MIN, 1, &BinaryOperator::Subtract)), Err(RuntimeError::IntegerOverflow));
    assert_eq!(integer(eval_integer_binary_expr(i64::MAX, 2, &BinaryOperator::Multiply)), Err(RuntimeError::IntegerOverflow));
    assert_eq!(integer(eval_integer_binary_expr(i64::MIN, -1, &BinaryOperator::Divide)), Err(RuntimeError::IntegerOverflow));
    assert_eq!(integer(eval_integer_binary_expr(i64::MIN, -1, &BinaryOperator::Modulus)), Err(RuntimeError::IntegerOverflow));
    assert_eq!(integer(eval_integer_binary_expr(i64::MAX, 0, &BinaryOperator::Add)), Ok(i64::MAX));
    assert_eq!(integer(eval_integer_binary_expr(i64::MIN, 1, &BinaryOperator::Multiply)), Ok(i64::MIN));
}

#[test]
fn integer_powers() {
    assert_eq!(integer_power(2, 10), Some(1024));
    assert_eq!(integer_power(2, 62), Some(1 << 62));
    assert_eq!(integer_power(2, 63), None);
    assert_eq!(integer_power(-2, 63), Some(i64::MIN));
    assert_eq!(integer_power(-2, 64), None);
    assert_eq!(integer_power(3, 0), Some(1));
    assert_eq!(integer_power(0, 0), Some(1));
    assert_eq!(integer_power(0, 5), Some(0));
    assert_eq!(integer_power(1, u32::MAX), Some(1));
    assert_eq!(integer_power(-1, u32::MAX), Some(-1));
    assert_eq!(integer_power(-1, 4000000000), Some(1));
    assert_eq!(integer_power(10, 18), Some(1_000_000_000_000_000_000));
    assert_eq!(integer_power(10, 19), None);
    assert_eq!(integer_power(-3, 3), Some(-27));
    assert_eq!(integer(eval_integer_binary_expr(2, 63, &BinaryOperator::Exponent)), Err(RuntimeError::IntegerOverflow));
    assert_eq!(integer(eval_integer_binary_expr(2, -1, &BinaryOperator::Exponent)), Err(RuntimeError::IntegerOverflow));
    assert_eq!(integer(eval_integer_binary_expr(1, 1 << 32, &BinaryOperator::Exponent)), Err(RuntimeError::IntegerOverflow));
    assert_eq!(integer(eval_integer_binary_expr(1, u32::MAX as i64, &BinaryOperator::Exponent)), Ok(1));
}

#[test]
fn integer_comparisons() {
    assert_eq!(truth(eval_integer_binary_expr(1, 2, &BinaryOperator::Equal)), Ok(false));
    assert_eq!(truth(eval_integer_binary_expr(2, 2, &BinaryOperator::Equal)), Ok(true));
    assert_eq!(truth(eval_integer_binary_expr(1, 2, &BinaryOperator::NotEqual)), Ok(true));
    assert_eq!(truth(eval_integer_binary_expr(1, 2, &BinaryOperator::LessThan)), Ok(true));
    assert_eq!(truth(eval_integer_binary_expr(2, 2, &BinaryOperator::LessThan)), Ok(false));
    assert_eq!(truth(eval_integer_binary_expr(1, 2, &BinaryOperator::GreaterThan)), Ok(false));
    assert_eq!(truth(eval_integer_binary_expr(2, 2, &BinaryOperator::LessThanOrEqual)), Ok(true));
    assert_eq!(truth(eval_integer_binary_expr(3, 2, &BinaryOperator::GreaterThanOrEqual)), Ok(true));
    assert_eq!(truth(eval_integer_binary_expr(-3, 2, &BinaryOperator::GreaterThanOrEqual)), Ok(false));
}

#[test]
fn integers_take_no_logical_operator() {
    assert_eq!(truth(eval_integer_binary_expr(1, 1, &BinaryOperator::And)), Err(RuntimeError::UnsupportedOperands));
    assert_eq!(truth(eval_integer_binary_expr(1, 1, &BinaryOperator::Or)), Err(RuntimeError::UnsupportedOperands));
}

#[test]
fn arithmetic_on_numbers_is_what_the_host_computed() {
    for operator in [BinaryOperator::Add, BinaryOperator::Subtract, BinaryOperator::Multiply, BinaryOperator::Exponent, BinaryOperator::Divide, BinaryOperator::Modulus] {
        assert!(needs_arithmetic(&operator, &n(3.0)));
        let r = numeric_result(n(2.0), n(3.0), &operator, n(42.0));
        assert_eq!(shown(&r), shown(&Ok::<RuntimeVal, RuntimeError>(RuntimeVal::Number(n(42.0)))));
    }
}

#[test]
fn division_of_numbers_by_zero_is_an_error() {
    for zero in [0.0, -0.0] {
        for operator in [BinaryOperator::Divide, BinaryOperator::Modulus] {
            assert!(!needs_arithmetic(&operator, &n(zero)));
            let r = numeric_result(n(2.0), n(zero), &operator, n(42.0));
            assert_eq!(r.err(), Some(RuntimeError::DivisionByZero));
        }
        assert!(needs_arithmetic(&BinaryOperator::Add, &n(zero)));
        assert!(needs_arithmetic(&BinaryOperator::Exponent, &n(zero)));
    }
}

#[test]
fn comparisons_of_numbers_ask_no_arithmetic() {
    let values = [0.0, -0.0, 1.0, -1.0, 2.5, f64::INFINITY, f64::NEG_INFINITY, f64::NAN];
    for a in values {
        for b in values {
            for (operator, expected) in [
                (BinaryOperator::Equal, a == b),
                (BinaryOperator::NotEqual, a != b),
                (BinaryOperator::LessThan, a < b),
                (BinaryOperator::GreaterThan, a > b),
                (BinaryOperator::LessThanOrEqual, a <= b),
                (BinaryOperator::GreaterThanOrEqual, a >= b),
            ] {
                assert!(!needs_arithmetic(&operator, &n(b)));
                assert_eq!(truth(numeric_result(n(a), n(b), &operator, n(42.0))), Ok(expected), "{a} {:?} {b}", operator);
            }
        }
    }
}

#[test]
fn numbers_take_no_logical_operator() {
    for operator in [BinaryOperator::And, BinaryOperator::Or] {
        assert!(!needs_arithmetic(&operator, &n(1.0)));
        assert_eq!(numeric_result(n(1.0), n(1.0), &operator, n(0.0)).err(), Some(RuntimeError::UnsupportedOperands));
    }
}

#[test]
fn strings_are_joined_by_plus_and_take_nothing_else() {
    let a = RuntimeVal::String("hei ".to_string());
    let b = RuntimeVal::String("maailma".to_string());
    let joined = binary_result(&BinaryOperator::Add, &a, &b, n(0.0));
    assert_eq!(shown(&joined), shown(&Ok::<RuntimeVal, RuntimeError>(RuntimeVal::String("hei maailma".to_string()))));
    for operator in ALL {
        if operator != BinaryOperator::Add {
            assert_eq!(binary_result(&operator, &a, &b, n(0.0)).err(), Some(RuntimeError::UnsupportedOperands));
        }
    }
}

#[test]
fn truth_values_take_and_and_or_only() {
    for a in [false, true] {
        for b in [false, true] {
            let (x, y) = (RuntimeVal::Bool(a), RuntimeVal::Bool(b));
            assert_eq!(truth(binary_result(&BinaryOperator::And, &x, &y, n(0.0))), Ok(a && b));
            assert_eq!(truth(binary_result(&BinaryOperator::Or, &x, &y, n(0.0))), Ok(a || b));
            for operator in ALL {
                if operator != BinaryOperator::And && operator != BinaryOperator::Or {
                    assert_eq!(binary_result(&operator, &x, &y, n(0.0)).err(), Some(RuntimeError::UnsupportedOperands));
                }
            }
        }
    }
}

#[test]
fn operands_of_different_types_are_an_error() {
    let values = [
        RuntimeVal::Null,
        RuntimeVal::Bool(true),
        RuntimeVal::Integer(1),
        RuntimeVal::Number(n(1.0)),
        RuntimeVal::String("1".to_string()),
        RuntimeVal::Array(vec![]),
        RuntimeVal::Object(vec![]),
    ];
    for (i, a) in values.iter().enumerate() {
        for (j, b) in values.iter().enumerate() {
            if i != j {
                for operator in ALL {
                    assert_eq!(binary_result(&operator, a, b, n(0.0)).err(), Some(RuntimeError::UnsupportedOperands));
                }
            }
        }
    }
    for operator in ALL {
        assert_eq!(binary_result(&operator, &RuntimeVal::Null, &RuntimeVal::Null, n(0.0)).err(), Some(RuntimeError::UnsupportedOperands));
        assert_eq!(binary_result(&operator, &values[5], &values[5], n(0.0)).err(), Some(RuntimeError::UnsupportedOperands));
    }
}

#[test]
fn binary_result_on_numbers_and_integers() {
    let r = binary_result(&BinaryOperator::Add, &RuntimeVal::Number(n(1.0)), &RuntimeVal::Number(n(2.0)), n(3.0));
    assert_eq!(shown(&r), shown(&Ok::<RuntimeVal, RuntimeError>(RuntimeVal::Number(n(3.0)))));
    let r = binary_result(&BinaryOperator::Add, &RuntimeVal::Integer(1), &RuntimeVal::Integer(2), n(99.0));
    assert_eq!(integer(r), Ok(3));
}

#[test]
fn unary_signs() {
    let minus = unary_result("-", &RuntimeVal::Number(n(2.5)));
    assert_eq!(shown(&minus), shown(&Ok::<RuntimeVal, RuntimeError>(RuntimeVal::Number(n(-2.5)))));
    let minus_zero = unary_result("-", &RuntimeVal::Number(n(0.0)));
    assert_eq!(shown(&minus_zero), shown(&Ok::<RuntimeVal, RuntimeError>(RuntimeVal::Number(n(-0.0)))));
    assert_eq!(truth(unary_result("!", &RuntimeVal::Bool(true))), Ok(false));
    assert_eq!(truth(unary_result("!", &RuntimeVal::Bool(false))), Ok(true));
    assert_eq!(unary_result("-", &RuntimeVal::Bool(true)).err(), Some(RuntimeError::UnsupportedOperands));
    assert_eq!(unary_result("-", &RuntimeVal::Integer(1)).err(), Some(RuntimeError::UnsupportedOperands));
    assert_eq!(unary_result("!", &RuntimeVal::Number(n(1.0))).err(), Some(RuntimeError::UnsupportedOperands));
    assert_eq!(unary_result("!", &RuntimeVal::Null).err(), Some(RuntimeError::UnsupportedOperands));
    assert_eq!(unary_result("+", &RuntimeVal::Number(n(1.0))).err(), Some(RuntimeError::UnsupportedOperator));
    assert_eq!(unary_result("", &RuntimeVal::Bool(true)).err(), Some(RuntimeError::UnsupportedOperator));
}
