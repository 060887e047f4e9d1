use kaulin::error::RuntimeError;
use kaulin::runtime::native_functions::{
    abs_function, interpolate, largest, length_of, millis_to_seconds_function, random_integer,
    reverse_function, smallest,
};
use kaulin::runtime::number::Number;
use kaulin::runtime::values::RuntimeVal;

fn n(x: f64) -> RuntimeVal {
    RuntimeVal::Number(Number::from_bits(x.to_bits()))
}

fn shown<T: std::fmt::Debug>(value: &T) -> String {
    format!("{:?}", value)
}

fn ok(value: RuntimeVal) -> String {
    shown(&Ok::<RuntimeVal, RuntimeError>(value))
}

fn texts(items: &[&str]) -> Vec<String> {
    items.iter().map(|s| s.to_string()).collect()
}

#[test]
fn reverse_turns_an_array_around() {
    let array = RuntimeVal::Array(vec![RuntimeVal::Integer(1), n(2.0), RuntimeVal::String("c".to_string())]);
    let turned = RuntimeVal::Array(vec![RuntimeVal::String("c".to_string()), n(2.0), RuntimeVal::Integer(1)]);
    assert_eq!(shown(&reverse_function(vec![array], vec![])), ok(turned));
    assert_eq!(shown(&reverse_function(vec![RuntimeVal::Array(vec![])], vec![])), ok(RuntimeVal::Array(vec![])));
    let one = RuntimeVal::Array(vec![RuntimeVal::Null]);
    assert_eq!(shown(&reverse_function(vec![one.clone(), RuntimeVal::Integer(5)], vec![])), ok(one));
}

#[test]
fn reverse_takes_arrays_only() {
    assert_eq!(reverse_function(vec![], vec![]).err(), Some(RuntimeError::InvalidArgument));
    assert_eq!(reverse_function(vec![RuntimeVal::Integer(1)], vec![]).err(), Some(RuntimeError::InvalidArgument));
    assert_eq!(
        reverse_function(vec![RuntimeVal::String("abc".to_string())], vec![]).err(),
        Some(RuntimeError::InvalidArgument)
    );
}

#[test]
fn seconds_are_whole_and_rounded_towards_zero() {
    let seconds = |millis: i64| shown(&millis_to_seconds_function(vec![RuntimeVal::Integer(millis)], vec![]));
    assert_eq!(seconds(5000), ok(RuntimeVal::Integer(5)));
    assert_eq!(seconds(5999), ok(RuntimeVal::Integer(5)));
    assert_eq!(seconds(999), ok(RuntimeVal::Integer(0)));
    assert_eq!(seconds(0), ok(RuntimeVal::Integer(0)));
    assert_eq!(seconds(-1), ok(RuntimeVal::Integer(0)));
    assert_eq!(seconds(-1999), ok(RuntimeVal::Integer(-1)));
    assert_eq!(seconds(-2000), ok(RuntimeVal::Integer(-2)));
    assert_eq!(seconds(i64::MAX), ok(RuntimeVal::Integer(i64::MAX / 1000)));
    assert_eq!(seconds(i64::MIN), ok(RuntimeVal::Integer(i64::MIN / 1000)));
}

#[test]
fn seconds_take_integers_only() {
    assert_eq!(millis_to_seconds_function(vec![], vec![]).err(), Some(RuntimeError::InvalidArgument));
    assert_eq!(millis_to_seconds_function(vec![n(5000.0)], vec![]).err(), Some(RuntimeError::InvalidArgument));
    assert_eq!(
        millis_to_seconds_function(vec![RuntimeVal::Null], vec![]).err(),
        Some(RuntimeError::InvalidArgument)
    );
}

#[test]
fn absolute_values() {
    for x in [0.0, -0.0, 1.5, -1.5, f64::INFINITY, f64::NEG_INFINITY, f64::MIN_POSITIVE, -5e-324, f64::NAN, -f64::NAN] {
        assert_eq!(shown(&abs_function(vec![n(x)], vec![])), ok(n(x.abs())), "{x}");
    }
    assert_eq!(shown(&abs_function(vec![RuntimeVal::Integer(-7)], vec![])), ok(RuntimeVal::Integer(7)));
    assert_eq!(shown(&abs_function(vec![RuntimeVal::Integer(7)], vec![])), ok(RuntimeVal::Integer(7)));
    assert_eq!(shown(&abs_function(vec![RuntimeVal::Integer(0)], vec![])), ok(RuntimeVal::Integer(0)));
    assert_eq!(
        shown(&abs_function(vec![RuntimeVal::Integer(i64::MIN + 1)], vec![])),
        ok(RuntimeVal::Integer(i64::MAX))
    );
    assert_eq!(abs_function(vec![RuntimeVal::Integer(i64::MIN)], vec![]).err(), Some(RuntimeError::IntegerOverflow));
}

#[test]
fn absolute_value_takes_numbers_only() {
    assert_eq!(abs_function(vec![], vec![]).err(), Some(RuntimeError::InvalidArgument));
    assert_eq!(abs_function(vec![RuntimeVal::Bool(true)], vec![]).err(), Some(RuntimeError::InvalidArgument));
    assert_eq!(
        abs_function(vec![RuntimeVal::String("-1".to_string())], vec![]).err(),
        Some(RuntimeError::InvalidArgument)
    );
}

#[test]
fn placeholders_take_the_arguments_in_order() {
    assert_eq!(interpolate("a %{} b %{} c", &texts(&["1", "2"])), "a 1 b 2 c");
    assert_eq!(interpolate("%{}%{}", &texts(&["x", "y"])), "xy");
    assert_eq!(interpolate("%{}", &texts(&[""])), "");
    assert_eq!(interpolate("summa: %{}", &texts(&["%{}"])), "summa: %{}");
}

#[test]
fn text_without_placeholders_stays() {
    assert_eq!(interpolate("hei maailma", &texts(&[])), "hei maailma");
    assert_eq!(interpolate("hei maailma", &texts(&["1", "2"])), "hei maailma");
    assert_eq!(interpolate("", &texts(&["1"])), "");
    assert_eq!(interpolate("100% {} %{ } % {}", &texts(&["1"])), "100% {} %{ } % {}");
    assert_eq!(interpolate("%{", &texts(&["1"])), "%{");
    assert_eq!(interpolate("ä%ö", &texts(&["1"])), "ä%ö");
}

#[test]
fn text_ends_before_a_placeholder_without_argument() {
    assert_eq!(interpolate("a %{} b %{} c", &texts(&["1"])), "a 1 b ");
    assert_eq!(interpolate("a %{} b", &texts(&[])), "a ");
    assert_eq!(interpolate("%{}", &texts(&[])), "");
}

#[test]
fn arguments_without_placeholder_are_ignored() {
    assert_eq!(interpolate("a %{} b", &texts(&["1", "2", "3"])), "a 1 b");
}

#[test]
fn random_integers_lie_in_their_range() {
    for _ in 0..200 {
        let drawn = random_integer(-3, 4).unwrap();
        assert!((-3..4).contains(&drawn));
    }
    assert_eq!(random_integer(7, 8), Ok(7));
    assert_eq!(random_integer(i64::MAX - 1, i64::MAX), Ok(i64::MAX - 1));
    assert!(random_integer(i64::MIN, i64::MAX).is_ok());
}

#[test]
fn random_integers_differ() {
    let draws: Vec<i64> = (0..60).map(|_| random_integer(0, 1_000_000_000).unwrap()).collect();
    assert!(draws.iter().any(|drawn| *drawn != draws[0]));
    assert!(draws.iter().any(|drawn| *drawn != 0));
}

#[test]
fn an_empty_range_has_no_random_integer() {
    assert_eq!(random_integer(5, 5), Err(RuntimeError::InvalidArgument));
    assert_eq!(random_integer(5, 4), Err(RuntimeError::InvalidArgument));
    assert_eq!(random_integer(i64::MAX, i64::MIN), Err(RuntimeError::InvalidArgument));
}

fn numbers(values: &[f64]) -> Vec<Number> {
    values.iter().map(|x| Number::from_bits(x.to_bits())).collect()
}

fn value(found: Option<Number>) -> Option<f64> {
    found.map(|number| f64::from_bits(number.to_bits()))
}

#[test]
fn largest_and_smallest_of_numbers() {
    let list = numbers(&[3.0, -1.5, 7.25, 0.0, 7.0, -8.0]);
    assert_eq!(value(largest(&list)), Some(7.25));
    assert_eq!(value(smallest(&list)), Some(-8.0));
    assert_eq!(value(largest(&numbers(&[2.0]))), Some(2.0));
    assert_eq!(value(smallest(&numbers(&[2.0]))), Some(2.0));
    assert_eq!(value(largest(&numbers(&[-1.0, f64::INFINITY, 5.0]))), Some(f64::INFINITY));
    assert_eq!(value(smallest(&numbers(&[-1.0, f64::NEG_INFINITY, 5.0]))), Some(f64::NEG_INFINITY));
    assert_eq!(value(largest(&numbers(&[1.0, 2.0, 3.0]))), Some(3.0));
    assert_eq!(value(smallest(&numbers(&[3.0, 2.0, 1.0]))), Some(1.0));
}

#[test]
fn an_empty_array_has_no_largest_and_no_smallest() {
    assert_eq!(largest(&vec![]), None);
    assert_eq!(smallest(&vec![]), None);
}

#[test]
fn the_first_of_equal_numbers_is_kept() {
    let zeros = numbers(&[0.0, -0.0]);
    assert_eq!(largest(&zeros).unwrap().to_bits(), 0.0f64.to_bits());
    assert_eq!(smallest(&zeros).unwrap().to_bits(), 0.0f64.to_bits());
    let other = numbers(&[-0.0, 0.0]);
    assert_eq!(largest(&other).unwrap().to_bits(), (-0.0f64).to_bits());
}

#[test]
fn not_a_number_takes_no_place_and_gives_none() {
    assert_eq!(value(largest(&numbers(&[1.0, f64::NAN, 3.0]))), Some(3.0));
    assert_eq!(value(smallest(&numbers(&[1.0, f64::NAN, 3.0]))), Some(1.0));
    assert!(value(largest(&numbers(&[f64::NAN, 1.0, 3.0]))).unwrap().is_nan());
    assert!(value(smallest(&numbers(&[f64::NAN, 1.0, 3.0]))).unwrap().is_nan());
}

#[test]
fn length_counts_the_elements_of_an_array() {
    let array = RuntimeVal::Array(vec![RuntimeVal::Null, RuntimeVal::Integer(1), n(2.0)]);
    assert_eq!(length_of(&vec![array]), Ok(3));
    assert_eq!(length_of(&vec![RuntimeVal::Array(vec![])]), Ok(0));
    assert_eq!(length_of(&vec![]), Err(RuntimeError::InvalidArgument));
    assert_eq!(length_of(&vec![RuntimeVal::String("abc".to_string())]), Err(RuntimeError::InvalidArgument));
}
