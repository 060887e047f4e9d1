use kaulin::error::{ErrorKind, RuntimeError};
use kaulin::runtime::environment::{
    contains_name, create_global_env, find_binding, Environment, ABSOLUTE, INPUT, LENGTH, MAXIMUM,
    MINIMUM, PRINT, RANDOM, REVERSE, ROUND, SECONDS, SORT, SQUARE_ROOT, TIME, TO_INTEGER,
    TO_NUMBER, TO_STRING,
};
use kaulin::runtime::number::Number;
use kaulin::runtime::values::{
    NativeFunction, RuntimeVal, MK_ARRAY, MK_BOOL, MK_INTEGER, MK_NATIVE_FN, MK_NULL, MK_NUMBER,
    MK_OBJECT, MK_STRING,
};

fn shown<T: std::fmt::Debug>(value: &T) -> String {
    format!("{:?}", value)
}

fn text(value: &str) -> RuntimeVal {
    MK_STRING(value.to_string())
}

#[test]
fn a_declared_name_can_be_looked_up() {
    let mut env = Environment::new(None);
    let given = env.declare_var("x".to_string(), MK_INTEGER(5), false).unwrap();
    assert_eq!(shown(&given), shown(&MK_INTEGER(5)));
    assert_eq!(shown(&env.lookup_var("x")), shown(&Ok::<RuntimeVal, RuntimeError>(MK_INTEGER(5))));
}

#[test]
fn a_name_cannot_be_declared_twice_in_one_frame() {
    let mut env = Environment::new(None);
    env.declare_var("x".to_string(), MK_INTEGER(5), false).unwrap();
    let again = env.declare_var("x".to_string(), MK_INTEGER(6), false);
    assert_eq!(again.err(), Some(RuntimeError::AlreadyDeclared));
    assert_eq!(shown(&env.lookup_var("x").unwrap()), shown(&MK_INTEGER(5)));
    assert_eq!(env.variables.len(), 1);
}

#[test]
fn an_inner_frame_may_shadow_an_outer_name() {
    let mut env = Environment::new(None);
    env.declare_var("x".to_string(), MK_INTEGER(1), false).unwrap();
    env.push_scope();
    env.declare_var("x".to_string(), MK_INTEGER(2), false).unwrap();
    assert_eq!(shown(&env.lookup_var("x").unwrap()), shown(&MK_INTEGER(2)));
    assert!(env.pop_scope());
    assert_eq!(shown(&env.lookup_var("x").unwrap()), shown(&MK_INTEGER(1)));
}

#[test]
fn an_unknown_name_is_an_error() {
    let mut env = Environment::new(None);
    assert_eq!(env.lookup_var("x").err(), Some(RuntimeError::NotDeclared));
    assert_eq!(env.assign_var(&"x".to_string(), &MK_NULL()).err(), Some(RuntimeError::NotDeclared));
    assert_eq!(env.resolve("x").err(), Some(RuntimeError::NotDeclared));
    env.push_scope();
    assert_eq!(env.lookup_var("x").err(), Some(RuntimeError::NotDeclared));
    assert_eq!(env.assign_var(&"x".to_string(), &MK_NULL()).err(), Some(RuntimeError::NotDeclared));
}

#[test]
fn assignment_changes_the_value() {
    let mut env = Environment::new(None);
    env.declare_var("x".to_string(), MK_INTEGER(1), false).unwrap();
    env.declare_var("y".to_string(), MK_INTEGER(2), false).unwrap();
    env.assign_var(&"x".to_string(), &text("uusi")).unwrap();
    assert_eq!(shown(&env.lookup_var("x").unwrap()), shown(&text("uusi")));
    assert_eq!(shown(&env.lookup_var("y").unwrap()), shown(&MK_INTEGER(2)));
    assert_eq!(env.variables.len(), 2);
}

#[test]
fn a_constant_cannot_be_assigned() {
    let mut env = Environment::new(None);
    env.declare_var("y".to_string(), MK_INTEGER(1), true).unwrap();
    let assigned = env.assign_var(&"y".to_string(), &MK_INTEGER(2));
    assert_eq!(assigned.err(), Some(RuntimeError::AssignedConstant));
    assert_eq!(shown(&env.lookup_var("y").unwrap()), shown(&MK_INTEGER(1)));
    env.push_scope();
    let assigned = env.assign_var(&"y".to_string(), &MK_INTEGER(2));
    assert_eq!(assigned.err(), Some(RuntimeError::AssignedConstant));
}

#[test]
fn a_variable_that_shadows_a_constant_can_be_assigned() {
    let mut env = Environment::new(None);
    env.declare_var("y".to_string(), MK_INTEGER(1), true).unwrap();
    env.push_scope();
    env.declare_var("y".to_string(), MK_INTEGER(2), false).unwrap();
    env.assign_var(&"y".to_string(), &MK_INTEGER(3)).unwrap();
    assert_eq!(shown(&env.lookup_var("y").unwrap()), shown(&MK_INTEGER(3)));
    env.pop_scope();
    assert_eq!(shown(&env.lookup_var("y").unwrap()), shown(&MK_INTEGER(1)));
}

#[test]
fn an_outer_name_is_visible_and_assignable_from_an_inner_frame() {
    let mut env = Environment::new(None);
    env.declare_var("x".to_string(), MK_INTEGER(1), false).unwrap();
    env.push_scope();
    env.push_scope();
    assert_eq!(shown(&env.lookup_var("x").unwrap()), shown(&MK_INTEGER(1)));
    env.assign_var(&"x".to_string(), &MK_INTEGER(7)).unwrap();
    assert_eq!(env.variables.len(), 0);
    env.pop_scope();
    env.pop_scope();
    assert_eq!(shown(&env.lookup_var("x").unwrap()), shown(&MK_INTEGER(7)));
}

#[test]
fn what_an_inner_frame_declares_is_gone_with_it() {
    let mut env = Environment::new(None);
    env.push_scope();
    env.declare_var("z".to_string(), MK_INTEGER(1), false).unwrap();
    assert!(env.lookup_var("z").is_ok());
    env.pop_scope();
    assert_eq!(env.lookup_var("z").err(), Some(RuntimeError::NotDeclared));
}

#[test]
fn the_outermost_frame_cannot_be_left() {
    let mut env = Environment::new(None);
    env.declare_var("x".to_string(), MK_INTEGER(1), false).unwrap();
    assert!(!env.pop_scope());
    assert_eq!(shown(&env.lookup_var("x").unwrap()), shown(&MK_INTEGER(1)));
}

#[test]
fn resolve_gives_the_frame_that_declares_the_name() {
    let mut env = Environment::new(None);
    env.declare_var("x".to_string(), MK_INTEGER(1), false).unwrap();
    env.push_scope();
    env.declare_var("y".to_string(), MK_INTEGER(2), false).unwrap();
    assert_eq!(env.resolve("y").unwrap().variables.len(), 1);
    assert_eq!(env.resolve("y").unwrap().variables[0].0, "y");
    assert!(env.resolve("y").unwrap().parent.is_some());
    assert_eq!(env.resolve("x").unwrap().variables[0].0, "x");
    assert!(env.resolve("x").unwrap().parent.is_none());
}

#[test]
fn new_takes_the_parent_it_is_given() {
    let mut outer = Environment::new(None);
    outer.declare_var("x".to_string(), MK_INTEGER(1), false).unwrap();
    let inner = Environment::new(Some(Box::new(outer)));
    assert_eq!(inner.variables.len(), 0);
    assert_eq!(inner.constants.len(), 0);
    assert_eq!(shown(&inner.lookup_var("x").unwrap()), shown(&MK_INTEGER(1)));
}

#[test]
fn copies_of_scopes_are_independent() {
    let mut env = Environment::new(None);
    env.declare_var("x".to_string(), MK_INTEGER(1), false).unwrap();
    env.push_scope();
    let mut copy = env.clone();
    assert_eq!(shown(&copy), shown(&env));
    copy.assign_var(&"x".to_string(), &MK_INTEGER(2)).unwrap();
    assert_eq!(shown(&env.lookup_var("x").unwrap()), shown(&MK_INTEGER(1)));
    assert_eq!(shown(&copy.lookup_var("x").unwrap()), shown(&MK_INTEGER(2)));
}

#[test]
fn searching_lists() {
    let bindings = vec![("a".to_string(), MK_NULL()), ("b".to_string(), MK_NULL()), ("a".to_string(), MK_BOOL(true))];
    assert_eq!(find_binding(&bindings, "a"), Some(0));
    assert_eq!(find_binding(&bindings, "b"), Some(1));
    assert_eq!(find_binding(&bindings, "c"), None);
    assert_eq!(find_binding(&vec![], "a"), None);
    let names = vec!["a".to_string(), "b".to_string()];
    assert!(contains_name(&names, "b"));
    assert!(!contains_name(&names, "ab"));
    assert!(!contains_name(&vec![], "a"));
}

#[test]
fn the_global_frame_holds_the_constants_and_the_native_functions() {
    let env = create_global_env();
    assert!(env.parent.is_none());
    let names: Vec<&str> = env.variables.iter().map(|(name, _)| name.as_str()).collect();
    assert_eq!(
        names,
        vec![
            "tosi",
            "epätosi",
            "tyhjä",
            "tulosta",
            "aika",
            "sekunnit",
            "itseisarvo",
            "pyöristä",
            "neliöjuuri",
            "syöte",
            "satunnainen",
            "maksimi",
            "minimi",
            "pituus",
            "järjestä",
            "käänteinen",
            "kluku",
            "lluku",
            "mjono"
        ]
    );
    let constants: Vec<&str> = env.constants.iter().map(|name| name.as_str()).collect();
    assert_eq!(constants, names);
    assert_eq!(shown(&env.lookup_var("tosi").unwrap()), shown(&MK_BOOL(true)));
    assert_eq!(shown(&env.lookup_var("epätosi").unwrap()), shown(&MK_BOOL(false)));
    assert_eq!(shown(&env.lookup_var("tyhjä").unwrap()), shown(&MK_NULL()));
    let handles = [
        ("tulosta", PRINT),
        ("aika", TIME),
        ("sekunnit", SECONDS),
        ("itseisarvo", ABSOLUTE),
        ("pyöristä", ROUND),
        ("neliöjuuri", SQUARE_ROOT),
        ("syöte", INPUT),
        ("satunnainen", RANDOM),
        ("maksimi", MAXIMUM),
        ("minimi", MINIMUM),
        ("pituus", LENGTH),
        ("järjestä", SORT),
        ("käänteinen", REVERSE),
        ("kluku", TO_INTEGER),
        ("lluku", TO_NUMBER),
        ("mjono", TO_STRING),
    ];
    for (index, (name, handle)) in handles.iter().enumerate() {
        assert_eq!(*handle, index as u64);
        assert_eq!(shown(&env.lookup_var(name).unwrap()), shown(&MK_NATIVE_FN(*handle)));
    }
}

#[test]
fn the_global_names_are_protected() {
    let mut env = Environment::new(Some(Box::new(create_global_env())));
    assert_eq!(env.assign_var(&"tosi".to_string(), &MK_BOOL(false)).err(), Some(RuntimeError::AssignedConstant));
    assert_eq!(env.assign_var(&"tulosta".to_string(), &MK_NULL()).err(), Some(RuntimeError::AssignedConstant));
    env.declare_var("tosi".to_string(), MK_BOOL(false), false).unwrap();
    assert_eq!(shown(&env.lookup_var("tosi").unwrap()), shown(&MK_BOOL(false)));
}

#[test]
fn values_are_made_as_named() {
    assert!(matches!(MK_NULL(), RuntimeVal::Null));
    assert!(matches!(MK_BOOL(true), RuntimeVal::Bool(true)));
    assert!(matches!(MK_INTEGER(-3), RuntimeVal::Integer(-3)));
    assert!(matches!(MK_NUMBER(Number::from_bits(7)), RuntimeVal::Number(Number { bits: 7 })));
    assert!(matches!(MK_NATIVE_FN(4), RuntimeVal::NativeFunction(NativeFunction { id: 4 })));
    assert!(matches!(MK_STRING("a".to_string()), RuntimeVal::String(s) if s == "a"));
    assert!(matches!(MK_ARRAY(vec![MK_NULL()]), RuntimeVal::Array(a) if a.len() == 1));
    assert!(matches!(MK_OBJECT(vec![("k".to_string(), MK_NULL())]), RuntimeVal::Object(o) if o[0].0 == "k"));
}

#[test]
fn truthiness() {
    let zero = Number::from_bits(0.0f64.to_bits());
    let minus_zero = Number::from_bits((-0.0f64).to_bits());
    let one = Number::from_bits(1.0f64.to_bits());
    let nan = Number::from_bits(f64::NAN.to_bits());
    assert!(!MK_NULL().is_truthy());
    assert!(MK_BOOL(true).is_truthy());
    assert!(!MK_BOOL(false).is_truthy());
    assert!(!MK_INTEGER(0).is_truthy());
    assert!(MK_INTEGER(-1).is_truthy());
    assert!(!MK_NUMBER(zero).is_truthy());
    assert!(!MK_NUMBER(minus_zero).is_truthy());
    assert!(MK_NUMBER(one).is_truthy());
    assert!(MK_NUMBER(nan).is_truthy());
    assert!(!text("").is_truthy());
    assert!(text("a").is_truthy());
    assert!(MK_OBJECT(vec![]).is_truthy());
    assert!(!MK_ARRAY(vec![]).is_truthy());
    assert!(MK_ARRAY(vec![MK_NULL()]).is_truthy());
    assert!(MK_NATIVE_FN(0).is_truthy());
}

#[test]
fn as_bool_gives_truth_values_only() {
    assert_eq!(MK_BOOL(true).as_bool(), Some(true));
    assert_eq!(MK_BOOL(false).as_bool(), Some(false));
    assert_eq!(MK_NULL().as_bool(), None);
    assert_eq!(MK_INTEGER(1).as_bool(), None);
    assert_eq!(text("tosi").as_bool(), None);
}

#[test]
fn copies_of_values_are_equal_to_them() {
    let value = MK_OBJECT(vec![
        ("a".to_string(), MK_ARRAY(vec![MK_INTEGER(1), text("x"), MK_NULL()])),
        ("b".to_string(), MK_NUMBER(Number::from_bits(1.5f64.to_bits()))),
        ("c".to_string(), MK_NATIVE_FN(3)),
    ]);
    assert_eq!(shown(&value.clone()), shown(&value));
}

#[test]
fn runtime_errors_have_kinds_and_messages() {
    assert_eq!(RuntimeError::AlreadyDeclared.kind(), ErrorKind::NameError);
    assert_eq!(RuntimeError::NotDeclared.kind(), ErrorKind::NameError);
    assert_eq!(RuntimeError::AssignedConstant.kind(), ErrorKind::NameError);
    assert_eq!(RuntimeError::UnsupportedOperands.kind(), ErrorKind::TypeError);
    assert_eq!(RuntimeError::UnsupportedOperator.kind(), ErrorKind::TypeError);
    assert_eq!(RuntimeError::ConditionNotBool.kind(), ErrorKind::TypeError);
    assert_eq!(RuntimeError::NotCallable.kind(), ErrorKind::TypeError);
    assert_eq!(RuntimeError::ArityMismatch.kind(), ErrorKind::TypeError);
    assert_eq!(RuntimeError::NotAnObject.kind(), ErrorKind::TypeError);
    assert_eq!(RuntimeError::MissingProperty.kind(), ErrorKind::TypeError);
    assert_eq!(RuntimeError::InvalidProperty.kind(), ErrorKind::TypeError);
    assert_eq!(RuntimeError::InvalidAssignmentTarget.kind(), ErrorKind::TypeError);
    assert_eq!(RuntimeError::InvalidNumber.kind(), ErrorKind::TypeError);
    assert_eq!(RuntimeError::InvalidArgument.kind(), ErrorKind::TypeError);
    assert_eq!(RuntimeError::DivisionByZero.kind(), ErrorKind::ArithmeticError);
    assert_eq!(RuntimeError::IntegerOverflow.kind(), ErrorKind::ArithmeticError);
    assert_eq!(RuntimeError::OutOfFuel.kind(), ErrorKind::ResourceError);
    assert_eq!(RuntimeError::DivisionByZero.message(), "Jako nollavirheellä");
    assert_eq!(RuntimeError::NotAnObject.message(), "Vain olioilla on ominaisuuksia");
    assert_eq!(
        RuntimeError::ConditionNotBool.message(),
        "jos-muuten-lausekkeen ehto on arvioitava totuusarvoksi"
    );
}
