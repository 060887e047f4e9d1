use kaulin::error::{Error, ErrorKind, LexError, ParseError, RuntimeError, SyntaxError};
use kaulin::frontend::ast::{BinaryOperator, Expr, Identifier, Stmt, StringLiteral, UnaryExpr};
use kaulin::frontend::parser::parse;
use kaulin::runtime::environment::{create_global_env, Environment, PRINT};
use kaulin::runtime::eval::expressions::{
    bind_parameters, eval_identifier, eval_number_literal, eval_string_literal, property_of,
};
use kaulin::runtime::eval::operators::apply_binary;
use kaulin::runtime::eval::statements::{eval_function_declaration, eval_statements};
use kaulin::runtime::host::{Host, Interpreter};
use kaulin::runtime::interpreter::{eval_expr, evaluate, run as run_source};
use kaulin::runtime::number::Number;
use kaulin::runtime::values::{NativeFunction, RuntimeVal};

const MARK: u64 = 100;
const FAIL: u64 = 101;
const SCOPE: u64 = 102;

/// A host that computes with the machine's doubles and records what it is
/// asked.
struct Machine {
    printed: Vec<String>,
    marks: u32,
    literals: u32,
    operations: Vec<BinaryOperator>,
}

fn n(x: f64) -> Number {
    Number::from_bits(x.to_bits())
}

fn show(value: &RuntimeVal) -> String {
    match value {
        RuntimeVal::Null => "null".to_string(),
        RuntimeVal::Bool(b) => b.to_string(),
        RuntimeVal::Integer(i) => i.to_string(),
        RuntimeVal::Number(number) => f64::from_bits(number.to_bits()).to_string(),
        RuntimeVal::String(s) => s.clone(),
        RuntimeVal::Array(a) => format!("[{}]", a.iter().map(show).collect::<Vec<_>>().join(", ")),
        RuntimeVal::Object(o) => format!(
            "{{{}}}",
            o.iter().map(|(k, v)| format!("{}: {}", k, show(v))).collect::<Vec<_>>().join(", ")
        ),
        RuntimeVal::NativeFunction(_) => "NativeFunction".to_string(),
        RuntimeVal::Function(f) => format!("Function({})", f.parameters.join(", ")),
    }
}

impl Host for Machine {
    fn number(&mut self, literal: &str) -> Option<Number> {
        self.literals += 1;
        literal.parse::<f64>().ok().map(n)
    }

    fn arithmetic(&mut self, operator: BinaryOperator, lhs: Number, rhs: Number) -> Number {
        self.operations.push(operator);
        let a = f64::from_bits(lhs.to_bits());
        let b = f64::from_bits(rhs.to_bits());
        n(match operator {
            BinaryOperator::Add => a + b,
            BinaryOperator::Subtract => a - b,
            BinaryOperator::Multiply => a * b,
            BinaryOperator::Divide => a / b,
            BinaryOperator::Modulus => a % b,
            BinaryOperator::Exponent => a.powf(b),
            _ => f64::NAN,
        })
    }

    fn call(
        &mut self,
        function: NativeFunction,
        args: Vec<RuntimeVal>,
        scope: Vec<(String, RuntimeVal)>,
    ) -> Result<RuntimeVal, RuntimeError> {
        match function.id {
            PRINT => {
                self.printed.push(args.iter().map(show).collect::<Vec<_>>().join(" "));
                Ok(RuntimeVal::Null)
            }
            MARK => {
                self.marks += 1;
                Ok(RuntimeVal::Bool(true))
            }
            SCOPE => Ok(RuntimeVal::Array(
                scope.into_iter().map(|(name, _)| RuntimeVal::String(name)).collect(),
            )),
            _ => Err(RuntimeError::InvalidArgument),
        }
    }
}

struct Outcome {
    result: Result<RuntimeVal, RuntimeError>,
    env: Environment,
    host: Machine,
    fuel: u64,
}

fn run_with(source: &str, fuel: u64) -> Outcome {
    let program = parse(source).unwrap();
    let mut globals = create_global_env();
    globals
        .declare_var("merkitse".to_string(), RuntimeVal::NativeFunction(NativeFunction { id: MARK }), true)
        .unwrap();
    globals
        .declare_var("kaadu".to_string(), RuntimeVal::NativeFunction(NativeFunction { id: FAIL }), true)
        .unwrap();
    globals
        .declare_var("nimet".to_string(), RuntimeVal::NativeFunction(NativeFunction { id: SCOPE }), true)
        .unwrap();
    let mut env = Environment::new(Some(Box::new(globals)));
    let machine = Machine { printed: vec![], marks: 0, literals: 0, operations: vec![] };
    let mut interpreter = Interpreter::new(machine, fuel);
    let result = evaluate(&Stmt::Program(program), &mut env, &mut interpreter);
    Outcome { result, env, host: interpreter.host, fuel: interpreter.fuel }
}

fn run(source: &str) -> Outcome {
    run_with(source, 100_000)
}

fn value(source: &str) -> String {
    match run(source).result {
        Ok(value) => show(&value),
        Err(e) => panic!("{source}: {:?}", e),
    }
}

fn number(source: &str) -> f64 {
    match run(source).result {
        Ok(RuntimeVal::Number(number)) => f64::from_bits(number.to_bits()),
        other => panic!("{source}: {:?}", other),
    }
}

fn error(source: &str) -> RuntimeError {
    match run(source).result {
        Err(e) => e,
        Ok(value) => panic!("{source}: {}", show(&value)),
    }
}

#[test]
fn product_before_sum() {
    assert_eq!(number("2 + 3 * 4"), 14.0);
    assert_eq!(number("(2 + 3) * 4"), 20.0);
}

#[test]
fn power_from_the_left() {
    assert_eq!(number("2 ** 3 ** 2"), 64.0);
    assert_ne!(number("2 ** 3 ** 2"), 512.0);
    assert_eq!(number("2 ** (3 ** 2)"), 512.0);
}

#[test]
fn compound_assignment_adds_and_assigns() {
    let outcome = run("olkoon x = 5; x += 3;");
    assert_eq!(show(&outcome.env.lookup_var("x").unwrap()), "8");
    assert_eq!(show(&outcome.result.unwrap()), "8");
    let plain = run("olkoon x = 5; x = x + 3;");
    assert_eq!(show(&plain.env.lookup_var("x").unwrap()), "8");
    let minus = run("olkoon x = 5; x -= 3;");
    assert_eq!(show(&minus.env.lookup_var("x").unwrap()), "2");
}

#[test]
fn a_constant_is_protected_and_the_run_stops() {
    let outcome = run("vakio y = 1; y = 2; tulosta('ei')");
    assert_eq!(outcome.result.as_ref().err(), Some(&RuntimeError::AssignedConstant));
    assert_eq!(outcome.result.unwrap_err().kind(), ErrorKind::NameError);
    assert!(outcome.host.printed.is_empty());
    assert_eq!(show(&outcome.env.lookup_var("y").unwrap()), "1");
}

#[test]
fn side_effects_before_an_error_stay() {
    let outcome = run("tulosta('ennen'); vakio y = 1; y = 2; tulosta('jälkeen')");
    assert_eq!(outcome.host.printed, vec!["ennen"]);
}

#[test]
fn names_declared_in_a_block_are_gone_after_it() {
    assert_eq!(error("jos tosi { olkoon z = 1; } z"), RuntimeError::NotDeclared);
    assert_eq!(error("jos epätosi { } muuten { olkoon z = 1; } z"), RuntimeError::NotDeclared);
    assert_eq!(
        error("olkoon i = 0; kun i < 1 { olkoon z = 1; i += 1 } z"),
        RuntimeError::NotDeclared
    );
    assert_eq!(error("toista (i = 0; i < 1; i += 1) { olkoon z = 1; } z"), RuntimeError::NotDeclared);
    assert_eq!(error("toista (i = 0; i < 1; i += 1) { } i"), RuntimeError::NotDeclared);
    assert_eq!(error("funktio f() { olkoon z = 1; } f() z"), RuntimeError::NotDeclared);
}

#[test]
fn a_loop_body_starts_each_turn_with_a_fresh_frame() {
    assert_eq!(value("olkoon i = 0; kun i < 3 { olkoon z = i; i += 1 } i"), "3");
    assert_eq!(value("olkoon s = 0; toista (i = 0; i < 3; i += 1) { olkoon z = i; s += z } s"), "3");
}

#[test]
fn an_outer_variable_is_visible_and_assignable_inside_a_block() {
    assert_eq!(value("olkoon x = 1; jos tosi { x = x + 1; } x"), "2");
    assert_eq!(value("olkoon x = 1; jos tosi { jos tosi { x = x + 10; } } x"), "11");
    assert_eq!(value("olkoon x = 0; olkoon i = 0; kun i < 4 { x += i; i += 1 } x"), "6");
    assert_eq!(value("olkoon x = 0; toista (i = 1; i <= 4; i += 1) { x += i } x"), "10");
}

#[test]
fn a_block_may_shadow_an_outer_name() {
    assert_eq!(value("olkoon x = 1; jos tosi { olkoon x = 2; x = 3; } x"), "1");
    assert_eq!(value("olkoon x = 1; jos tosi { olkoon x = 2; x }"), "2");
}

#[test]
fn two_loops_may_use_the_same_variable() {
    assert_eq!(
        value("olkoon s = 0; toista (i = 0; i < 2; i += 1) { s += 1 } toista (i = 0; i < 3; i += 1) { s += 1 } s"),
        "5"
    );
}

#[test]
fn closures_capture_their_arguments() {
    assert_eq!(
        number("funktio tee(a) { funktio sisa(b) { a + b } sisa } olkoon f = tee(2); f(3)"),
        5.0
    );
    assert_eq!(number("funktio tee(a) { funktio sisa(b) { a + b } sisa } tee(2)(3)"), 5.0);
    let source = "funktio tee(a) { funktio sisa(b) { a + b } sisa } olkoon f = tee(2); olkoon g = tee(10); [f(3), g(3), f(1)]";
    assert_eq!(value(source), "[5, 13, 3]");
}

#[test]
fn a_function_sees_the_scopes_of_its_declaration_as_they_were() {
    assert_eq!(value("olkoon x = 1; funktio f() { x } x = 2; f()"), "1");
    assert_eq!(error("funktio f() { y } olkoon y = 1; f()"), RuntimeError::NotDeclared);
    assert_eq!(value("olkoon x = 1; funktio f() { x = 5; x } [f(), x]"), "[5, 1]");
}

#[test]
fn a_function_does_not_see_itself() {
    assert_eq!(error("funktio f(n) { f(n) } f(1)"), RuntimeError::NotDeclared);
}

#[test]
fn both_operands_of_a_logical_operator_are_evaluated() {
    let and = run("epätosi && merkitse()");
    assert_eq!(show(&and.result.unwrap()), "false");
    assert_eq!(and.host.marks, 1);
    let or = run("tosi || merkitse()");
    assert_eq!(show(&or.result.unwrap()), "true");
    assert_eq!(or.host.marks, 1);
    let printed = run("epätosi && tulosta('sivuvaikutus')");
    assert_eq!(printed.host.printed, vec!["sivuvaikutus"]);
    assert_eq!(printed.result.err(), Some(RuntimeError::UnsupportedOperands));
    let or_printed = run("tosi || tulosta('sivuvaikutus')");
    assert_eq!(or_printed.host.printed, vec!["sivuvaikutus"]);
}

#[test]
fn logical_operators() {
    assert_eq!(value("tosi && tosi"), "true");
    assert_eq!(value("tosi && epätosi"), "false");
    assert_eq!(value("epätosi || tosi"), "true");
    assert_eq!(value("epätosi || epätosi"), "false");
    assert_eq!(value("!tosi"), "false");
    assert_eq!(value("!epätosi || epätosi"), "true");
    assert_eq!(error("1 && 2"), RuntimeError::UnsupportedOperands);
    assert_eq!(error("tosi && 1"), RuntimeError::UnsupportedOperands);
}

#[test]
fn evaluating_again_gives_the_same_value() {
    let program = parse("(1.5 + 2) * 3 - 4 / 8 % 3 ** 2").unwrap();
    let statement = Stmt::Program(program);
    let mut env = Environment::new(Some(Box::new(create_global_env())));
    let before = format!("{:?}", env);
    let machine = Machine { printed: vec![], marks: 0, literals: 0, operations: vec![] };
    let mut interpreter = Interpreter::new(machine, 1000);
    let first = evaluate(&statement, &mut env, &mut interpreter).unwrap();
    assert_eq!(format!("{:?}", env), before);
    let second = evaluate(&statement, &mut env, &mut interpreter).unwrap();
    assert_eq!(show(&first), show(&second));
    assert_eq!(show(&first), "10");
    assert_eq!(format!("{:?}", env), before);
}

#[test]
fn arithmetic_on_numbers() {
    assert_eq!(number("7 - 2"), 5.0);
    assert_eq!(number("7 / 2"), 3.5);
    assert_eq!(number("7 % 4"), 3.0);
    assert_eq!(number("1.5 * 2"), 3.0);
    assert_eq!(number("0.1 + 0.2"), 0.1 + 0.2);
    assert_eq!(number("-3"), -3.0);
    assert_eq!(number("- -3"), 3.0);
    assert_eq!(number("2 ** 0.5"), 2f64.powf(0.5));
    assert_eq!(number("7."), 7.0);
    assert_eq!(number("10 - 2 - 3"), 5.0);
}

#[test]
fn the_host_is_asked_for_arithmetic_in_the_order_of_evaluation() {
    let outcome = run("2 + 3 * 4 - 1");
    assert_eq!(
        outcome.host.operations,
        vec![BinaryOperator::Multiply, BinaryOperator::Add, BinaryOperator::Subtract]
    );
    assert_eq!(outcome.host.literals, 4);
    let compared = run("1 < 2");
    assert!(compared.host.operations.is_empty());
    assert_eq!(compared.host.literals, 2);
}

#[test]
fn division_by_zero_is_an_error() {
    assert_eq!(error("1 / 0"), RuntimeError::DivisionByZero);
    assert_eq!(error("1 % 0"), RuntimeError::DivisionByZero);
    assert_eq!(error("1 / (2 - 2)"), RuntimeError::DivisionByZero);
    assert_eq!(error("1 / -0"), RuntimeError::DivisionByZero);
    assert_eq!(error("1 / 0").kind(), ErrorKind::ArithmeticError);
    assert!(run("1 / 0").host.operations.is_empty());
    assert_eq!(number("0 / 1"), 0.0);
}

#[test]
fn comparisons_of_numbers() {
    assert_eq!(value("1 < 2"), "true");
    assert_eq!(value("2 < 1"), "false");
    assert_eq!(value("2 <= 2"), "true");
    assert_eq!(value("2 >= 3"), "false");
    assert_eq!(value("3 > 2"), "true");
    assert_eq!(value("2 == 2.0"), "true");
    assert_eq!(value("2 != 2.5"), "true");
    assert_eq!(value("-1 < 0"), "true");
    assert_eq!(value("0 == -0"), "true");
}

#[test]
fn strings() {
    assert_eq!(value("'hei ' + \"maailma\""), "hei maailma");
    assert_eq!(value("'' + ''"), "");
    assert_eq!(error("'a' - 'b'"), RuntimeError::UnsupportedOperands);
    assert_eq!(error("'a' == 'a'"), RuntimeError::UnsupportedOperands);
    assert_eq!(error("'a' + 1"), RuntimeError::UnsupportedOperands);
    assert_eq!(error("1 + 'a'"), RuntimeError::UnsupportedOperands);
    assert_eq!(error("'a' + 1").kind(), ErrorKind::TypeError);
}

#[test]
fn unary_operators_need_the_right_type() {
    assert_eq!(error("-tosi"), RuntimeError::UnsupportedOperands);
    assert_eq!(error("!1"), RuntimeError::UnsupportedOperands);
    assert_eq!(error("-'a'"), RuntimeError::UnsupportedOperands);
}

#[test]
fn declarations_give_null() {
    assert_eq!(value("olkoon x = 5;"), "null");
    assert_eq!(value("vakio x = 5;"), "null");
    assert_eq!(value("funktio f() { 1 }"), "null");
    assert_eq!(value("olkoon x;"), "null");
    assert_eq!(value("olkoon x; x"), "null");
}

#[test]
fn a_program_gives_the_value_of_its_last_statement() {
    assert_eq!(value(""), "null");
    assert_eq!(value("1 2 3"), "3");
    assert_eq!(value("olkoon x = 5; x"), "5");
    assert_eq!(value("1 olkoon x = 5;"), "null");
}

#[test]
fn redeclaration_in_the_same_frame_is_an_error() {
    assert_eq!(error("olkoon x = 1; olkoon x = 2;"), RuntimeError::AlreadyDeclared);
    assert_eq!(error("olkoon f = 1; funktio f() { }"), RuntimeError::AlreadyDeclared);
    assert_eq!(error("vakio x = 1; olkoon x = 2;"), RuntimeError::AlreadyDeclared);
    assert_eq!(error("funktio f(a, a) { } f(1, 2)"), RuntimeError::AlreadyDeclared);
    assert_eq!(error("olkoon x = 1; olkoon x = 2;").kind(), ErrorKind::NameError);
    assert_eq!(value("olkoon tosi = 1; tosi"), "1");
}

#[test]
fn unknown_names_are_errors() {
    assert_eq!(error("x"), RuntimeError::NotDeclared);
    assert_eq!(error("x = 1"), RuntimeError::NotDeclared);
    assert_eq!(error("x += 1"), RuntimeError::NotDeclared);
    assert_eq!(error("f()"), RuntimeError::NotDeclared);
    assert_eq!(error("{ a }"), RuntimeError::NotDeclared);
}

#[test]
fn functions_are_constants() {
    assert_eq!(error("funktio f() { } f = 1"), RuntimeError::AssignedConstant);
    assert_eq!(error("tosi = epätosi"), RuntimeError::AssignedConstant);
}

#[test]
fn assignment_gives_the_value_and_needs_a_plain_name() {
    assert_eq!(value("olkoon x; x = 4"), "4");
    assert_eq!(value("olkoon x; olkoon y; x = y = 4; [x, y]"), "[4, 4]");
    assert_eq!(error("olkoon o = { a: 1 }; o.a = 2"), RuntimeError::InvalidAssignmentTarget);
    assert_eq!(error("1 = 2"), RuntimeError::InvalidAssignmentTarget);
    assert_eq!(run("olkoon o = { a: 1 }; o.a = merkitse()").host.marks, 0);
}

#[test]
fn if_else() {
    assert_eq!(value("jos tosi { 1 } muuten { 2 }"), "1");
    assert_eq!(value("jos epätosi { 1 } muuten { 2 }"), "2");
    assert_eq!(value("jos epätosi { 1 }"), "null");
    assert_eq!(value("jos tosi { }"), "null");
    assert_eq!(value("jos 1 < 2 { 'pienempi' } muuten { 'suurempi' }"), "pienempi");
    assert_eq!(value("olkoon x = jos tosi { 1 2 3 }; x"), "3");
    assert_eq!(value("1 + jos tosi { 1 } muuten { 2 }"), "2");
}

#[test]
fn the_condition_of_if_must_be_a_truth_value() {
    assert_eq!(error("jos 1 { 2 }"), RuntimeError::ConditionNotBool);
    assert_eq!(error("jos 'a' { 2 }"), RuntimeError::ConditionNotBool);
    assert_eq!(error("jos tyhjä { 2 }"), RuntimeError::ConditionNotBool);
    assert_eq!(error("jos 1 { 2 }").kind(), ErrorKind::TypeError);
}

#[test]
fn while_loops_run_until_the_condition_fails() {
    assert_eq!(value("olkoon i = 0; kun i < 5 { i += 1 }"), "5");
    assert_eq!(value("kun epätosi { 1 }"), "null");
    assert_eq!(value("olkoon i = 3; kun i { i -= 1 } i"), "0");
    assert_eq!(value("olkoon s = 'a'; olkoon i = 0; kun i < 3 { i += 1; s = s + 'b' }"), "abbb");
}

#[test]
fn while_conditions_count_by_truthiness() {
    assert_eq!(value("olkoon i = 0; kun tyhjä { i += 1 } i"), "0");
    assert_eq!(value("olkoon i = 0; kun '' { i += 1 } i"), "0");
    assert_eq!(value("olkoon i = 0; kun [] { i += 1 } i"), "0");
    assert_eq!(value("olkoon i = 0; kun 0 { i += 1 } i"), "0");
}

#[test]
fn for_loops_count() {
    assert_eq!(value("olkoon s = 0; toista (i = 0; i < 5; i += 1) { s += i } s"), "10");
    assert_eq!(value("toista (i = 0; i < 5; i += 1) { i }"), "null");
    assert_eq!(value("olkoon s = 0; toista (i = 0; epätosi; i += 1) { s += 1 } s"), "0");
    assert_eq!(value("olkoon s = 0; toista (i = 3; i; i -= 1) { s += 1 } s"), "3");
    assert_eq!(value("olkoon s = 0; toista (i = 0; tyhjä; i += 1) { s += 1 } s"), "0");
    assert_eq!(value("olkoon s = 0; toista (i = 0; ''; i += 1) { s += 1 } s"), "0");
    let printed = run("toista (i = 0; i < 3; i += 1) { tulosta(i) }");
    assert_eq!(printed.host.printed, vec!["0", "1", "2"]);
}

#[test]
fn the_increment_of_a_for_loop_runs_after_the_body() {
    let outcome = run("toista (i = 0; i < 2; tulosta('askel', i = i + 1)) { tulosta('runko', i) }");
    assert_eq!(outcome.host.printed, vec!["runko 0", "askel 1", "runko 1", "askel 2"]);
}

#[test]
fn every_turn_and_every_call_takes_a_step() {
    let looped = run_with("olkoon i = 0; kun i < 5 { i += 1 }", 100);
    assert_eq!(looped.fuel, 95);
    let called = run_with("funktio f() { 1 } f() f() f()", 100);
    assert_eq!(called.fuel, 97);
    let counted = run_with("toista (i = 0; i < 4; i += 1) { }", 100);
    assert_eq!(counted.fuel, 96);
    let plain = run_with("1 + 2 * 3", 100);
    assert_eq!(plain.fuel, 100);
    let native = run_with("tulosta(1)", 100);
    assert_eq!(native.fuel, 100);
}

#[test]
fn a_run_without_steps_left_stops() {
    let endless = run_with("kun tosi { }", 50);
    assert_eq!(endless.result.as_ref().err(), Some(&RuntimeError::OutOfFuel));
    assert_eq!(endless.result.unwrap_err().kind(), ErrorKind::ResourceError);
    assert_eq!(endless.fuel, 0);
    let exact = run_with("olkoon i = 0; kun i < 5 { i += 1 } i", 5);
    assert_eq!(show(&exact.result.unwrap()), "5");
    let short = run_with("olkoon i = 0; kun i < 5 { i += 1 } i", 4);
    assert_eq!(short.result.err(), Some(RuntimeError::OutOfFuel));
    assert_eq!(show(&short.env.lookup_var("i").unwrap()), "4");
    let call = run_with("funktio f() { 1 } f()", 0);
    assert_eq!(call.result.err(), Some(RuntimeError::OutOfFuel));
    let counted = run_with("toista (i = 0; tosi; i += 1) { }", 3);
    assert_eq!(counted.result.err(), Some(RuntimeError::OutOfFuel));
    assert_eq!(show(&run_with("1 + 2", 0).result.unwrap()), "3");
}

#[test]
fn calls() {
    assert_eq!(value("funktio f() { } f()"), "null");
    assert_eq!(value("funktio f(a, b) { a - b } f(5, 2)"), "3");
    assert_eq!(value("funktio f(a) { olkoon b = a * 2; b + 1 } f(5)"), "11");
    assert_eq!(value("funktio f(a) { a = a + 1; a } olkoon x = 1; [f(x), x]"), "[2, 1]");
    assert_eq!(value("funktio f(g) { g(2) } funktio h(x) { x * 10 } f(h)"), "20");
}

#[test]
fn arguments_are_evaluated_before_the_callee() {
    let outcome = run("eiole(tulosta('argumentti'))");
    assert_eq!(outcome.result.err(), Some(RuntimeError::NotDeclared));
    assert_eq!(outcome.host.printed, vec!["argumentti"]);
}

#[test]
fn a_call_needs_a_function_and_the_right_number_of_arguments() {
    assert_eq!(error("olkoon x = 1; x()"), RuntimeError::NotCallable);
    assert_eq!(error("'a'()"), RuntimeError::NotCallable);
    assert_eq!(error("funktio f(a) { a } f()"), RuntimeError::ArityMismatch);
    assert_eq!(error("funktio f(a) { a } f(1, 2)"), RuntimeError::ArityMismatch);
    assert_eq!(error("funktio f() { } f(1)"), RuntimeError::ArityMismatch);
    assert_eq!(error("olkoon x = 1; x()").kind(), ErrorKind::TypeError);
    assert_eq!(error("funktio f(a) { a } f()").kind(), ErrorKind::TypeError);
    assert_eq!(run_with("funktio f(a) { a } f()", 10).fuel, 10);
}

#[test]
fn native_functions_are_called_through_the_host() {
    let outcome = run("tulosta('a', 1, tosi)");
    assert_eq!(outcome.host.printed, vec!["a 1 true"]);
    assert_eq!(show(&outcome.result.unwrap()), "null");
    assert_eq!(error("kaadu()"), RuntimeError::InvalidArgument);
    assert_eq!(value("olkoon p = merkitse; p()"), "true");
}

#[test]
fn a_native_function_sees_the_names_of_the_innermost_frame() {
    assert_eq!(value("olkoon a = 1; olkoon b = 2; nimet()"), "[a, b]");
    assert_eq!(value("olkoon a = 1; jos tosi { olkoon c = 3; nimet() }"), "[c]");
    assert_eq!(value("olkoon a = 1; funktio f(p) { nimet() } f(1)"), "[p]");
}

#[test]
fn arrays_and_objects() {
    assert_eq!(value("[]"), "[]");
    assert_eq!(value("[1, 'a', tosi, tyhjä, [2]]"), "[1, a, true, null, [2]]");
    assert_eq!(value("[1 + 1, 2 * 3]"), "[2, 6]");
    assert_eq!(value("{}"), "{}");
    assert_eq!(value("{ a: 1, b: 'x' }"), "{a: 1, b: x}");
    assert_eq!(value("olkoon a = 5; { a, b: a + 1 }"), "{a: 5, b: 6}");
    assert_eq!(value("{ a: 1, a: 2 }"), "{a: 1, a: 2}");
    assert_eq!(error("[1, x]"), RuntimeError::NotDeclared);
    assert_eq!(error("{ a: 1 / 0 }"), RuntimeError::DivisionByZero);
}

#[test]
fn member_access() {
    assert_eq!(value("olkoon o = { a: 1, b: { c: 'x' } }; o.a"), "1");
    assert_eq!(value("olkoon o = { a: 1, b: { c: 'x' } }; o.b.c"), "x");
    assert_eq!(value("olkoon o = { a: 1, a: 2 }; o.a"), "1");
    assert_eq!(value("olkoon o = { a: 1 }; o[a]"), "1");
    assert_eq!(value("olkoon o = { f: merkitse }; o.f()"), "true");
    assert_eq!(error("olkoon o = { a: 1 }; o.b"), RuntimeError::MissingProperty);
    assert_eq!(error("olkoon o = 1; o.a"), RuntimeError::NotAnObject);
    assert_eq!(error("'abc'.a"), RuntimeError::NotAnObject);
    assert_eq!(error("olkoon o = { a: 1 }; o[1]"), RuntimeError::InvalidProperty);
    assert_eq!(error("olkoon o = { a: 1 }; o['a']"), RuntimeError::InvalidProperty);
    assert_eq!(error("olkoon o = { a: 1 }; o.b").kind(), ErrorKind::TypeError);
}

#[test]
fn the_object_is_evaluated_before_the_property_is_checked() {
    let outcome = run("(tulosta('olio'))[1]");
    assert_eq!(outcome.host.printed, vec!["olio"]);
    assert_eq!(outcome.result.err(), Some(RuntimeError::InvalidProperty));
}

#[test]
fn a_literal_that_the_host_cannot_read_is_an_error() {
    let literal = Expr::NumericLiteral(kaulin::frontend::ast::NumericLiteral { value: "12x".to_string() });
    let mut env = Environment::new(None);
    let machine = Machine { printed: vec![], marks: 0, literals: 0, operations: vec![] };
    let mut interpreter = Interpreter::new(machine, 10);
    let r = eval_expr(&literal, &mut env, &mut interpreter);
    assert_eq!(r.err(), Some(RuntimeError::InvalidNumber));
    assert_eq!(eval_number_literal("", &mut interpreter).err(), Some(RuntimeError::InvalidNumber));
    assert_eq!(show(&eval_number_literal("2.5", &mut interpreter).unwrap()), "2.5");
}

#[test]
fn an_unknown_unary_sign_is_an_error() {
    let expr = Expr::UnaryExpr(UnaryExpr {
        operator: "~".to_string(),
        operand: Box::new(Expr::StringLiteral(StringLiteral { value: "a".to_string() })),
    });
    let mut env = Environment::new(None);
    let machine = Machine { printed: vec![], marks: 0, literals: 0, operations: vec![] };
    let mut interpreter = Interpreter::new(machine, 10);
    assert_eq!(eval_expr(&expr, &mut env, &mut interpreter).err(), Some(RuntimeError::UnsupportedOperator));
}

#[test]
fn leaves_of_the_evaluator() {
    let mut env = Environment::new(None);
    env.declare_var("x".to_string(), RuntimeVal::Integer(3), false).unwrap();
    let found = eval_identifier(&Identifier { symbol: "x".to_string() }, &mut env);
    assert_eq!(show(&found.unwrap()), "3");
    let missing = eval_identifier(&Identifier { symbol: "y".to_string() }, &mut env);
    assert_eq!(missing.err(), Some(RuntimeError::NotDeclared));
    let literal = eval_string_literal(&StringLiteral { value: "hei %{}".to_string() }, &mut env);
    assert_eq!(show(&literal), "hei %{}");
    let object = RuntimeVal::Object(vec![("a".to_string(), RuntimeVal::Integer(1))]);
    assert_eq!(show(&property_of(&object, "a").unwrap()), "1");
    assert_eq!(property_of(&object, "b").err(), Some(RuntimeError::MissingProperty));
    assert_eq!(property_of(&RuntimeVal::Null, "a").err(), Some(RuntimeError::NotAnObject));
}

#[test]
fn binding_parameters_declares_them_in_order() {
    let mut scope = Environment::new(None);
    let names = vec!["a".to_string(), "b".to_string()];
    let args = vec![RuntimeVal::Integer(1), RuntimeVal::Integer(2)];
    bind_parameters(&mut scope, &names, &args).unwrap();
    assert_eq!(show(&scope.lookup_var("a").unwrap()), "1");
    assert_eq!(show(&scope.lookup_var("b").unwrap()), "2");
    assert!(scope.constants.is_empty());
    let mut again = Environment::new(None);
    let twice = vec!["a".to_string(), "a".to_string()];
    assert_eq!(bind_parameters(&mut again, &twice, &args).err(), Some(RuntimeError::AlreadyDeclared));
}

#[test]
fn applying_an_operator_asks_the_host_only_for_arithmetic() {
    let machine = Machine { printed: vec![], marks: 0, literals: 0, operations: vec![] };
    let mut interpreter = Interpreter::new(machine, 10);
    let two = RuntimeVal::Number(n(2.0));
    let three = RuntimeVal::Number(n(3.0));
    let sum = apply_binary(&BinaryOperator::Add, &two, &three, &mut interpreter);
    assert_eq!(show(&sum.unwrap()), "5");
    let less = apply_binary(&BinaryOperator::LessThan, &two, &three, &mut interpreter);
    assert_eq!(show(&less.unwrap()), "true");
    let integers = apply_binary(&BinaryOperator::Add, &RuntimeVal::Integer(2), &RuntimeVal::Integer(3), &mut interpreter);
    assert_eq!(show(&integers.unwrap()), "5");
    assert_eq!(interpreter.host.operations, vec![BinaryOperator::Add]);
    assert_eq!(interpreter.fuel, 10);
}

#[test]
fn a_function_declaration_captures_a_copy_of_the_scopes() {
    let program = parse("funktio f(a) { a }").unwrap();
    let declaration = match &program.body[0] {
        Stmt::FunctionDeclaration(declaration) => declaration,
        other => panic!("{:?}", other),
    };
    let mut env = Environment::new(None);
    env.declare_var("x".to_string(), RuntimeVal::Integer(1), false).unwrap();
    let r = eval_function_declaration(declaration, &mut env);
    assert_eq!(show(&r.unwrap()), "null");
    assert_eq!(env.constants, vec!["f".to_string()]);
    match env.lookup_var("f").unwrap() {
        RuntimeVal::Function(function) => {
            assert_eq!(function.parameters, vec!["a".to_string()]);
            assert_eq!(function.declaration_env.variables.len(), 1);
            assert_eq!(function.body.len(), 1);
        }
        other => panic!("{:?}", other),
    }
    assert_eq!(eval_function_declaration(declaration, &mut env).err(), Some(RuntimeError::AlreadyDeclared));
}

#[test]
fn statements_are_evaluated_in_the_scopes_as_they_are() {
    let program = parse("olkoon z = 1; z").unwrap();
    let mut env = Environment::new(None);
    let machine = Machine { printed: vec![], marks: 0, literals: 0, operations: vec![] };
    let mut interpreter = Interpreter::new(machine, 10);
    let r = eval_statements(&program.body, &mut env, &mut interpreter);
    assert_eq!(show(&r.unwrap()), "1");
    assert_eq!(show(&env.lookup_var("z").unwrap()), "1");
}

#[test]
fn integers_from_native_functions_take_the_operators_of_integers() {
    let mut env = Environment::new(Some(Box::new(create_global_env())));
    env.declare_var("a".to_string(), RuntimeVal::Integer(7), false).unwrap();
    env.declare_var("b".to_string(), RuntimeVal::Integer(2), false).unwrap();
    let machine = Machine { printed: vec![], marks: 0, literals: 0, operations: vec![] };
    let mut interpreter = Interpreter::new(machine, 10);
    let program = parse("[a + b, a - b, a * b, a / b, a % b, a ** b, a < b, a == a]").unwrap();
    let r = evaluate(&Stmt::Program(program), &mut env, &mut interpreter);
    assert_eq!(show(&r.unwrap()), "[9, 5, 14, 3, 1, 49, false, true]");
    let mixed = parse("a + 1").unwrap();
    let r = evaluate(&Stmt::Program(mixed), &mut env, &mut interpreter);
    assert_eq!(r.err(), Some(RuntimeError::UnsupportedOperands));
    assert!(interpreter.host.operations.is_empty());
}

#[test]
fn scopes_keep_their_shape_when_a_run_fails_inside_blocks() {
    let outcome = run("olkoon x = 1; jos tosi { olkoon y = 2; kun tosi { olkoon z = 3; z() } }");
    assert_eq!(outcome.result.err(), Some(RuntimeError::NotCallable));
    assert_eq!(outcome.env.variables.len(), 1);
    assert_eq!(outcome.env.variables[0].0, "x");
    assert!(outcome.env.parent.is_some());
    assert!(outcome.env.parent.as_ref().unwrap().parent.is_none());
    let in_loop = run("toista (i = 0; i < 3; i += 1) { eiole }");
    assert_eq!(in_loop.result.err(), Some(RuntimeError::NotDeclared));
    assert_eq!(in_loop.env.variables.len(), 0);
    assert!(in_loop.env.parent.as_ref().unwrap().parent.is_none());
}

#[test]
fn running_a_source_text_parses_and_evaluates_it() {
    let mut env = Environment::new(Some(Box::new(create_global_env())));
    let machine = Machine { printed: vec![], marks: 0, literals: 0, operations: vec![] };
    let mut interpreter = Interpreter::new(machine, 100);
    let first = run_source("olkoon x = 2 + 3; x", &mut env, &mut interpreter);
    assert_eq!(show(&first.unwrap()), "5");
    let second = run_source("x * 2", &mut env, &mut interpreter);
    assert_eq!(show(&second.unwrap()), "10");
    let failed = run_source("x / 0", &mut env, &mut interpreter);
    assert_eq!(failed.err(), Some(Error::Runtime(RuntimeError::DivisionByZero)));
    assert_eq!(show(&env.lookup_var("x").unwrap()), "5");
}

#[test]
fn a_text_that_is_no_program_changes_nothing() {
    let mut env = Environment::new(Some(Box::new(create_global_env())));
    let machine = Machine { printed: vec![], marks: 0, literals: 0, operations: vec![] };
    let mut interpreter = Interpreter::new(machine, 100);
    let before = format!("{:?}", env);
    let lexical = run_source("tulosta(1) olkoon x = 1; #", &mut env, &mut interpreter);
    assert_eq!(
        lexical.err(),
        Some(Error::Parse(ParseError::Lexical(LexError::UnexpectedCharacter { character: '#', position: 25 })))
    );
    let syntactic = run_source("tulosta(1) olkoon x = ;", &mut env, &mut interpreter);
    assert_eq!(
        syntactic.err(),
        Some(Error::Parse(ParseError::Syntax(SyntaxError::UnexpectedToken { position: 7 })))
    );
    assert_eq!(format!("{:?}", env), before);
    assert!(interpreter.host.printed.is_empty());
    assert_eq!(interpreter.fuel, 100);
}

#[test]
fn errors_of_every_stage_have_kind_and_message() {
    let lexical = Error::Parse(ParseError::Lexical(LexError::MalformedNumber { position: 1 }));
    let syntactic = Error::Parse(ParseError::Syntax(SyntaxError::UnexpectedToken { position: 1 }));
    let runtime = Error::Runtime(RuntimeError::DivisionByZero);
    assert_eq!(lexical.kind(), ErrorKind::LexicalError);
    assert_eq!(syntactic.kind(), ErrorKind::SyntaxError);
    assert_eq!(runtime.kind(), ErrorKind::ArithmeticError);
    assert_eq!(Error::Runtime(RuntimeError::NotDeclared).kind(), ErrorKind::NameError);
    assert_eq!(Error::Runtime(RuntimeError::NotCallable).kind(), ErrorKind::TypeError);
    assert_eq!(Error::Runtime(RuntimeError::OutOfFuel).kind(), ErrorKind::ResourceError);
    assert_eq!(lexical.message(), "Odottamaton '.' numerossa");
    assert_eq!(syntactic.message(), "Odottamaton tunnus löytyi jäsentämisen aikana");
    assert_eq!(runtime.message(), "Jako nollavirheellä");
}

#[test]
fn steps_are_taken_one_by_one() {
    let machine = Machine { printed: vec![], marks: 0, literals: 0, operations: vec![] };
    let mut interpreter = Interpreter::new(machine, 2);
    assert_eq!(interpreter.fuel, 2);
    assert_eq!(interpreter.step(), Ok(()));
    assert_eq!(interpreter.fuel, 1);
    assert_eq!(interpreter.step(), Ok(()));
    assert_eq!(interpreter.step(), Err(RuntimeError::OutOfFuel));
    assert_eq!(interpreter.fuel, 0);
}

#[test]
fn the_interpreter_asks_the_host() {
    let machine = Machine { printed: vec![], marks: 0, literals: 0, operations: vec![] };
    let mut interpreter = Interpreter::new(machine, 2);
    assert_eq!(interpreter.ask_number("1.5"), Some(n(1.5)));
    assert_eq!(interpreter.ask_number("x"), None);
    assert_eq!(interpreter.ask_arithmetic(BinaryOperator::Multiply, n(3.0), n(4.0)), n(12.0));
    let called = interpreter.ask_call(NativeFunction { id: MARK }, vec![], vec![]);
    assert_eq!(show(&called.unwrap()), "true");
    assert_eq!(interpreter.host.literals, 2);
    assert_eq!(interpreter.host.marks, 1);
    assert_eq!(interpreter.fuel, 2);
}
