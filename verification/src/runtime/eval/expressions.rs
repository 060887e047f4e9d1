//! The rules for expressions.

use vstd::prelude::*;
use crate::error::RuntimeError;
use crate::frontend::ast::{
    element_views, expr_views, property_views, ArrayLiteral, AssignmentExpr, BinaryExpr, CallExpr,
    Expr, Identifier, IfElseExpr, MemberExpr, ObjectLiteral, StringLiteral, UnaryExpr,
};
use crate::runtime::environment::{
    find_binding, lemma_assigned_same_scopes, lemma_same_scopes_reflexive,
    lemma_same_scopes_transitive, looked_up, same_scopes, Environment, EnvironmentView,
};
use crate::runtime::eval::operators::{apply_binary, outcome, unary_result};
use crate::runtime::eval::statements::{eval_block, eval_statements};
use crate::runtime::host::{Host, Interpreter};
use crate::runtime::interpreter::eval_expr;
use crate::runtime::semantics::{
    bound, continues, lemma_continues_itself, lemma_continues_pushed, lemma_continues_reads,
    lemma_continues_transitive, member_value, reached, run_call_unfolds, run_elements,
    run_elements_unfolds, run_expr, run_expr_unfolds, run_properties, run_properties_unfolds,
    Exchange,
};
use crate::runtime::values::{
    binding_views, clone_bindings, clone_value, value_views, RuntimeVal, ValueView,
};

verus! {

/// What reading a numeric literal gave, as the log holds it.
pub open spec fn literal_answer(r: Result<RuntimeVal, RuntimeError>) -> Option<u64> {
    match r {
        Ok(value) => match value@ {
            ValueView::Number(bits) => Some(bits),
            _ => None,
        },
        Err(_) => None,
    }
}

/// The value of a numeric literal: the number that the host reads from its
/// text; `InvalidNumber` where the host reads none. The log grows by that
/// exchange.
pub fn eval_number_literal<H: Host>(literal: &str, interpreter: &mut Interpreter<H>) -> (r: Result<
    RuntimeVal,
    RuntimeError,
>)
    ensures
        final(interpreter).fuel == old(interpreter).fuel,
        final(interpreter).log@ == old(interpreter).log@.push(
            Exchange::Number { literal: literal@, answer: literal_answer(r) },
        ),
        match r {
            Ok(value) => value@ is Number,
            Err(e) => e == RuntimeError::InvalidNumber,
        },
{
    match interpreter.ask_number(literal) {
        Some(number) => Ok(RuntimeVal::Number(number)),
        None => Err(RuntimeError::InvalidNumber),
    }
}

/// The value of a string literal: its text.
pub fn eval_string_literal(string_literal: &StringLiteral, env: &mut Environment) -> (value:
    RuntimeVal)
    ensures
        value@ == ValueView::Text(string_literal.value@),
        *final(env) == *old(env),
{
    RuntimeVal::String(string_literal.value.clone())
}

/// The value of a name: a copy of what the innermost frame that declares
/// it holds.
pub fn eval_identifier(ident: &Identifier, env: &mut Environment) -> (r: Result<
    RuntimeVal,
    RuntimeError,
>)
    ensures
        outcome(r) == looked_up(old(env)@, ident.symbol@),
        *final(env) == *old(env),
{
    env.lookup_var(ident.symbol.as_str())
}

/// Evaluates both operands, the left one first, and then applies the
/// operator; the right operand of `&&` and `||` is evaluated whatever the
/// left one gave.
pub fn eval_binary_expr<H: Host>(
    binop: &BinaryExpr,
    env: &mut Environment,
    interpreter: &mut Interpreter<H>,
) -> (r: Result<RuntimeVal, RuntimeError>)
    ensures
        final(interpreter).fuel <= old(interpreter).fuel,
        same_scopes(old(env)@, final(env)@),
        continues(final(interpreter).log@, old(interpreter).log@),
        forall|tape: Seq<Exchange>| #[trigger]
            continues(tape, final(interpreter).log@) ==> run_expr(
                binop@,
                old(env)@,
                old(interpreter).fuel as nat,
                tape,
                old(interpreter).log@.len(),
            ) == reached(
                r,
                final(env)@,
                final(interpreter).fuel,
                final(interpreter).log@,
            ),
    decreases old(interpreter).fuel, binop, 0nat,
{
    let ghost env0 = env@;
    let ghost fuel0 = interpreter.fuel as nat;
    let ghost log0 = interpreter.log@;
    proof {
        lemma_same_scopes_reflexive(env0);
        lemma_continues_itself(log0);
    }
    let first = eval_expr(&binop.left, env, interpreter);
    let ghost env1 = env@;
    let ghost log1 = interpreter.log@;
    let ghost mut log2 = log1;
    proof {
        lemma_continues_itself(log1);
    }
    let r = match first {
        Ok(lhs) => {
            let second = eval_expr(&binop.right, env, interpreter);
            proof {
                log2 = interpreter.log@;
                lemma_same_scopes_transitive(env0, env1, env@);
                lemma_continues_transitive(log2, log1, log0);
            }
            match second {
                Ok(rhs) => {
                    let applied = apply_binary(&binop.operator, &lhs, &rhs, interpreter);
                    proof {
                        if interpreter.log@ != log2 {
                            lemma_continues_pushed(log2, interpreter.log@.last());
                            lemma_continues_transitive(interpreter.log@, log2, log0);
                        }
                    }
                    applied
                },
                Err(e) => Err(e),
            }
        },
        Err(e) => Err(e),
    };
    proof {
        assert forall|tape: Seq<Exchange>| #[trigger]
            continues(tape, interpreter.log@) implies
            run_expr(
                binop@,
                env0,
                fuel0,
                tape,
                log0.len(),
            )
            == reached(r, env@, interpreter.fuel, interpreter.log@) by {
            run_expr_unfolds(binop@, env0, fuel0, tape, log0.len());
            if interpreter.log@ != log2 {
                lemma_continues_reads(tape, log2, interpreter.log@.last());
            }
            lemma_continues_transitive(tape, log2, log1);
        }
    }
    r
}

/// Evaluates the value and gives it to the name on the left, which must be
/// a plain name. Gives the value.
pub fn eval_assignment<H: Host>(
    assignment_expr: &AssignmentExpr,
    env: &mut Environment,
    interpreter: &mut Interpreter<H>,
) -> (r: Result<RuntimeVal, RuntimeError>)
    ensures
        final(interpreter).fuel <= old(interpreter).fuel,
        same_scopes(old(env)@, final(env)@),
        continues(final(interpreter).log@, old(interpreter).log@),
        forall|tape: Seq<Exchange>| #[trigger]
            continues(tape, final(interpreter).log@) ==> run_expr(
                assignment_expr@,
                old(env)@,
                old(interpreter).fuel as nat,
                tape,
                old(interpreter).log@.len(),
            ) == reached(
                r,
                final(env)@,
                final(interpreter).fuel,
                final(interpreter).log@,
            ),
    decreases old(interpreter).fuel, assignment_expr, 0nat,
{
    let ghost env0 = env@;
    let ghost fuel0 = interpreter.fuel as nat;
    let ghost log0 = interpreter.log@;
    proof {
        lemma_same_scopes_reflexive(env0);
        lemma_continues_itself(log0);
    }
    let r = match &*assignment_expr.assignee {
        Expr::Identifier(ident) => {
            match eval_expr(&assignment_expr.value, env, interpreter) {
                Ok(value) => {
                    let ghost middle = env@;
                    let assigned = env.assign_var(&ident.symbol, &value);
                    proof {
                        if assigned is Ok {
                            lemma_assigned_same_scopes(middle, ident.symbol@, value@);
                        } else {
                            lemma_same_scopes_reflexive(middle);
                        }
                        lemma_same_scopes_transitive(env0, middle, env@);
                    }
                    match assigned {
                        Ok(_) => Ok(value),
                        Err(e) => Err(e),
                    }
                },
                Err(e) => Err(e),
            }
        },
        _ => Err(RuntimeError::InvalidAssignmentTarget),
    };
    proof {
        assert forall|tape: Seq<Exchange>| #[trigger]
            continues(tape, interpreter.log@) implies
            run_expr(
                assignment_expr@,
                env0,
                fuel0,
                tape,
                log0.len(),
            )
            == reached(r, env@, interpreter.fuel, interpreter.log@) by {
            run_expr_unfolds(assignment_expr@, env0, fuel0, tape, log0.len());
        }
    }
    r
}

/// Evaluates the entries of an object literal in order. An entry without a
/// value takes that of the variable of its name.
pub fn eval_object_expr<H: Host>(
    obj: &ObjectLiteral,
    env: &mut Environment,
    interpreter: &mut Interpreter<H>,
) -> (r: Result<RuntimeVal, RuntimeError>)
    ensures
        final(interpreter).fuel <= old(interpreter).fuel,
        same_scopes(old(env)@, final(env)@),
        continues(final(interpreter).log@, old(interpreter).log@),
        forall|tape: Seq<Exchange>| #[trigger]
            continues(tape, final(interpreter).log@) ==> run_expr(
                obj@,
                old(env)@,
                old(interpreter).fuel as nat,
                tape,
                old(interpreter).log@.len(),
            ) == reached(
                r,
                final(env)@,
                final(interpreter).fuel,
                final(interpreter).log@,
            ),
    decreases old(interpreter).fuel, obj, 0nat,
{
    let ghost env0 = env@;
    let ghost fuel0 = interpreter.fuel as nat;
    let ghost log0 = interpreter.log@;
    proof {
        lemma_same_scopes_reflexive(env0);
        lemma_continues_itself(log0);
    }
    let ghost views = property_views(obj.properties);
    let mut properties: Vec<(String, RuntimeVal)> = Vec::new();
    let mut i: usize = 0;
    assert(binding_views(properties) =~= Seq::empty());
    while i < obj.properties.len()
        invariant
            i <= obj.properties.len(),
            env0 == old(env)@,
            fuel0 == old(interpreter).fuel,
            log0 == old(interpreter).log@,
            views == property_views(obj.properties),
            interpreter.fuel <= old(interpreter).fuel,
            same_scopes(env0, env@),
            continues(interpreter.log@, log0),
            forall|tape: Seq<Exchange>| #[trigger]
                continues(tape, interpreter.log@) ==> run_properties(
                    views,
                    0,
                    env0,
                    fuel0,
                    tape,
                    log0.len(),
                    Seq::empty(),
                ) == run_properties(
                    views,
                    i as nat,
                    env@,
                    interpreter.fuel as nat,
                    tape,
                    interpreter.log@.len(),
                    binding_views(properties),
                ),
        decreases obj.properties.len() - i,
    {
        let property = &obj.properties[i];
        let ghost before = env@;
        let ghost fuel_before = interpreter.fuel as nat;
        let ghost log_before = interpreter.log@;
        let ghost acc = binding_views(properties);
        assert(views[i as int] == property@);
        let value = match &property.value {
            Some(value) => eval_expr(value, env, interpreter),
            None => env.lookup_var(property.key.as_str()),
        };
        proof {
            lemma_same_scopes_reflexive(before);
            lemma_same_scopes_transitive(env0, before, env@);
            lemma_continues_itself(log_before);
            lemma_continues_transitive(interpreter.log@, log_before, log0);
        }
        match value {
            Ok(value) => {
                properties.push((property.key.clone(), value));
                proof {
                    assert(binding_views(properties) =~= acc.push((property.key@, value@)));
                    assert forall|tape: Seq<Exchange>| #[trigger]
                        continues(tape, interpreter.log@) implies run_properties(
                        views,
                        0,
                        env0,
                        fuel0,
                        tape,
                        log0.len(),
                        Seq::empty(),
                    ) == run_properties(
                        views,
                        (i + 1) as nat,
                        env@,
                        interpreter.fuel as nat,
                        tape,
                        interpreter.log@.len(),
                        binding_views(properties),
                    ) by {
                        lemma_continues_transitive(tape, interpreter.log@, log_before);
                        run_properties_unfolds(
                            views,
                            i as nat,
                            before,
                            fuel_before,
                            tape,
                            log_before.len(),
                            acc,
                        );
                    }
                }
            },
            Err(e) => {
                proof {
                    assert forall|tape: Seq<Exchange>| #[trigger]
                        continues(tape, interpreter.log@) implies run_expr(
                        obj@,
                        env0,
                        fuel0,
                        tape,
                        log0.len(),
                    ) == reached(
                        Err::<RuntimeVal, RuntimeError>(e),
                        env@,
                        interpreter.fuel,
                        interpreter.log@,
                    ) by {
                        lemma_continues_transitive(tape, interpreter.log@, log_before);
                        run_expr_unfolds(obj@, env0, fuel0, tape, log0.len());
                        run_properties_unfolds(
                            views,
                            i as nat,
                            before,
                            fuel_before,
                            tape,
                            log_before.len(),
                            acc,
                        );
                    }
                }
                return Err(e);
            },
        }
        i += 1;
    }
    let r = Ok(RuntimeVal::Object(properties));
    proof {
        assert forall|tape: Seq<Exchange>| #[trigger]
            continues(tape, interpreter.log@) implies run_expr(obj@, env0, fuel0, tape, log0.len())
            == reached(r, env@, interpreter.fuel, interpreter.log@) by {
            run_expr_unfolds(obj@, env0, fuel0, tape, log0.len());
            run_properties_unfolds(
                views,
                i as nat,
                env@,
                interpreter.fuel as nat,
                tape,
                interpreter.log@.len(),
                binding_views(properties),
            );
        }
    }
    r
}

/// Evaluates the elements of an array literal in order and gives their
/// values.
pub fn eval_elements<H: Host>(
    elements: &Vec<Box<Expr>>,
    env: &mut Environment,
    interpreter: &mut Interpreter<H>,
) -> (r: Result<Vec<RuntimeVal>, RuntimeError>)
    ensures
        final(interpreter).fuel <= old(interpreter).fuel,
        same_scopes(old(env)@, final(env)@),
        continues(final(interpreter).log@, old(interpreter).log@),
        forall|tape: Seq<Exchange>| #[trigger]
            continues(tape, final(interpreter).log@) ==> run_elements(
                element_views(*elements),
                0,
                old(env)@,
                old(interpreter).fuel as nat,
                tape,
                old(interpreter).log@.len(),
                Seq::empty(),
            ) == reached(
                listed(r),
                final(env)@,
                final(interpreter).fuel,
                final(interpreter).log@,
            ),
    decreases old(interpreter).fuel, elements, 0nat,
{
    let ghost env0 = env@;
    let ghost fuel0 = interpreter.fuel as nat;
    let ghost log0 = interpreter.log@;
    proof {
        lemma_same_scopes_reflexive(env0);
        lemma_continues_itself(log0);
    }
    let ghost views = element_views(*elements);
    let mut values: Vec<RuntimeVal> = Vec::new();
    let mut i: usize = 0;
    assert(value_views(values) =~= Seq::empty());
    while i < elements.len()
        invariant
            i <= elements.len(),
            env0 == old(env)@,
            fuel0 == old(interpreter).fuel,
            log0 == old(interpreter).log@,
            views == element_views(*elements),
            interpreter.fuel <= old(interpreter).fuel,
            same_scopes(env0, env@),
            continues(interpreter.log@, log0),
            forall|tape: Seq<Exchange>| #[trigger]
                continues(tape, interpreter.log@) ==> run_elements(
                    views,
                    0,
                    env0,
                    fuel0,
                    tape,
                    log0.len(),
                    Seq::empty(),
                ) == run_elements(
                    views,
                    i as nat,
                    env@,
                    interpreter.fuel as nat,
                    tape,
                    interpreter.log@.len(),
                    value_views(values),
                ),
        decreases elements.len() - i,
    {
        let ghost before = env@;
        let ghost fuel_before = interpreter.fuel as nat;
        let ghost log_before = interpreter.log@;
        let ghost acc = value_views(values);
        assert(views[i as int] == elements[i as int]@);
        let value = eval_expr(&elements[i], env, interpreter);
        proof {
            lemma_same_scopes_transitive(env0, before, env@);
            lemma_continues_transitive(interpreter.log@, log_before, log0);
        }
        match value {
            Ok(value) => {
                values.push(value);
                proof {
                    assert(value_views(values) =~= acc.push(value@));
                    assert forall|tape: Seq<Exchange>| #[trigger]
                        continues(tape, interpreter.log@) implies run_elements(
                        views,
                        0,
                        env0,
                        fuel0,
                        tape,
                        log0.len(),
                        Seq::empty(),
                    ) == run_elements(
                        views,
                        (i + 1) as nat,
                        env@,
                        interpreter.fuel as nat,
                        tape,
                        interpreter.log@.len(),
                        value_views(values),
                    ) by {
                        lemma_continues_transitive(tape, interpreter.log@, log_before);
                        run_elements_unfolds(
                            views,
                            i as nat,
                            before,
                            fuel_before,
                            tape,
                            log_before.len(),
                            acc,
                        );
                    }
                }
            },
            Err(e) => {
                proof {
                    assert forall|tape: Seq<Exchange>| #[trigger]
                        continues(tape, interpreter.log@) implies run_elements(
                        views,
                        0,
                        env0,
                        fuel0,
                        tape,
                        log0.len(),
                        Seq::empty(),
                    ) == reached(
                        Err::<RuntimeVal, RuntimeError>(e),
                        env@,
                        interpreter.fuel,
                        interpreter.log@,
                    ) by {
                        lemma_continues_transitive(tape, interpreter.log@, log_before);
                        run_elements_unfolds(
                            views,
                            i as nat,
                            before,
                            fuel_before,
                            tape,
                            log_before.len(),
                            acc,
                        );
                    }
                }
                return Err(e);
            },
        }
        i += 1;
    }
    proof {
        assert forall|tape: Seq<Exchange>| #[trigger]
            continues(tape, interpreter.log@) implies run_elements(
            views,
            0,
            env0,
            fuel0,
            tape,
            log0.len(),
            Seq::empty(),
        ) == reached(
            listed(Ok::<Vec<RuntimeVal>, RuntimeError>(values)),
            env@,
            interpreter.fuel,
            interpreter.log@,
        ) by {
            run_elements_unfolds(
                views,
                i as nat,
                env@,
                interpreter.fuel as nat,
                tape,
                interpreter.log@.len(),
                value_views(values),
            );
        }
    }
    Ok(values)
}

/// Evaluates the arguments of a call in order and gives their values.
pub fn eval_arguments<H: Host>(
    elements: &Vec<Expr>,
    env: &mut Environment,
    interpreter: &mut Interpreter<H>,
) -> (r: Result<Vec<RuntimeVal>, RuntimeError>)
    ensures
        final(interpreter).fuel <= old(interpreter).fuel,
        same_scopes(old(env)@, final(env)@),
        continues(final(interpreter).log@, old(interpreter).log@),
        forall|tape: Seq<Exchange>| #[trigger]
            continues(tape, final(interpreter).log@) ==> run_elements(
                expr_views(*elements),
                0,
                old(env)@,
                old(interpreter).fuel as nat,
                tape,
                old(interpreter).log@.len(),
                Seq::empty(),
            ) == reached(
                listed(r),
                final(env)@,
                final(interpreter).fuel,
                final(interpreter).log@,
            ),
    decreases old(interpreter).fuel, elements, 0nat,
{
    let ghost env0 = env@;
    let ghost fuel0 = interpreter.fuel as nat;
    let ghost log0 = interpreter.log@;
    proof {
        lemma_same_scopes_reflexive(env0);
        lemma_continues_itself(log0);
    }
    let ghost views = expr_views(*elements);
    let mut values: Vec<RuntimeVal> = Vec::new();
    let mut i: usize = 0;
    assert(value_views(values) =~= Seq::empty());
    while i < elements.len()
        invariant
            i <= elements.len(),
            env0 == old(env)@,
            fuel0 == old(interpreter).fuel,
            log0 == old(interpreter).log@,
            views == expr_views(*elements),
            interpreter.fuel <= old(interpreter).fuel,
            same_scopes(env0, env@),
            continues(interpreter.log@, log0),
            forall|tape: Seq<Exchange>| #[trigger]
                continues(tape, interpreter.log@) ==> run_elements(
                    views,
                    0,
                    env0,
                    fuel0,
                    tape,
                    log0.len(),
                    Seq::empty(),
                ) == run_elements(
                    views,
                    i as nat,
                    env@,
                    interpreter.fuel as nat,
                    tape,
                    interpreter.log@.len(),
                    value_views(values),
                ),
        decreases elements.len() - i,
    {
        let ghost before = env@;
        let ghost fuel_before = interpreter.fuel as nat;
        let ghost log_before = interpreter.log@;
        let ghost acc = value_views(values);
        assert(views[i as int] == elements[i as int]@);
        let value = eval_expr(&elements[i], env, interpreter);
        proof {
            lemma_same_scopes_transitive(env0, before, env@);
            lemma_continues_transitive(interpreter.log@, log_before, log0);
        }
        match value {
            Ok(value) => {
                values.push(value);
                proof {
                    assert(value_views(values) =~= acc.push(value@));
                    assert forall|tape: Seq<Exchange>| #[trigger]
                        continues(tape, interpreter.log@) implies run_elements(
                        views,
                        0,
                        env0,
                        fuel0,
                        tape,
                        log0.len(),
                        Seq::empty(),
                    ) == run_elements(
                        views,
                        (i + 1) as nat,
                        env@,
                        interpreter.fuel as nat,
                        tape,
                        interpreter.log@.len(),
                        value_views(values),
                    ) by {
                        lemma_continues_transitive(tape, interpreter.log@, log_before);
                        run_elements_unfolds(
                            views,
                            i as nat,
                            before,
                            fuel_before,
                            tape,
                            log_before.len(),
                            acc,
                        );
                    }
                }
            },
            Err(e) => {
                proof {
                    assert forall|tape: Seq<Exchange>| #[trigger]
                        continues(tape, interpreter.log@) implies run_elements(
                        views,
                        0,
                        env0,
                        fuel0,
                        tape,
                        log0.len(),
                        Seq::empty(),
                    ) == reached(
                        Err::<RuntimeVal, RuntimeError>(e),
                        env@,
                        interpreter.fuel,
                        interpreter.log@,
                    ) by {
                        lemma_continues_transitive(tape, interpreter.log@, log_before);
                        run_elements_unfolds(
                            views,
                            i as nat,
                            before,
                            fuel_before,
                            tape,
                            log_before.len(),
                            acc,
                        );
                    }
                }
                return Err(e);
            },
        }
        i += 1;
    }
    proof {
        assert forall|tape: Seq<Exchange>| #[trigger]
            continues(tape, interpreter.log@) implies run_elements(
            views,
            0,
            env0,
            fuel0,
            tape,
            log0.len(),
            Seq::empty(),
        ) == reached(
            listed(Ok::<Vec<RuntimeVal>, RuntimeError>(values)),
            env@,
            interpreter.fuel,
            interpreter.log@,
        ) by {
            run_elements_unfolds(
                views,
                i as nat,
                env@,
                interpreter.fuel as nat,
                tape,
                interpreter.log@.len(),
                value_views(values),
            );
        }
    }
    Ok(values)
}

/// A list of values as the array of them.
pub open spec fn listed(r: Result<Vec<RuntimeVal>, RuntimeError>) -> Result<
    RuntimeVal,
    RuntimeError,
> {
    match r {
        Ok(values) => Ok(RuntimeVal::Array(values)),
        Err(e) => Err(e),
    }
}

/// Evaluates the elements of an array literal in order.
pub fn eval_array_expr<H: Host>(
    array_literal: &ArrayLiteral,
    env: &mut Environment,
    interpreter: &mut Interpreter<H>,
) -> (r: Result<RuntimeVal, RuntimeError>)
    ensures
        final(interpreter).fuel <= old(interpreter).fuel,
        same_scopes(old(env)@, final(env)@),
        continues(final(interpreter).log@, old(interpreter).log@),
        forall|tape: Seq<Exchange>| #[trigger]
            continues(tape, final(interpreter).log@) ==> run_expr(
                array_literal@,
                old(env)@,
                old(interpreter).fuel as nat,
                tape,
                old(interpreter).log@.len(),
            ) == reached(
                r,
                final(env)@,
                final(interpreter).fuel,
                final(interpreter).log@,
            ),
    decreases old(interpreter).fuel, array_literal, 1nat,
{
    let ghost env0 = env@;
    let ghost fuel0 = interpreter.fuel as nat;
    let ghost log0 = interpreter.log@;
    proof {
        lemma_same_scopes_reflexive(env0);
        lemma_continues_itself(log0);
    }
    let r = match eval_elements(&array_literal.elements, env, interpreter) {
        Ok(values) => Ok(RuntimeVal::Array(values)),
        Err(e) => Err(e),
    };
    proof {
        assert forall|tape: Seq<Exchange>| #[trigger]
            continues(tape, interpreter.log@) implies
            run_expr(
                array_literal@,
                env0,
                fuel0,
                tape,
                log0.len(),
            )
            == reached(r, env@, interpreter.fuel, interpreter.log@) by {
            run_expr_unfolds(array_literal@, env0, fuel0, tape, log0.len());
        }
    }
    r
}

/// Evaluates the arguments in order and then the callee, and calls it.
///
/// A native function is called through the host, with the arguments and a
/// copy of the caller's innermost frame. A function of the program must be
/// given as many arguments as it has parameters; the call takes one step,
/// and the body runs in a fresh frame inside the scopes of the function's
/// declaration, with the parameters bound to the arguments. It gives the
/// value of the body's last statement.
pub fn eval_call_expr<H: Host>(
    expr: &CallExpr,
    env: &mut Environment,
    interpreter: &mut Interpreter<H>,
) -> (r: Result<RuntimeVal, RuntimeError>)
    ensures
        final(interpreter).fuel <= old(interpreter).fuel,
        same_scopes(old(env)@, final(env)@),
        continues(final(interpreter).log@, old(interpreter).log@),
        forall|tape: Seq<Exchange>| #[trigger]
            continues(tape, final(interpreter).log@) ==> run_expr(
                expr@,
                old(env)@,
                old(interpreter).fuel as nat,
                tape,
                old(interpreter).log@.len(),
            ) == reached(
                r,
                final(env)@,
                final(interpreter).fuel,
                final(interpreter).log@,
            ),
    decreases old(interpreter).fuel, expr, 1nat,
{
    let ghost env0 = env@;
    let ghost fuel0 = interpreter.fuel as nat;
    let ghost log0 = interpreter.log@;
    proof {
        lemma_same_scopes_reflexive(env0);
        lemma_continues_itself(log0);
    }
    let listed = eval_arguments(&expr.args, env, interpreter);
    let ghost env1 = env@;
    let ghost fuel1 = interpreter.fuel as nat;
    let ghost log1 = interpreter.log@;
    let args = match listed {
        Ok(args) => args,
        Err(e) => {
            proof {
                assert forall|tape: Seq<Exchange>| #[trigger]
                    continues(tape, interpreter.log@) implies
                    run_expr(
                        expr@,
                        env0,
                        fuel0,
                        tape,
                        log0.len(),
                    )
                    == reached(
                        Err::<RuntimeVal, RuntimeError>(e),
                        env@,
                        interpreter.fuel,
                        interpreter.log@,
                    ) by {
                    run_expr_unfolds(expr@, env0, fuel0, tape, log0.len());
                    run_call_unfolds(expr@, env0, fuel0, tape, log0.len());
                }
            }
            return Err(e);
        },
    };
    let ghost values = value_views(args);
    let callee = eval_expr(&expr.caller, env, interpreter);
    let ghost env2 = env@;
    let ghost fuel2 = interpreter.fuel as nat;
    let ghost log2 = interpreter.log@;
    proof {
        lemma_same_scopes_transitive(env0, env1, env2);
        lemma_continues_transitive(log2, log1, log0);
    }
    let callee = match callee {
        Ok(callee) => callee,
        Err(e) => {
            proof {
                assert forall|tape: Seq<Exchange>| #[trigger]
                    continues(tape, interpreter.log@) implies
                    run_expr(
                        expr@,
                        env0,
                        fuel0,
                        tape,
                        log0.len(),
                    )
                    == reached(
                        Err::<RuntimeVal, RuntimeError>(e),
                        env@,
                        interpreter.fuel,
                        interpreter.log@,
                    ) by {
                    lemma_continues_transitive(tape, log2, log1);
                    run_expr_unfolds(expr@, env0, fuel0, tape, log0.len());
                    run_call_unfolds(expr@, env0, fuel0, tape, log0.len());
                }
            }
            return Err(e);
        },
    };
    let ghost called = callee@;
    match callee {
        RuntimeVal::NativeFunction(native_fn) => {
            let scope = clone_bindings(&env.variables);
            let r = interpreter.ask_call(native_fn, args, scope);
            proof {
                lemma_continues_pushed(log2, interpreter.log@.last());
                lemma_continues_transitive(interpreter.log@, log2, log0);
                assert forall|tape: Seq<Exchange>| #[trigger]
                    continues(tape, interpreter.log@) implies
                    run_expr(
                        expr@,
                        env0,
                        fuel0,
                        tape,
                        log0.len(),
                    )
                    == reached(r, env@, interpreter.fuel, interpreter.log@) by {
                    lemma_continues_reads(tape, log2, interpreter.log@.last());
                    lemma_continues_transitive(tape, log2, log1);
                    run_expr_unfolds(expr@, env0, fuel0, tape, log0.len());
                    run_call_unfolds(expr@, env0, fuel0, tape, log0.len());
                }
            }
            r
        },
        RuntimeVal::Function(func) => {
            if func.parameters.len() != args.len() {
                proof {
                    assert forall|tape: Seq<Exchange>| #[trigger]
                        continues(tape, interpreter.log@) implies
                        run_expr(
                            expr@,
                            env0,
                            fuel0,
                            tape,
                            log0.len(),
                        )
                        == reached(
                            Err::<RuntimeVal, RuntimeError>(RuntimeError::ArityMismatch),
                            env@,
                            interpreter.fuel,
                            interpreter.log@,
                        ) by {
                        lemma_continues_transitive(tape, log2, log1);
                        run_expr_unfolds(expr@, env0, fuel0, tape, log0.len());
                        run_call_unfolds(expr@, env0, fuel0, tape, log0.len());
                    }
                }
                return Err(RuntimeError::ArityMismatch);
            }
            match interpreter.step() {
                Ok(_) => {},
                Err(e) => {
                    proof {
                        assert forall|tape: Seq<Exchange>| #[trigger]
                            continues(tape, interpreter.log@) implies
                            run_expr(
                                expr@,
                                env0,
                                fuel0,
                                tape,
                                log0.len(),
                            )
                            == reached(
                                Err::<RuntimeVal, RuntimeError>(e),
                                env@,
                                interpreter.fuel,
                                interpreter.log@,
                            ) by {
                            lemma_continues_transitive(tape, log2, log1);
                            run_expr_unfolds(expr@, env0, fuel0, tape, log0.len());
                            run_call_unfolds(expr@, env0, fuel0, tape, log0.len());
                        }
                    }
                    return Err(e);
                },
            }
            let ghost parameters = crate::frontend::ast::string_views(func.parameters@);
            let ghost captured = func.declaration_env@;
            let mut scope = Environment::new(Some(func.declaration_env));
            match bind_parameters(&mut scope, &func.parameters, &args) {
                Ok(_) => {},
                Err(e) => {
                    proof {
                        assert forall|tape: Seq<Exchange>| #[trigger]
                            continues(tape, interpreter.log@) implies
                            run_expr(
                                expr@,
                                env0,
                                fuel0,
                                tape,
                                log0.len(),
                            )
                            == reached(
                                Err::<RuntimeVal, RuntimeError>(e),
                                env@,
                                interpreter.fuel,
                                interpreter.log@,
                            ) by {
                            lemma_continues_transitive(tape, log2, log1);
                            run_expr_unfolds(expr@, env0, fuel0, tape, log0.len());
                            run_call_unfolds(expr@, env0, fuel0, tape, log0.len());
                        }
                    }
                    return Err(e);
                },
            }
            let ghost inner = scope@;
            let r = eval_statements(&func.body, &mut scope, interpreter);
            proof {
                lemma_continues_transitive(interpreter.log@, log2, log0);
                assert forall|tape: Seq<Exchange>| #[trigger]
                    continues(tape, interpreter.log@) implies
                    run_expr(
                        expr@,
                        env0,
                        fuel0,
                        tape,
                        log0.len(),
                    )
                    == reached(r, env@, interpreter.fuel, interpreter.log@) by {
                    lemma_continues_transitive(tape, interpreter.log@, log2);
                    lemma_continues_transitive(tape, log2, log1);
                    run_expr_unfolds(expr@, env0, fuel0, tape, log0.len());
                    run_call_unfolds(expr@, env0, fuel0, tape, log0.len());
                }
            }
            r
        },
        _ => {
            proof {
                assert forall|tape: Seq<Exchange>| #[trigger]
                    continues(tape, interpreter.log@) implies
                    run_expr(
                        expr@,
                        env0,
                        fuel0,
                        tape,
                        log0.len(),
                    )
                    == reached(
                        Err::<RuntimeVal, RuntimeError>(RuntimeError::NotCallable),
                        env@,
                        interpreter.fuel,
                        interpreter.log@,
                    ) by {
                    lemma_continues_transitive(tape, log2, log1);
                    run_expr_unfolds(expr@, env0, fuel0, tape, log0.len());
                    run_call_unfolds(expr@, env0, fuel0, tape, log0.len());
                }
            }
            Err(RuntimeError::NotCallable)
        },
    }
}

/// Declares the parameters of a function in the innermost frame of
/// `scope`, each with a copy of the argument in its place, as far as there
/// are both.
pub fn bind_parameters(
    scope: &mut Environment,
    parameters: &Vec<String>,
    args: &Vec<RuntimeVal>,
) -> (r: Result<(), RuntimeError>)
    ensures
        match r {
            Ok(_) => bound(
                old(scope)@,
                crate::frontend::ast::string_views(parameters@),
                value_views(*args),
                0,
            ) == Ok::<EnvironmentView, RuntimeError>(final(scope)@),
            Err(e) => bound(
                old(scope)@,
                crate::frontend::ast::string_views(parameters@),
                value_views(*args),
                0,
            ) == Err::<EnvironmentView, RuntimeError>(e),
        },
{
    let ghost names = crate::frontend::ast::string_views(parameters@);
    let ghost values = value_views(*args);
    let mut k: usize = 0;
    while k < parameters.len() && k < args.len()
        invariant
            names == crate::frontend::ast::string_views(parameters@),
            values == value_views(*args),
            bound(old(scope)@, names, values, 0) == bound(scope@, names, values, k as nat),
        decreases parameters.len() - k,
    {
        assert(names[k as int] == parameters[k as int]@);
        assert(values[k as int] == args[k as int]@);
        match scope.declare_var(parameters[k].clone(), clone_value(&args[k]), false) {
            Ok(_) => {},
            Err(e) => {
                return Err(e);
            },
        }
        k += 1;
    }
    Ok(())
}

/// Computes [`member_value`].
pub fn property_of(object: &RuntimeVal, key: &str) -> (r: Result<RuntimeVal, RuntimeError>)
    ensures
        outcome(r) == member_value(object@, key@),
{
    match object {
        RuntimeVal::Object(entries) => match find_binding(entries, key) {
            Some(i) => {
                assert(binding_views(*entries)[i as int].1 == entries[i as int].1@);
                Ok(clone_value(&entries[i].1))
            },
            None => Err(RuntimeError::MissingProperty),
        },
        _ => Err(RuntimeError::NotAnObject),
    }
}

/// Evaluates the object and gives its entry of the name that stands behind
/// it; what stands there must be a plain name, between brackets too.
pub fn eval_member_expr<H: Host>(
    expr: &MemberExpr,
    env: &mut Environment,
    interpreter: &mut Interpreter<H>,
) -> (r: Result<RuntimeVal, RuntimeError>)
    ensures
        final(interpreter).fuel <= old(interpreter).fuel,
        same_scopes(old(env)@, final(env)@),
        continues(final(interpreter).log@, old(interpreter).log@),
        forall|tape: Seq<Exchange>| #[trigger]
            continues(tape, final(interpreter).log@) ==> run_expr(
                expr@,
                old(env)@,
                old(interpreter).fuel as nat,
                tape,
                old(interpreter).log@.len(),
            ) == reached(
                r,
                final(env)@,
                final(interpreter).fuel,
                final(interpreter).log@,
            ),
    decreases old(interpreter).fuel, expr, 0nat,
{
    let ghost env0 = env@;
    let ghost fuel0 = interpreter.fuel as nat;
    let ghost log0 = interpreter.log@;
    proof {
        lemma_same_scopes_reflexive(env0);
        lemma_continues_itself(log0);
    }
    let r = match eval_expr(&expr.object, env, interpreter) {
        Ok(object) => match &*expr.property {
            Expr::Identifier(ident) => property_of(&object, ident.symbol.as_str()),
            _ => Err(RuntimeError::InvalidProperty),
        },
        Err(e) => Err(e),
    };
    proof {
        assert forall|tape: Seq<Exchange>| #[trigger]
            continues(tape, interpreter.log@) implies run_expr(expr@, env0, fuel0, tape, log0.len())
            == reached(r, env@, interpreter.fuel, interpreter.log@) by {
            run_expr_unfolds(expr@, env0, fuel0, tape, log0.len());
        }
    }
    r
}

/// Evaluates the operand and applies the sign.
pub fn eval_unary_expr<H: Host>(
    unary_expr: &UnaryExpr,
    env: &mut Environment,
    interpreter: &mut Interpreter<H>,
) -> (r: Result<RuntimeVal, RuntimeError>)
    ensures
        final(interpreter).fuel <= old(interpreter).fuel,
        same_scopes(old(env)@, final(env)@),
        continues(final(interpreter).log@, old(interpreter).log@),
        forall|tape: Seq<Exchange>| #[trigger]
            continues(tape, final(interpreter).log@) ==> run_expr(
                unary_expr@,
                old(env)@,
                old(interpreter).fuel as nat,
                tape,
                old(interpreter).log@.len(),
            ) == reached(
                r,
                final(env)@,
                final(interpreter).fuel,
                final(interpreter).log@,
            ),
    decreases old(interpreter).fuel, unary_expr, 0nat,
{
    let ghost env0 = env@;
    let ghost fuel0 = interpreter.fuel as nat;
    let ghost log0 = interpreter.log@;
    proof {
        lemma_same_scopes_reflexive(env0);
        lemma_continues_itself(log0);
    }
    let r = match eval_expr(&unary_expr.operand, env, interpreter) {
        Ok(operand) => unary_result(unary_expr.operator.as_str(), &operand),
        Err(e) => Err(e),
    };
    proof {
        assert forall|tape: Seq<Exchange>| #[trigger]
            continues(tape, interpreter.log@) implies
            run_expr(
                unary_expr@,
                env0,
                fuel0,
                tape,
                log0.len(),
            )
            == reached(r, env@, interpreter.fuel, interpreter.log@) by {
            run_expr_unfolds(unary_expr@, env0, fuel0, tape, log0.len());
        }
    }
    r
}

/// Evaluates the condition, which must give a truth value, and then the
/// branch that it selects, in a fresh frame. Gives the value of the
/// branch's last statement; `tyhjä` where the branch is empty, or where
/// the condition is `epätosi` and there is no second branch.
pub fn eval_if_else_expr<H: Host>(
    if_else_expr: &IfElseExpr,
    env: &mut Environment,
    interpreter: &mut Interpreter<H>,
) -> (r: Result<RuntimeVal, RuntimeError>)
    ensures
        final(interpreter).fuel <= old(interpreter).fuel,
        same_scopes(old(env)@, final(env)@),
        continues(final(interpreter).log@, old(interpreter).log@),
        forall|tape: Seq<Exchange>| #[trigger]
            continues(tape, final(interpreter).log@) ==> run_expr(
                if_else_expr@,
                old(env)@,
                old(interpreter).fuel as nat,
                tape,
                old(interpreter).log@.len(),
            ) == reached(
                r,
                final(env)@,
                final(interpreter).fuel,
                final(interpreter).log@,
            ),
    decreases old(interpreter).fuel, if_else_expr, 0nat,
{
    let ghost env0 = env@;
    let ghost fuel0 = interpreter.fuel as nat;
    let ghost log0 = interpreter.log@;
    proof {
        lemma_same_scopes_reflexive(env0);
        lemma_continues_itself(log0);
    }
    let condition = eval_expr(&if_else_expr.condition, env, interpreter);
    let ghost env1 = env@;
    let ghost log1 = interpreter.log@;
    let r = match condition {
        Ok(RuntimeVal::Bool(true)) => eval_block(&if_else_expr.if_branch, env, interpreter),
        Ok(RuntimeVal::Bool(false)) => match &if_else_expr.else_branch {
            Some(else_branch) => eval_block(else_branch, env, interpreter),
            None => Ok(RuntimeVal::Null),
        },
        Ok(_) => Err(RuntimeError::ConditionNotBool),
        Err(e) => Err(e),
    };
    proof {
        lemma_same_scopes_reflexive(env1);
        lemma_same_scopes_transitive(env0, env1, env@);
        lemma_continues_itself(log1);
        lemma_continues_transitive(interpreter.log@, log1, log0);
        assert forall|tape: Seq<Exchange>| #[trigger]
            continues(tape, interpreter.log@) implies
            run_expr(
                if_else_expr@,
                env0,
                fuel0,
                tape,
                log0.len(),
            )
            == reached(r, env@, interpreter.fuel, interpreter.log@) by {
            lemma_continues_transitive(tape, interpreter.log@, log1);
            run_expr_unfolds(if_else_expr@, env0, fuel0, tape, log0.len());
        }
    }
    r
}

} // verus!
