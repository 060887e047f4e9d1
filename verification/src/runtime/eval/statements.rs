//! The rules for statements.

use vstd::prelude::*;
use crate::error::RuntimeError;
use crate::frontend::ast::{
    clone_stmts, clone_strings, stmt_views, string_views, Block, ForLoop, FunctionDeclaration,
    Program, Stmt, VarDeclaration, WhileLoop,
};
use crate::runtime::environment::{
    clone_environment, declared, grown_scope, lemma_declared_grown_scope,
    lemma_grown_scope_reflexive, lemma_grown_scope_transitive, lemma_same_scopes_grown,
    lemma_same_scopes_reflexive, lemma_same_scopes_transitive, same_scopes, Environment,
    EnvironmentView,
};
use crate::runtime::host::{Host, Interpreter};
use crate::runtime::interpreter::{eval_expr, evaluate};
use crate::runtime::semantics::{
    closure, continues, lemma_continues_itself, lemma_continues_transitive, reached, run_block,
    run_block_unfolds, run_for, run_for_turns, run_for_turns_unfolds, run_for_unfolds, run_stmt,
    run_stmt_unfolds, run_stmts, run_stmts_unfolds, run_while, run_while_unfolds, Exchange,
};
use crate::runtime::values::{Function, RuntimeVal, ValueView};

verus! {

/// Evaluates statements in order, in the scopes as they are, and gives the
/// value of the last; `tyhjä` where there is none.
pub fn eval_statements<H: Host>(
    statements: &Vec<Stmt>,
    env: &mut Environment,
    interpreter: &mut Interpreter<H>,
) -> (r: Result<RuntimeVal, RuntimeError>)
    ensures
        final(interpreter).fuel <= old(interpreter).fuel,
        grown_scope(old(env)@, final(env)@),
        continues(final(interpreter).log@, old(interpreter).log@),
        forall|tape: Seq<Exchange>| #[trigger]
            continues(tape, final(interpreter).log@) ==> run_stmts(
                stmt_views(*statements),
                0,
                old(env)@,
                old(interpreter).fuel as nat,
                tape,
                old(interpreter).log@.len(),
                ValueView::Null,
            ) == reached(
                r,
                final(env)@,
                final(interpreter).fuel,
                final(interpreter).log@,
            ),
    decreases old(interpreter).fuel, statements, 0nat,
{
    let ghost env0 = env@;
    let ghost fuel0 = interpreter.fuel as nat;
    let ghost log0 = interpreter.log@;
    proof {
        lemma_same_scopes_reflexive(env0);
        lemma_grown_scope_reflexive(env0);
        lemma_continues_itself(log0);
    }
    let ghost views = stmt_views(*statements);
    let mut last = RuntimeVal::Null;
    let mut i: usize = 0;
    while i < statements.len()
        invariant
            i <= statements.len(),
            env0 == old(env)@,
            fuel0 == old(interpreter).fuel,
            log0 == old(interpreter).log@,
            views == stmt_views(*statements),
            interpreter.fuel <= old(interpreter).fuel,
            grown_scope(env0, env@),
            continues(interpreter.log@, log0),
            forall|tape: Seq<Exchange>| #[trigger]
                continues(tape, interpreter.log@) ==> run_stmts(
                    views,
                    0,
                    env0,
                    fuel0,
                    tape,
                    log0.len(),
                    ValueView::Null,
                ) == run_stmts(
                    views,
                    i as nat,
                    env@,
                    interpreter.fuel as nat,
                    tape,
                    interpreter.log@.len(),
                    last@,
                ),
        decreases statements.len() - i,
    {
        let ghost before = env@;
        let ghost fuel_before = interpreter.fuel as nat;
        let ghost log_before = interpreter.log@;
        let ghost held = last@;
        assert(views[i as int] == statements[i as int]@);
        let r = evaluate(&statements[i], env, interpreter);
        proof {
            lemma_grown_scope_transitive(env0, before, env@);
            lemma_continues_transitive(interpreter.log@, log_before, log0);
        }
        match r {
            Ok(value) => {
                last = value;
                proof {
                    assert forall|tape: Seq<Exchange>| #[trigger]
                        continues(tape, interpreter.log@) implies run_stmts(
                        views,
                        0,
                        env0,
                        fuel0,
                        tape,
                        log0.len(),
                        ValueView::Null,
                    ) == run_stmts(
                        views,
                        (i + 1) as nat,
                        env@,
                        interpreter.fuel as nat,
                        tape,
                        interpreter.log@.len(),
                        last@,
                    ) by {
                        lemma_continues_transitive(tape, interpreter.log@, log_before);
                        run_stmts_unfolds(
                            views,
                            i as nat,
                            before,
                            fuel_before,
                            tape,
                            log_before.len(),
                            held,
                        );
                    }
                }
            },
            Err(e) => {
                proof {
                    assert forall|tape: Seq<Exchange>| #[trigger]
                        continues(tape, interpreter.log@) implies
                        run_stmts(
                            views,
                            0,
                            env0,
                            fuel0,
                            tape,
                            log0.len(),
                            ValueView::Null,
                        )
                        == reached(
                            Err::<RuntimeVal, RuntimeError>(e),
                            env@,
                            interpreter.fuel,
                            interpreter.log@,
                        ) by {
                        lemma_continues_transitive(tape, interpreter.log@, log_before);
                        run_stmts_unfolds(
                            views,
                            i as nat,
                            before,
                            fuel_before,
                            tape,
                            log_before.len(),
                            held,
                        );
                    }
                }
                return Err(e);
            },
        }
        i += 1;
    }
    proof {
        assert forall|tape: Seq<Exchange>| #[trigger]
            continues(tape, interpreter.log@) implies
            run_stmts(
                views,
                0,
                env0,
                fuel0,
                tape,
                log0.len(),
                ValueView::Null,
            )
            == reached(
                Ok::<RuntimeVal, RuntimeError>(last),
                env@,
                interpreter.fuel,
                interpreter.log@,
            ) by {
            run_stmts_unfolds(
                views,
                i as nat,
                env@,
                interpreter.fuel as nat,
                tape,
                interpreter.log@.len(),
                last@,
            );
        }
    }
    Ok(last)
}

/// Evaluates the statements of a program in order and gives the value of
/// the last.
pub fn eval_program<H: Host>(
    program: &Program,
    env: &mut Environment,
    interpreter: &mut Interpreter<H>,
) -> (r: Result<RuntimeVal, RuntimeError>)
    ensures
        final(interpreter).fuel <= old(interpreter).fuel,
        grown_scope(old(env)@, final(env)@),
        continues(final(interpreter).log@, old(interpreter).log@),
        forall|tape: Seq<Exchange>| #[trigger]
            continues(tape, final(interpreter).log@) ==> run_stmt(
                program@,
                old(env)@,
                old(interpreter).fuel as nat,
                tape,
                old(interpreter).log@.len(),
            ) == reached(
                r,
                final(env)@,
                final(interpreter).fuel,
                final(interpreter).log@,
            ),
    decreases old(interpreter).fuel, program, 0nat,
{
    let ghost env0 = env@;
    let ghost fuel0 = interpreter.fuel as nat;
    let ghost log0 = interpreter.log@;
    proof {
        lemma_same_scopes_reflexive(env0);
        lemma_grown_scope_reflexive(env0);
        lemma_continues_itself(log0);
    }
    let r = eval_statements(&program.body, env, interpreter);
    proof {
        assert forall|tape: Seq<Exchange>| #[trigger]
            continues(tape, interpreter.log@) implies
            run_stmt(
                program@,
                env0,
                fuel0,
                tape,
                log0.len(),
            )
            == reached(r, env@, interpreter.fuel, interpreter.log@) by {
            run_stmt_unfolds(program@, env0, fuel0, tape, log0.len());
        }
    }
    r
}

/// Evaluates the statements of a block in a fresh frame, which it leaves
/// again however the block ends.
pub fn eval_block<H: Host>(
    block: &Block,
    env: &mut Environment,
    interpreter: &mut Interpreter<H>,
) -> (r: Result<RuntimeVal, RuntimeError>)
    ensures
        final(interpreter).fuel <= old(interpreter).fuel,
        same_scopes(old(env)@, final(env)@),
        continues(final(interpreter).log@, old(interpreter).log@),
        forall|tape: Seq<Exchange>| #[trigger]
            continues(tape, final(interpreter).log@) ==> run_block(
                block@,
                old(env)@,
                old(interpreter).fuel as nat,
                tape,
                old(interpreter).log@.len(),
            ) == reached(
                r,
                final(env)@,
                final(interpreter).fuel,
                final(interpreter).log@,
            ),
    decreases old(interpreter).fuel, block, 0nat,
{
    let ghost env0 = env@;
    let ghost fuel0 = interpreter.fuel as nat;
    let ghost log0 = interpreter.log@;
    proof {
        lemma_same_scopes_reflexive(env0);
        lemma_grown_scope_reflexive(env0);
        lemma_continues_itself(log0);
    }
    env.push_scope();
    let r = eval_statements(&block.statements, env, interpreter);
    env.pop_scope();
    proof {
        assert forall|tape: Seq<Exchange>| #[trigger]
            continues(tape, interpreter.log@) implies
            run_block(
                block@,
                env0,
                fuel0,
                tape,
                log0.len(),
            )
            == reached(r, env@, interpreter.fuel, interpreter.log@) by {
            run_block_unfolds(block@, env0, fuel0, tape, log0.len());
        }
    }
    r
}

/// Declares a variable or constant in the innermost frame, with the value
/// of its initializer, or `tyhjä` where it has none. Gives `tyhjä`.
pub fn eval_var_declaration<H: Host>(
    var_declaration: &VarDeclaration,
    env: &mut Environment,
    interpreter: &mut Interpreter<H>,
) -> (r: Result<RuntimeVal, RuntimeError>)
    ensures
        final(interpreter).fuel <= old(interpreter).fuel,
        grown_scope(old(env)@, final(env)@),
        continues(final(interpreter).log@, old(interpreter).log@),
        forall|tape: Seq<Exchange>| #[trigger]
            continues(tape, final(interpreter).log@) ==> run_stmt(
                var_declaration@,
                old(env)@,
                old(interpreter).fuel as nat,
                tape,
                old(interpreter).log@.len(),
            ) == reached(
                r,
                final(env)@,
                final(interpreter).fuel,
                final(interpreter).log@,
            ),
    decreases old(interpreter).fuel, var_declaration, 0nat,
{
    let ghost env0 = env@;
    let ghost fuel0 = interpreter.fuel as nat;
    let ghost log0 = interpreter.log@;
    proof {
        lemma_same_scopes_reflexive(env0);
        lemma_grown_scope_reflexive(env0);
        lemma_continues_itself(log0);
    }
    let value = match &var_declaration.value {
        Some(expr) => eval_expr(expr, env, interpreter),
        None => Ok(RuntimeVal::Null),
    };
    let ghost middle = env@;
    let r = match value {
        Ok(value) => {
            let ghost held = value@;
            let declared = env.declare_var(
                var_declaration.identifier.symbol.clone(),
                value,
                var_declaration.constant,
            );
            proof {
                if declared is Ok {
                    lemma_declared_grown_scope(
                        middle,
                        var_declaration.identifier.symbol@,
                        held,
                        var_declaration.constant,
                    );
                } else {
                    lemma_grown_scope_reflexive(middle);
                }
            }
            match declared {
                Ok(_) => Ok(RuntimeVal::Null),
                Err(e) => Err(e),
            }
        },
        Err(e) => {
            proof {
                lemma_grown_scope_reflexive(middle);
            }
            Err(e)
        },
    };
    proof {
        lemma_same_scopes_grown(env0, middle);
        lemma_grown_scope_transitive(env0, middle, env@);
        assert forall|tape: Seq<Exchange>| #[trigger]
            continues(tape, interpreter.log@) implies
            run_stmt(
                var_declaration@,
                env0,
                fuel0,
                tape,
                log0.len(),
            )
            == reached(r, env@, interpreter.fuel, interpreter.log@) by {
            run_stmt_unfolds(var_declaration@, env0, fuel0, tape, log0.len());
        }
    }
    r
}

/// Declaring a function keeps the shape of the scopes but for its name.
pub proof fn lemma_function_declared(env: EnvironmentView, declaration: FunctionDeclaration)
    ensures
        match declared(
            env,
            declaration.name@,
            closure(string_views(declaration.parameters@), stmt_views(declaration.body), env),
            true,
        ) {
            Ok(after) => grown_scope(env, after),
            Err(_) => grown_scope(env, env),
        },
{
    let value = closure(string_views(declaration.parameters@), stmt_views(declaration.body), env);
    lemma_grown_scope_reflexive(env);
    if declared(env, declaration.name@, value, true) is Ok {
        lemma_declared_grown_scope(env, declaration.name@, value, true);
    }
}

/// Declares a function as a constant of the innermost frame. Its value
/// holds a copy of the scopes as they are before the declaration, so the
/// function does not see itself. Gives `tyhjä`.
pub fn eval_function_declaration(declaration: &FunctionDeclaration, env: &mut Environment) -> (r:
    Result<RuntimeVal, RuntimeError>)
    ensures
        match r {
            Ok(value) => value@ == ValueView::Null && declared(
                old(env)@,
                declaration.name@,
                closure(
                    string_views(declaration.parameters@),
                    stmt_views(declaration.body),
                    old(env)@,
                ),
                true,
            ) == Ok::<EnvironmentView, RuntimeError>(final(env)@),
            Err(e) => declared(
                old(env)@,
                declaration.name@,
                closure(
                    string_views(declaration.parameters@),
                    stmt_views(declaration.body),
                    old(env)@,
                ),
                true,
            ) == Err::<EnvironmentView, RuntimeError>(e) && final(env)@ == old(env)@,
        },
{
    let function = Function {
        parameters: clone_strings(&declaration.parameters),
        declaration_env: Box::new(clone_environment(env)),
        body: clone_stmts(&declaration.body),
    };
    let function_val = RuntimeVal::Function(function);
    match env.declare_var(declaration.name.clone(), function_val, true) {
        Ok(_) => Ok(RuntimeVal::Null),
        Err(e) => Err(e),
    }
}

/// Runs `kun condition { body }`: as long as the condition counts as true,
/// evaluates the body, each time in a fresh frame. Gives the value of the
/// last turn, `tyhjä` where there was none. Each turn takes one step.
pub fn eval_while_loop<H: Host>(
    while_loop: &WhileLoop,
    env: &mut Environment,
    interpreter: &mut Interpreter<H>,
) -> (r: Result<RuntimeVal, RuntimeError>)
    ensures
        final(interpreter).fuel <= old(interpreter).fuel,
        same_scopes(old(env)@, final(env)@),
        continues(final(interpreter).log@, old(interpreter).log@),
        forall|tape: Seq<Exchange>| #[trigger]
            continues(tape, final(interpreter).log@) ==> run_stmt(
                while_loop@,
                old(env)@,
                old(interpreter).fuel as nat,
                tape,
                old(interpreter).log@.len(),
            ) == reached(
                r,
                final(env)@,
                final(interpreter).fuel,
                final(interpreter).log@,
            ),
    decreases old(interpreter).fuel, while_loop, 0nat,
{
    let ghost env0 = env@;
    let ghost fuel0 = interpreter.fuel as nat;
    let ghost log0 = interpreter.log@;
    proof {
        lemma_same_scopes_reflexive(env0);
        lemma_grown_scope_reflexive(env0);
        lemma_continues_itself(log0);
    }
    let ghost w = while_loop@;
    let mut result = RuntimeVal::Null;
    loop
        invariant
            env0 == old(env)@,
            fuel0 == old(interpreter).fuel,
            log0 == old(interpreter).log@,
            w == while_loop@,
            interpreter.fuel <= old(interpreter).fuel,
            same_scopes(env0, env@),
            continues(interpreter.log@, log0),
            forall|tape: Seq<Exchange>| #[trigger]
                continues(tape, interpreter.log@) ==> run_while(
                    w,
                    env0,
                    fuel0,
                    tape,
                    log0.len(),
                    ValueView::Null,
                ) == run_while(
                    w,
                    env@,
                    interpreter.fuel as nat,
                    tape,
                    interpreter.log@.len(),
                    result@,
                ),
        decreases interpreter.fuel,
    {
        let ghost before = env@;
        let ghost fuel_before = interpreter.fuel as nat;
        let ghost log_before = interpreter.log@;
        let ghost held = result@;
        let condition = eval_expr(&while_loop.condition, env, interpreter);
        let ghost env1 = env@;
        let ghost log1 = interpreter.log@;
        proof {
            lemma_same_scopes_transitive(env0, before, env@);
            lemma_continues_transitive(interpreter.log@, log_before, log0);
        }
        let condition = match condition {
            Ok(value) => value,
            Err(e) => {
                proof {
                    assert forall|tape: Seq<Exchange>| #[trigger]
                        continues(tape, interpreter.log@) implies
                        run_stmt(
                            w,
                            env0,
                            fuel0,
                            tape,
                            log0.len(),
                        )
                        == reached(
                            Err::<RuntimeVal, RuntimeError>(e),
                            env@,
                            interpreter.fuel,
                            interpreter.log@,
                        ) by {
                        lemma_continues_transitive(tape, log1, log_before);
                        run_stmt_unfolds(w, env0, fuel0, tape, log0.len());
                        run_while_unfolds(w, before, fuel_before, tape, log_before.len(), held);
                    }
                }
                return Err(e);
            },
        };
        if !condition.is_truthy() {
            proof {
                assert forall|tape: Seq<Exchange>| #[trigger]
                    continues(tape, interpreter.log@) implies
                    run_stmt(
                        w,
                        env0,
                        fuel0,
                        tape,
                        log0.len(),
                    )
                    == reached(
                        Ok::<RuntimeVal, RuntimeError>(result),
                        env@,
                        interpreter.fuel,
                        interpreter.log@,
                    ) by {
                    lemma_continues_transitive(tape, log1, log_before);
                    run_stmt_unfolds(w, env0, fuel0, tape, log0.len());
                    run_while_unfolds(w, before, fuel_before, tape, log_before.len(), held);
                }
            }
            return Ok(result);
        }
        match interpreter.step() {
            Ok(_) => {},
            Err(e) => {
                proof {
                    assert forall|tape: Seq<Exchange>| #[trigger]
                        continues(tape, interpreter.log@) implies
                        run_stmt(
                            w,
                            env0,
                            fuel0,
                            tape,
                            log0.len(),
                        )
                        == reached(
                            Err::<RuntimeVal, RuntimeError>(e),
                            env@,
                            interpreter.fuel,
                            interpreter.log@,
                        ) by {
                        lemma_continues_transitive(tape, log1, log_before);
                        run_stmt_unfolds(w, env0, fuel0, tape, log0.len());
                        run_while_unfolds(w, before, fuel_before, tape, log_before.len(), held);
                    }
                }
                return Err(e);
            },
        }
        let turn = eval_block(&while_loop.body, env, interpreter);
        proof {
            lemma_same_scopes_transitive(env0, env1, env@);
            lemma_continues_transitive(interpreter.log@, log1, log0);
        }
        match turn {
            Ok(value) => {
                result = value;
                proof {
                    assert forall|tape: Seq<Exchange>| #[trigger]
                        continues(tape, interpreter.log@) implies run_while(
                        w,
                        env0,
                        fuel0,
                        tape,
                        log0.len(),
                        ValueView::Null,
                    ) == run_while(
                        w,
                        env@,
                        interpreter.fuel as nat,
                        tape,
                        interpreter.log@.len(),
                        result@,
                    ) by {
                        lemma_continues_transitive(tape, interpreter.log@, log1);
                        lemma_continues_transitive(tape, log1, log_before);
                        run_while_unfolds(w, before, fuel_before, tape, log_before.len(), held);
                    }
                }
            },
            Err(e) => {
                proof {
                    assert forall|tape: Seq<Exchange>| #[trigger]
                        continues(tape, interpreter.log@) implies
                        run_stmt(
                            w,
                            env0,
                            fuel0,
                            tape,
                            log0.len(),
                        )
                        == reached(
                            Err::<RuntimeVal, RuntimeError>(e),
                            env@,
                            interpreter.fuel,
                            interpreter.log@,
                        ) by {
                        lemma_continues_transitive(tape, interpreter.log@, log1);
                        lemma_continues_transitive(tape, log1, log_before);
                        run_stmt_unfolds(w, env0, fuel0, tape, log0.len());
                        run_while_unfolds(w, before, fuel_before, tape, log_before.len(), held);
                    }
                }
                return Err(e);
            },
        }
    }
}

/// Runs `toista (name = start; condition; increment) { body }` in a frame
/// of its own: declares `name` there, then, as long as the condition
/// counts as true, evaluates the body in a fresh frame and, behind it, the
/// increment. Gives `tyhjä`. Each turn takes one step.
pub fn eval_for_loop<H: Host>(
    for_loop: &ForLoop,
    env: &mut Environment,
    interpreter: &mut Interpreter<H>,
) -> (r: Result<RuntimeVal, RuntimeError>)
    ensures
        final(interpreter).fuel <= old(interpreter).fuel,
        same_scopes(old(env)@, final(env)@),
        continues(final(interpreter).log@, old(interpreter).log@),
        forall|tape: Seq<Exchange>| #[trigger]
            continues(tape, final(interpreter).log@) ==> run_stmt(
                for_loop@,
                old(env)@,
                old(interpreter).fuel as nat,
                tape,
                old(interpreter).log@.len(),
            ) == reached(
                r,
                final(env)@,
                final(interpreter).fuel,
                final(interpreter).log@,
            ),
    decreases old(interpreter).fuel, for_loop, 1nat,
{
    let ghost env0 = env@;
    let ghost fuel0 = interpreter.fuel as nat;
    let ghost log0 = interpreter.log@;
    proof {
        lemma_same_scopes_reflexive(env0);
        lemma_grown_scope_reflexive(env0);
        lemma_continues_itself(log0);
    }
    env.push_scope();
    let r = run_for_loop(for_loop, env, interpreter);
    env.pop_scope();
    proof {
        assert forall|tape: Seq<Exchange>| #[trigger]
            continues(tape, interpreter.log@) implies
            run_stmt(
                for_loop@,
                env0,
                fuel0,
                tape,
                log0.len(),
            )
            == reached(r, env@, interpreter.fuel, interpreter.log@) by {
            run_stmt_unfolds(for_loop@, env0, fuel0, tape, log0.len());
        }
    }
    r
}

/// The declaration and the turns of a `toista` loop, in the frame that
/// [`eval_for_loop`] has opened for it.
pub fn run_for_loop<H: Host>(
    for_loop: &ForLoop,
    env: &mut Environment,
    interpreter: &mut Interpreter<H>,
) -> (r: Result<RuntimeVal, RuntimeError>)
    ensures
        final(interpreter).fuel <= old(interpreter).fuel,
        grown_scope(old(env)@, final(env)@),
        continues(final(interpreter).log@, old(interpreter).log@),
        forall|tape: Seq<Exchange>| #[trigger]
            continues(tape, final(interpreter).log@) ==> run_for(
                for_loop@,
                old(env)@,
                old(interpreter).fuel as nat,
                tape,
                old(interpreter).log@.len(),
            ) == reached(
                r,
                final(env)@,
                final(interpreter).fuel,
                final(interpreter).log@,
            ),
    decreases old(interpreter).fuel, for_loop, 0nat,
{
    let ghost env0 = env@;
    let ghost fuel0 = interpreter.fuel as nat;
    let ghost log0 = interpreter.log@;
    proof {
        lemma_same_scopes_reflexive(env0);
        lemma_grown_scope_reflexive(env0);
        lemma_continues_itself(log0);
    }
    let ghost w = for_loop@;
    let started = evaluate(&for_loop.initializer, env, interpreter);
    let ghost env_s = env@;
    let ghost fuel_s = interpreter.fuel as nat;
    let ghost log_s = interpreter.log@;
    match started {
        Ok(_) => {},
        Err(e) => {
            proof {
                assert forall|tape: Seq<Exchange>| #[trigger]
                    continues(tape, interpreter.log@) implies
                    run_for(
                        w,
                        env0,
                        fuel0,
                        tape,
                        log0.len(),
                    )
                    == reached(
                        Err::<RuntimeVal, RuntimeError>(e),
                        env@,
                        interpreter.fuel,
                        interpreter.log@,
                    ) by {
                    run_for_unfolds(w, env0, fuel0, tape, log0.len());
                }
            }
            return Err(e);
        },
    }
    proof {
        assert forall|tape: Seq<Exchange>| #[trigger]
            continues(tape, interpreter.log@) implies run_for(w, env0, fuel0, tape, log0.len())
            == run_for_turns(w, env@, interpreter.fuel as nat, tape, interpreter.log@.len()) by {
            run_for_unfolds(w, env0, fuel0, tape, log0.len());
        }
    }
    loop
        invariant
            env0 == old(env)@,
            fuel0 == old(interpreter).fuel,
            log0 == old(interpreter).log@,
            w == for_loop@,
            interpreter.fuel <= old(interpreter).fuel,
            grown_scope(env0, env@),
            continues(interpreter.log@, log0),
            forall|tape: Seq<Exchange>| #[trigger]
                continues(tape, interpreter.log@) ==> run_for(w, env0, fuel0, tape, log0.len())
                    == run_for_turns(
                    w,
                    env@,
                    interpreter.fuel as nat,
                    tape,
                    interpreter.log@.len(),
                ),
        decreases interpreter.fuel,
    {
        let ghost before = env@;
        let ghost fuel_before = interpreter.fuel as nat;
        let ghost log_before = interpreter.log@;
        let condition = eval_expr(&for_loop.condition, env, interpreter);
        let ghost env1 = env@;
        let ghost log1 = interpreter.log@;
        proof {
            lemma_same_scopes_grown(before, env@);
            lemma_grown_scope_transitive(env0, before, env@);
            lemma_continues_transitive(interpreter.log@, log_before, log0);
        }
        let condition = match condition {
            Ok(value) => value,
            Err(e) => {
                proof {
                    assert forall|tape: Seq<Exchange>| #[trigger]
                        continues(tape, interpreter.log@) implies
                        run_for(
                            w,
                            env0,
                            fuel0,
                            tape,
                            log0.len(),
                        )
                        == reached(
                            Err::<RuntimeVal, RuntimeError>(e),
                            env@,
                            interpreter.fuel,
                            interpreter.log@,
                        ) by {
                        lemma_continues_transitive(tape, log1, log_before);
                        run_for_turns_unfolds(w, before, fuel_before, tape, log_before.len());
                    }
                }
                return Err(e);
            },
        };
        if !condition.is_truthy() {
            proof {
                assert forall|tape: Seq<Exchange>| #[trigger]
                    continues(tape, interpreter.log@) implies
                    run_for(
                        w,
                        env0,
                        fuel0,
                        tape,
                        log0.len(),
                    )
                    == reached(
                        Ok::<RuntimeVal, RuntimeError>(RuntimeVal::Null),
                        env@,
                        interpreter.fuel,
                        interpreter.log@,
                    ) by {
                    lemma_continues_transitive(tape, log1, log_before);
                    run_for_turns_unfolds(w, before, fuel_before, tape, log_before.len());
                }
            }
            return Ok(RuntimeVal::Null);
        }
        match interpreter.step() {
            Ok(_) => {},
            Err(e) => {
                proof {
                    assert forall|tape: Seq<Exchange>| #[trigger]
                        continues(tape, interpreter.log@) implies
                        run_for(
                            w,
                            env0,
                            fuel0,
                            tape,
                            log0.len(),
                        )
                        == reached(
                            Err::<RuntimeVal, RuntimeError>(e),
                            env@,
                            interpreter.fuel,
                            interpreter.log@,
                        ) by {
                        lemma_continues_transitive(tape, log1, log_before);
                        run_for_turns_unfolds(w, before, fuel_before, tape, log_before.len());
                    }
                }
                return Err(e);
            },
        }
        let turn = eval_block(&for_loop.body, env, interpreter);
        let ghost env2 = env@;
        let ghost log2 = interpreter.log@;
        proof {
            lemma_same_scopes_grown(env1, env@);
            lemma_grown_scope_transitive(env0, env1, env@);
            lemma_continues_transitive(interpreter.log@, log1, log0);
        }
        match turn {
            Ok(_) => {},
            Err(e) => {
                proof {
                    assert forall|tape: Seq<Exchange>| #[trigger]
                        continues(tape, interpreter.log@) implies
                        run_for(
                            w,
                            env0,
                            fuel0,
                            tape,
                            log0.len(),
                        )
                        == reached(
                            Err::<RuntimeVal, RuntimeError>(e),
                            env@,
                            interpreter.fuel,
                            interpreter.log@,
                        ) by {
                        lemma_continues_transitive(tape, log2, log1);
                        lemma_continues_transitive(tape, log1, log_before);
                        run_for_turns_unfolds(w, before, fuel_before, tape, log_before.len());
                    }
                }
                return Err(e);
            },
        }
        let increment = eval_expr(&for_loop.increment, env, interpreter);
        proof {
            lemma_same_scopes_grown(env2, env@);
            lemma_grown_scope_transitive(env0, env2, env@);
            lemma_continues_transitive(interpreter.log@, log2, log0);
        }
        match increment {
            Ok(_) => {
                proof {
                    assert forall|tape: Seq<Exchange>| #[trigger]
                        continues(tape, interpreter.log@) implies run_for(
                        w,
                        env0,
                        fuel0,
                        tape,
                        log0.len(),
                    ) == run_for_turns(
                        w,
                        env@,
                        interpreter.fuel as nat,
                        tape,
                        interpreter.log@.len(),
                    ) by {
                        lemma_continues_transitive(tape, interpreter.log@, log2);
                        lemma_continues_transitive(tape, log2, log1);
                        lemma_continues_transitive(tape, log1, log_before);
                        run_for_turns_unfolds(w, before, fuel_before, tape, log_before.len());
                    }
                }
            },
            Err(e) => {
                proof {
                    assert forall|tape: Seq<Exchange>| #[trigger]
                        continues(tape, interpreter.log@) implies
                        run_for(
                            w,
                            env0,
                            fuel0,
                            tape,
                            log0.len(),
                        )
                        == reached(
                            Err::<RuntimeVal, RuntimeError>(e),
                            env@,
                            interpreter.fuel,
                            interpreter.log@,
                        ) by {
                        lemma_continues_transitive(tape, interpreter.log@, log2);
                        lemma_continues_transitive(tape, log2, log1);
                        lemma_continues_transitive(tape, log1, log_before);
                        run_for_turns_unfolds(w, before, fuel_before, tape, log_before.len());
                    }
                }
                return Err(e);
            },
        }
    }
}

} // verus!
