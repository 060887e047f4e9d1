//! The evaluator's two entry points: one for statements, one for
//! expressions.
//!
//! Both give the result that the semantics assigns: for every tape that
//! starts with what the host was asked and answered, the run that the
//! semantics reads from it is the one that took place, with its value or
//! error, the scopes that it left, the steps that it left, and the tape
//! read up to the end of the log.

use vstd::prelude::*;
use crate::error::{Error, RuntimeError};
use crate::frontend::ast::{Expr, Stmt, StmtView};
use crate::frontend::parser::{parse, parsed};
use crate::runtime::environment::{
    grown_scope, lemma_grown_scope_reflexive, lemma_same_scopes_grown, lemma_same_scopes_reflexive,
    same_scopes, Environment,
};
use crate::runtime::eval::expressions::{
    eval_array_expr, eval_assignment, eval_binary_expr, eval_call_expr, eval_identifier,
    eval_if_else_expr, eval_member_expr, eval_number_literal, eval_object_expr,
    eval_string_literal, eval_unary_expr,
};
use crate::runtime::eval::statements::{
    eval_for_loop, eval_function_declaration, eval_program, eval_var_declaration, eval_while_loop,
    lemma_function_declared,
};
use crate::runtime::host::{Host, Interpreter};
use crate::runtime::semantics::{
    continues, finish, lemma_continues_itself, lemma_continues_pushed, lemma_continues_reads, reached,
    run_expr, run_expr_unfolds, run_stmt, run_stmt_unfolds, Exchange,
};
use crate::runtime::values::{RuntimeVal, ValueView};

verus! {

/// Evaluates a statement in the scopes `env`. A declaration gives `tyhjä`,
/// a program the value of its last statement, a loop or an expression its
/// own value.
///
/// The result is the meaning of the statement, [`run_stmt`], given what the
/// host answered. Whatever that was and however the run ends, the scopes
/// keep their shape: every frame around the innermost has the names and
/// constants that it had, and the innermost has those and, behind them, the
/// names that the statement declared in it. No step is given back.
pub fn evaluate<H: Host>(
    ast_node: &Stmt,
    env: &mut Environment,
    interpreter: &mut Interpreter<H>,
) -> (r: Result<RuntimeVal, RuntimeError>)
    ensures
        final(interpreter).fuel <= old(interpreter).fuel,
        grown_scope(old(env)@, final(env)@),
        continues(final(interpreter).log@, old(interpreter).log@),
        forall|tape: Seq<Exchange>| #[trigger]
            continues(tape, final(interpreter).log@) ==> run_stmt(
                ast_node@,
                old(env)@,
                old(interpreter).fuel as nat,
                tape,
                old(interpreter).log@.len(),
            ) == reached(
                r,
                final(env)@,
                final(interpreter).fuel,
                final(interpreter).log@,
            ),
    decreases old(interpreter).fuel, ast_node, 2nat,
{
    let ghost env0 = env@;
    let ghost fuel0 = interpreter.fuel as nat;
    let ghost log0 = interpreter.log@;
    proof {
        lemma_same_scopes_reflexive(env0);
        lemma_grown_scope_reflexive(env0);
        lemma_continues_itself(log0);
    }
    match ast_node {
        Stmt::VarDeclaration(var_declaration) => eval_var_declaration(
            var_declaration,
            env,
            interpreter,
        ),
        Stmt::FunctionDeclaration(function_declaration) => {
            let r = eval_function_declaration(function_declaration, env);
            proof {
                lemma_function_declared(env0, *function_declaration);
                assert forall|tape: Seq<Exchange>| #[trigger]
                    continues(tape, interpreter.log@) implies
                    run_stmt(
                        ast_node@,
                        env0,
                        fuel0,
                        tape,
                        log0.len(),
                    )
                    == reached(r, env@, interpreter.fuel, interpreter.log@) by {
                    run_stmt_unfolds(ast_node@, env0, fuel0, tape, log0.len());
                }
            }
            r
        },
        Stmt::WhileLoop(while_loop) => {
            let r = eval_while_loop(while_loop, env, interpreter);
            proof {
                lemma_same_scopes_grown(env0, env@);
            }
            r
        },
        Stmt::ForLoop(for_loop) => {
            let r = eval_for_loop(for_loop, env, interpreter);
            proof {
                lemma_same_scopes_grown(env0, env@);
            }
            r
        },
        Stmt::Expr(expr) => {
            let r = eval_expr(expr, env, interpreter);
            proof {
                lemma_same_scopes_grown(env0, env@);
                assert forall|tape: Seq<Exchange>| #[trigger]
                    continues(tape, interpreter.log@) implies
                    run_stmt(
                        ast_node@,
                        env0,
                        fuel0,
                        tape,
                        log0.len(),
                    )
                    == reached(r, env@, interpreter.fuel, interpreter.log@) by {
                    run_stmt_unfolds(ast_node@, env0, fuel0, tape, log0.len());
                }
            }
            r
        },
        Stmt::Program(program) => eval_program(program, env, interpreter),
    }
}

/// Evaluates an expression in the scopes `env`.
///
/// The result is the meaning of the expression, [`run_expr`], given what
/// the host answered. Whatever that was and however the run ends, every
/// frame of the scopes has the names and constants that it had: an
/// expression declares nothing where it stands, and what its blocks declare
/// is gone with them. No step is given back.
pub fn eval_expr<H: Host>(
    expr: &Expr,
    env: &mut Environment,
    interpreter: &mut Interpreter<H>,
) -> (r: Result<RuntimeVal, RuntimeError>)
    ensures
        final(interpreter).fuel <= old(interpreter).fuel,
        same_scopes(old(env)@, final(env)@),
        continues(final(interpreter).log@, old(interpreter).log@),
        forall|tape: Seq<Exchange>| #[trigger]
            continues(tape, final(interpreter).log@) ==> run_expr(
                expr@,
                old(env)@,
                old(interpreter).fuel as nat,
                tape,
                old(interpreter).log@.len(),
            ) == reached(
                r,
                final(env)@,
                final(interpreter).fuel,
                final(interpreter).log@,
            ),
    decreases old(interpreter).fuel, expr, 2nat,
{
    let ghost env0 = env@;
    let ghost fuel0 = interpreter.fuel as nat;
    let ghost log0 = interpreter.log@;
    proof {
        lemma_same_scopes_reflexive(env0);
        lemma_grown_scope_reflexive(env0);
        lemma_continues_itself(log0);
    }
    match expr {
        Expr::NumericLiteral(numeric_literal) => {
            let r = eval_number_literal(numeric_literal.value.as_str(), interpreter);
            proof {
                lemma_continues_pushed(log0, interpreter.log@.last());
                assert forall|tape: Seq<Exchange>| #[trigger]
                    continues(tape, interpreter.log@) implies
                    run_expr(
                        expr@,
                        env0,
                        fuel0,
                        tape,
                        log0.len(),
                    )
                    == reached(r, env@, interpreter.fuel, interpreter.log@) by {
                    lemma_continues_reads(tape, log0, interpreter.log@.last());
                    run_expr_unfolds(expr@, env0, fuel0, tape, log0.len());
                }
            }
            r
        },
        Expr::FloatLiteral(float_literal) => {
            let r = eval_number_literal(float_literal.value.as_str(), interpreter);
            proof {
                lemma_continues_pushed(log0, interpreter.log@.last());
                assert forall|tape: Seq<Exchange>| #[trigger]
                    continues(tape, interpreter.log@) implies
                    run_expr(
                        expr@,
                        env0,
                        fuel0,
                        tape,
                        log0.len(),
                    )
                    == reached(r, env@, interpreter.fuel, interpreter.log@) by {
                    lemma_continues_reads(tape, log0, interpreter.log@.last());
                    run_expr_unfolds(expr@, env0, fuel0, tape, log0.len());
                }
            }
            r
        },
        Expr::StringLiteral(string_literal) => {
            let r = Ok(eval_string_literal(string_literal, env));
            proof {
                assert forall|tape: Seq<Exchange>| #[trigger]
                    continues(tape, interpreter.log@) implies
                    run_expr(
                        expr@,
                        env0,
                        fuel0,
                        tape,
                        log0.len(),
                    )
                    == reached(r, env@, interpreter.fuel, interpreter.log@) by {
                    run_expr_unfolds(expr@, env0, fuel0, tape, log0.len());
                }
            }
            r
        },
        Expr::Identifier(identifier) => {
            let r = eval_identifier(identifier, env);
            proof {
                assert forall|tape: Seq<Exchange>| #[trigger]
                    continues(tape, interpreter.log@) implies
                    run_expr(
                        expr@,
                        env0,
                        fuel0,
                        tape,
                        log0.len(),
                    )
                    == reached(r, env@, interpreter.fuel, interpreter.log@) by {
                    run_expr_unfolds(expr@, env0, fuel0, tape, log0.len());
                }
            }
            r
        },
        Expr::ObjectLiteral(object_literal) => eval_object_expr(object_literal, env, interpreter),
        Expr::ArrayLiteral(array_literal) => eval_array_expr(array_literal, env, interpreter),
        Expr::CallExpr(call_expr) => eval_call_expr(call_expr, env, interpreter),
        Expr::AssignmentExpr(assignment_expr) => eval_assignment(assignment_expr, env, interpreter),
        Expr::BinaryExpr(binary_expr) => eval_binary_expr(binary_expr, env, interpreter),
        Expr::MemberExpr(member_expr) => eval_member_expr(member_expr, env, interpreter),
        Expr::UnaryExpr(unary_expr) => eval_unary_expr(unary_expr, env, interpreter),
        Expr::IfElseExpr(if_else_expr) => eval_if_else_expr(if_else_expr, env, interpreter),
    }
}


/// What came of running a source text, as the contracts see it.
pub open spec fn run_outcome(r: Result<RuntimeVal, Error>) -> Result<ValueView, RuntimeError> {
    match r {
        Ok(value) => Ok(value@),
        Err(Error::Runtime(e)) => Err(e),
        Err(Error::Parse(_)) => arbitrary(),
    }
}

/// Tokenizes, parses and evaluates a source text in the scopes `env`.
///
/// A text that is no program gives the lexical or syntactic error, and
/// changes nothing. The program of any other text is evaluated as
/// [`evaluate`] says, and gives its value or its error.
pub fn run<H: Host>(source: &str, env: &mut Environment, interpreter: &mut Interpreter<H>) -> (r:
    Result<RuntimeVal, Error>)
    ensures
        final(interpreter).fuel <= old(interpreter).fuel,
        grown_scope(old(env)@, final(env)@),
        continues(final(interpreter).log@, old(interpreter).log@),
        match parsed(source@) {
            Err(e) => r == Err::<RuntimeVal, Error>(Error::Parse(e)) && final(env)@ == old(env)@
                && final(interpreter).fuel == old(interpreter).fuel && final(interpreter).log@
                == old(interpreter).log@,
            Ok(body) => !(r matches Err(Error::Parse(_))) && forall|tape: Seq<Exchange>| #[trigger]
                continues(tape, final(interpreter).log@) ==> run_stmt(
                    StmtView::Program { body },
                    old(env)@,
                    old(interpreter).fuel as nat,
                    tape,
                    old(interpreter).log@.len(),
                ) == finish(
                    run_outcome(r),
                    final(env)@,
                    final(interpreter).fuel as nat,
                    final(interpreter).log@.len(),
                ),
        },
{
    proof {
        lemma_grown_scope_reflexive(env@);
        lemma_continues_itself(interpreter.log@);
    }
    match parse(source) {
        Err(e) => Err(Error::Parse(e)),
        Ok(program) => {
            let statement = Stmt::Program(program);
            match evaluate(&statement, env, interpreter) {
                Ok(value) => Ok(value),
                Err(e) => Err(Error::Runtime(e)),
            }
        },
    }
}

} // verus!
