//! What is evaluated, and what is not.

use vstd::prelude::*;
use crate::frontend::ast::{BinaryOperator, ExprView, StmtView};
use crate::runtime::budget::{lemma_expr_within, lemma_stmt_within};
use crate::runtime::environment::EnvironmentView;
use crate::runtime::semantics::{
    apply, run_expr, run_expr_unfolds, run_stmt, run_stmts, run_stmts_unfolds, Exchange,
};
use crate::runtime::values::ValueView;

verus! {

/// Both operands of a binary expression are evaluated, whatever the
/// operator is and whatever the left operand gave: where the left operand
/// gives a value, the run goes on with the right operand in the scopes that
/// the left one left. If that has no meaning, neither has the expression;
/// if it fails, the expression fails with it; and if it gives a value, the
/// operator is applied to the two. No operator skips its right operand,
/// `&&` and `||` neither.
pub proof fn lemma_both_operands_evaluated(
    left: ExprView,
    right: ExprView,
    operator: BinaryOperator,
    env: EnvironmentView,
    fuel: nat,
    tape: Seq<Exchange>,
    cursor: nat,
)
    requires
        run_expr(left, env, fuel, tape, cursor) matches Some(first) && first.outcome is Ok,
    ensures
        ({
            let first = run_expr(left, env, fuel, tape, cursor)->Some_0;
            let whole = run_expr(
                ExprView::Binary { left: Box::new(left), right: Box::new(right), operator },
                env,
                fuel,
                tape,
                cursor,
            );
            match run_expr(right, first.env, first.fuel, tape, first.cursor) {
                None => whole is None,
                Some(second) => match second.outcome {
                    Err(_) => whole == Some(second),
                    Ok(rhs) => whole == apply(
                        operator,
                        first.outcome->Ok_0,
                        rhs,
                        second.env,
                        second.fuel,
                        tape,
                        second.cursor,
                    ),
                },
            }
        }),
{
    let first = run_expr(left, env, fuel, tape, cursor)->Some_0;
    run_expr_unfolds(
        ExprView::Binary { left: Box::new(left), right: Box::new(right), operator },
        env,
        fuel,
        tape,
        cursor,
    );
    lemma_expr_within(left, env, fuel, tape, cursor);
    lemma_expr_within(right, first.env, first.fuel, tape, first.cursor);
}

/// The first error ends the run: where a statement fails, the statements
/// behind it are not evaluated, and the run of the list is the run of that
/// statement, with its error, its scopes and what it read.
pub proof fn lemma_error_ends_the_run(
    stmts: Seq<StmtView>,
    from: nat,
    env: EnvironmentView,
    fuel: nat,
    tape: Seq<Exchange>,
    cursor: nat,
    last: ValueView,
)
    requires
        from < stmts.len(),
        run_stmt(stmts[from as int], env, fuel, tape, cursor) matches Some(r) && r.outcome is Err,
    ensures
        run_stmts(stmts, from, env, fuel, tape, cursor, last) == run_stmt(
            stmts[from as int],
            env,
            fuel,
            tape,
            cursor,
        ),
{
    run_stmts_unfolds(stmts, from, env, fuel, tape, cursor, last);
    lemma_stmt_within(stmts[from as int], env, fuel, tape, cursor);
}

} // verus!
