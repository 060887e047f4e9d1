//! No run gives steps back, and none reads the tape backwards.
//!
//! The rules of the semantics pass each run through `bounded`, which drops
//! a run that would leave more steps than it was given. No run does: the
//! laws here show that every run leaves at most the steps that it started
//! with, so `bounded` changes nothing, and that the cursor only moves on.

use vstd::prelude::*;
use crate::frontend::ast::{ExprView, PropertyView, StmtView};
use crate::runtime::environment::{entered, EnvironmentView};
use crate::runtime::semantics::{
    bounded, run_block, run_block_unfolds, run_call, run_call_unfolds, run_elements,
    run_elements_unfolds, run_expr, run_expr_unfolds, run_for, run_for_turns,
    run_for_turns_unfolds, run_for_unfolds, run_properties, run_properties_unfolds, run_stmt,
    run_stmt_unfolds, run_stmts, run_stmts_unfolds, run_while, run_while_unfolds, Exchange, Run,
};
use crate::runtime::values::ValueView;

verus! {

/// Whether a run that started with `fuel` steps at `cursor` left no more
/// steps than that and read the tape forwards.
pub open spec fn within(r: Option<Run>, fuel: nat, cursor: nat) -> bool {
    r matches Some(run) ==> run.fuel <= fuel && cursor <= run.cursor
}

pub proof fn lemma_stmt_within(
    stmt: StmtView,
    env: EnvironmentView,
    fuel: nat,
    tape: Seq<Exchange>,
    cursor: nat,
)
    ensures
        within(run_stmt(stmt, env, fuel, tape, cursor), fuel, cursor),
        bounded(fuel, run_stmt(stmt, env, fuel, tape, cursor)) == run_stmt(
            stmt,
            env,
            fuel,
            tape,
            cursor,
        ),
    decreases fuel, stmt, 3nat,
{
    run_stmt_unfolds(stmt, env, fuel, tape, cursor);
    match stmt {
        StmtView::Program { body } => {
            lemma_stmts_within(body, 0, env, fuel, tape, cursor, ValueView::Null);
        },
        StmtView::VarDeclaration { value, .. } => {
            if let Some(initializer) = value {
                lemma_expr_within(*initializer, env, fuel, tape, cursor);
            }
        },
        StmtView::FunctionDeclaration { .. } => {},
        StmtView::Expr { expr } => {
            lemma_expr_within(*expr, env, fuel, tape, cursor);
        },
        StmtView::WhileLoop { .. } => {
            lemma_while_within(stmt, env, fuel, tape, cursor, ValueView::Null);
        },
        StmtView::ForLoop { .. } => {
            lemma_for_within(stmt, entered(env), fuel, tape, cursor);
        },
    }
}

pub proof fn lemma_stmts_within(
    stmts: Seq<StmtView>,
    from: nat,
    env: EnvironmentView,
    fuel: nat,
    tape: Seq<Exchange>,
    cursor: nat,
    last: ValueView,
)
    ensures
        within(run_stmts(stmts, from, env, fuel, tape, cursor, last), fuel, cursor),
    decreases fuel, stmts, stmts.len() - from,
{
    run_stmts_unfolds(stmts, from, env, fuel, tape, cursor, last);
    if from < stmts.len() {
        lemma_stmt_within(stmts[from as int], env, fuel, tape, cursor);
        if let Some(r) = run_stmt(stmts[from as int], env, fuel, tape, cursor) {
            if let Ok(v) = r.outcome {
                lemma_stmts_within(stmts, from + 1, r.env, r.fuel, tape, r.cursor, v);
            }
        }
    }
}

pub proof fn lemma_block_within(
    stmts: Seq<StmtView>,
    env: EnvironmentView,
    fuel: nat,
    tape: Seq<Exchange>,
    cursor: nat,
)
    ensures
        within(run_block(stmts, env, fuel, tape, cursor), fuel, cursor),
    decreases fuel, stmts, stmts.len() + 1,
{
    run_block_unfolds(stmts, env, fuel, tape, cursor);
    lemma_stmts_within(stmts, 0, entered(env), fuel, tape, cursor, ValueView::Null);
}

pub proof fn lemma_while_within(
    stmt: StmtView,
    env: EnvironmentView,
    fuel: nat,
    tape: Seq<Exchange>,
    cursor: nat,
    result: ValueView,
)
    ensures
        within(run_while(stmt, env, fuel, tape, cursor, result), fuel, cursor),
    decreases fuel, stmt, 1nat,
{
    run_while_unfolds(stmt, env, fuel, tape, cursor, result);
    if let StmtView::WhileLoop { condition, body } = stmt {
        lemma_expr_within(*condition, env, fuel, tape, cursor);
        if let Some(r) = run_expr(*condition, env, fuel, tape, cursor) {
            if let Ok(c) = r.outcome {
                if crate::runtime::values::truthy(c) && r.fuel > 0 {
                    let less = (r.fuel - 1) as nat;
                    lemma_block_within(body, r.env, less, tape, r.cursor);
                    if let Some(turn) = run_block(body, r.env, less, tape, r.cursor) {
                        if let Ok(v) = turn.outcome {
                            lemma_while_within(stmt, turn.env, turn.fuel, tape, turn.cursor, v);
                        }
                    }
                }
            }
        }
    }
}

pub proof fn lemma_for_within(
    stmt: StmtView,
    env: EnvironmentView,
    fuel: nat,
    tape: Seq<Exchange>,
    cursor: nat,
)
    ensures
        within(run_for(stmt, env, fuel, tape, cursor), fuel, cursor),
    decreases fuel, stmt, 2nat,
{
    run_for_unfolds(stmt, env, fuel, tape, cursor);
    if let StmtView::ForLoop { initializer, .. } = stmt {
        lemma_stmt_within(*initializer, env, fuel, tape, cursor);
        if let Some(r) = run_stmt(*initializer, env, fuel, tape, cursor) {
            if r.outcome is Ok {
                lemma_for_turns_within(stmt, r.env, r.fuel, tape, r.cursor);
            }
        }
    }
}

pub proof fn lemma_for_turns_within(
    stmt: StmtView,
    env: EnvironmentView,
    fuel: nat,
    tape: Seq<Exchange>,
    cursor: nat,
)
    ensures
        within(run_for_turns(stmt, env, fuel, tape, cursor), fuel, cursor),
    decreases fuel, stmt, 1nat,
{
    run_for_turns_unfolds(stmt, env, fuel, tape, cursor);
    if let StmtView::ForLoop { condition, increment, body, .. } = stmt {
        lemma_expr_within(*condition, env, fuel, tape, cursor);
        if let Some(r) = run_expr(*condition, env, fuel, tape, cursor) {
            if r.outcome matches Ok(c) && crate::runtime::values::truthy(c) && r.fuel > 0 {
                let less = (r.fuel - 1) as nat;
                lemma_block_within(body, r.env, less, tape, r.cursor);
                if let Some(turn) = run_block(body, r.env, less, tape, r.cursor) {
                    if turn.outcome is Ok {
                        lemma_expr_within(*increment, turn.env, turn.fuel, tape, turn.cursor);
                        if let Some(stepped) = run_expr(
                            *increment,
                            turn.env,
                            turn.fuel,
                            tape,
                            turn.cursor,
                        ) {
                            if stepped.outcome is Ok {
                                lemma_for_turns_within(
                                    stmt,
                                    stepped.env,
                                    stepped.fuel,
                                    tape,
                                    stepped.cursor,
                                );
                            }
                        }
                    }
                }
            }
        }
    }
}

/// No evaluation of an expression gives steps back or reads the tape
/// backwards; so `bounded` changes no run.
pub proof fn lemma_expr_within(
    expr: ExprView,
    env: EnvironmentView,
    fuel: nat,
    tape: Seq<Exchange>,
    cursor: nat,
)
    ensures
        within(run_expr(expr, env, fuel, tape, cursor), fuel, cursor),
        bounded(fuel, run_expr(expr, env, fuel, tape, cursor)) == run_expr(
            expr,
            env,
            fuel,
            tape,
            cursor,
        ),
    decreases fuel, expr, 3nat,
{
    run_expr_unfolds(expr, env, fuel, tape, cursor);
    match expr {
        ExprView::Numeric { .. } => {},
        ExprView::Float { .. } => {},
        ExprView::Text { .. } => {},
        ExprView::Identifier { .. } => {},
        ExprView::Object { properties } => {
            lemma_properties_within(properties, 0, env, fuel, tape, cursor, Seq::empty());
        },
        ExprView::Array { elements } => {
            lemma_elements_within(elements, 0, env, fuel, tape, cursor, Seq::empty());
        },
        ExprView::Call { .. } => {
            lemma_call_within(expr, env, fuel, tape, cursor);
        },
        ExprView::Assignment { assignee, value } => {
            if *assignee is Identifier {
                lemma_expr_within(*value, env, fuel, tape, cursor);
            }
        },
        ExprView::Binary { left, right, .. } => {
            lemma_expr_within(*left, env, fuel, tape, cursor);
            if let Some(r) = run_expr(*left, env, fuel, tape, cursor) {
                if r.outcome is Ok {
                    lemma_expr_within(*right, r.env, r.fuel, tape, r.cursor);
                }
            }
        },
        ExprView::Member { object, .. } => {
            lemma_expr_within(*object, env, fuel, tape, cursor);
        },
        ExprView::Unary { operand, .. } => {
            lemma_expr_within(*operand, env, fuel, tape, cursor);
        },
        ExprView::IfElse { condition, if_branch, else_branch } => {
            lemma_expr_within(*condition, env, fuel, tape, cursor);
            if let Some(r) = run_expr(*condition, env, fuel, tape, cursor) {
                lemma_block_within(if_branch, r.env, r.fuel, tape, r.cursor);
                if let Some(branch) = else_branch {
                    lemma_block_within(branch, r.env, r.fuel, tape, r.cursor);
                }
            }
        },
    }
}

pub proof fn lemma_elements_within(
    elements: Seq<ExprView>,
    from: nat,
    env: EnvironmentView,
    fuel: nat,
    tape: Seq<Exchange>,
    cursor: nat,
    acc: Seq<ValueView>,
)
    ensures
        within(run_elements(elements, from, env, fuel, tape, cursor, acc), fuel, cursor),
    decreases fuel, elements, elements.len() - from,
{
    run_elements_unfolds(elements, from, env, fuel, tape, cursor, acc);
    if from < elements.len() {
        lemma_expr_within(elements[from as int], env, fuel, tape, cursor);
        if let Some(r) = run_expr(elements[from as int], env, fuel, tape, cursor) {
            if let Ok(v) = r.outcome {
                lemma_elements_within(
                    elements,
                    from + 1,
                    r.env,
                    r.fuel,
                    tape,
                    r.cursor,
                    acc.push(v),
                );
            }
        }
    }
}

pub proof fn lemma_properties_within(
    properties: Seq<PropertyView>,
    from: nat,
    env: EnvironmentView,
    fuel: nat,
    tape: Seq<Exchange>,
    cursor: nat,
    acc: Seq<(Seq<char>, ValueView)>,
)
    ensures
        within(run_properties(properties, from, env, fuel, tape, cursor, acc), fuel, cursor),
    decreases fuel, properties, properties.len() - from,
{
    run_properties_unfolds(properties, from, env, fuel, tape, cursor, acc);
    if from < properties.len() {
        let key = properties[from as int].key;
        match properties[from as int].value {
            Some(value) => {
                lemma_expr_within(*value, env, fuel, tape, cursor);
                if let Some(r) = run_expr(*value, env, fuel, tape, cursor) {
                    if let Ok(v) = r.outcome {
                        lemma_properties_within(
                            properties,
                            from + 1,
                            r.env,
                            r.fuel,
                            tape,
                            r.cursor,
                            acc.push((key, v)),
                        );
                    }
                }
            },
            None => {
                if let Ok(v) = crate::runtime::environment::looked_up(env, key) {
                    lemma_properties_within(
                        properties,
                        from + 1,
                        env,
                        fuel,
                        tape,
                        cursor,
                        acc.push((key, v)),
                    );
                }
            },
        }
    }
}

pub proof fn lemma_call_within(
    expr: ExprView,
    env: EnvironmentView,
    fuel: nat,
    tape: Seq<Exchange>,
    cursor: nat,
)
    ensures
        within(run_call(expr, env, fuel, tape, cursor), fuel, cursor),
    decreases fuel, expr, 2nat,
{
    run_call_unfolds(expr, env, fuel, tape, cursor);
    if let ExprView::Call { args, caller } = expr {
        lemma_elements_within(args, 0, env, fuel, tape, cursor, Seq::empty());
        if let Some(listed) = run_elements(args, 0, env, fuel, tape, cursor, Seq::empty()) {
            if let Ok(ValueView::Array(values)) = listed.outcome {
                lemma_expr_within(*caller, listed.env, listed.fuel, tape, listed.cursor);
                if let Some(r) = run_expr(*caller, listed.env, listed.fuel, tape, listed.cursor) {
                    if let Ok(ValueView::Function { parameters, declaration_env, body }) = r.outcome {
                        if parameters.len() == values.len() && r.fuel > 0 {
                            let less = (r.fuel - 1) as nat;
                            if let Ok(scope) = crate::runtime::semantics::bound(
                                entered(*declaration_env),
                                parameters,
                                values,
                                0,
                            ) {
                                lemma_stmts_within(
                                    body,
                                    0,
                                    scope,
                                    less,
                                    tape,
                                    r.cursor,
                                    ValueView::Null,
                                );
                            }
                        }
                    }
                }
            }
        }
    }
}

} // verus!
