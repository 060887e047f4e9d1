//! Blocks keep their names to themselves.
//!
//! The laws here say of every run what the evaluator's contracts say of
//! the runs that take place: an expression leaves every frame with the
//! names and constants that it had, and a statement leaves them so but for
//! what it declares in the innermost frame. So a name that is declared in
//! the body of a loop or in a branch of `jos` is gone behind it, and a name
//! of an outer frame stays where it is, whatever happens to its value.

use vstd::prelude::*;
use crate::frontend::ast::{ExprView, PropertyView, StmtView};
use crate::runtime::environment::{
    assigned, declared, entered, grown_scope, lemma_assigned_same_scopes,
    lemma_declared_grown_scope, lemma_grown_scope_reflexive, lemma_grown_scope_transitive,
    lemma_same_scopes_grown, lemma_same_scopes_reflexive, lemma_same_scopes_transitive,
    same_scopes, EnvironmentView,
};
use crate::runtime::semantics::{
    closure, run_block, run_block_unfolds, run_call, run_call_unfolds, run_elements,
    run_elements_unfolds, run_expr, run_expr_unfolds, run_for, run_for_turns,
    run_for_turns_unfolds, run_for_unfolds, run_properties, run_properties_unfolds, run_stmt,
    run_stmt_unfolds, run_stmts, run_stmts_unfolds, run_while, run_while_unfolds, Exchange, Run,
};
use crate::runtime::values::ValueView;

verus! {

/// Whether a run left every frame with the names and constants that it had.
pub open spec fn keeps(r: Option<Run>, env: EnvironmentView) -> bool {
    r matches Some(run) ==> same_scopes(env, run.env)
}

/// Whether a run left every frame with the names and constants that it
/// had, but for names added to the innermost frame.
pub open spec fn grows(r: Option<Run>, env: EnvironmentView) -> bool {
    r matches Some(run) ==> grown_scope(env, run.env)
}

/// A statement changes the names of the innermost frame only, and only by
/// adding to them.
pub proof fn lemma_stmt_grows_scope(
    stmt: StmtView,
    env: EnvironmentView,
    fuel: nat,
    tape: Seq<Exchange>,
    cursor: nat,
)
    ensures
        grows(run_stmt(stmt, env, fuel, tape, cursor), env),
    decreases fuel, stmt, 3nat,
{
    run_stmt_unfolds(stmt, env, fuel, tape, cursor);
    lemma_grown_scope_reflexive(env);
    match stmt {
        StmtView::Program { body } => {
            lemma_stmts_grow_scope(body, 0, env, fuel, tape, cursor, ValueView::Null);
        },
        StmtView::VarDeclaration { constant, identifier, value } => {
            match value {
                Some(initializer) => {
                    lemma_expr_keeps_scopes(*initializer, env, fuel, tape, cursor);
                    if let Some(r) = run_expr(*initializer, env, fuel, tape, cursor) {
                        lemma_same_scopes_grown(env, r.env);
                        if let Ok(v) = r.outcome {
                            if let Ok(after) = declared(r.env, identifier, v, constant) {
                                lemma_declared_grown_scope(r.env, identifier, v, constant);
                                lemma_grown_scope_transitive(env, r.env, after);
                            }
                        }
                    }
                },
                None => {
                    if declared(env, identifier, ValueView::Null, constant) is Ok {
                        lemma_declared_grown_scope(env, identifier, ValueView::Null, constant);
                    }
                },
            }
        },
        StmtView::FunctionDeclaration { parameters, name, body } => {
            if declared(env, name, closure(parameters, body, env), true) is Ok {
                lemma_declared_grown_scope(env, name, closure(parameters, body, env), true);
            }
        },
        StmtView::Expr { expr } => {
            lemma_expr_keeps_scopes(*expr, env, fuel, tape, cursor);
            if let Some(r) = run_expr(*expr, env, fuel, tape, cursor) {
                lemma_same_scopes_grown(env, r.env);
            }
        },
        StmtView::WhileLoop { .. } => {
            lemma_while_keeps_scopes(stmt, env, fuel, tape, cursor, ValueView::Null);
            if let Some(r) = run_while(stmt, env, fuel, tape, cursor, ValueView::Null) {
                lemma_same_scopes_grown(env, r.env);
            }
        },
        StmtView::ForLoop { .. } => {
            lemma_for_grows_scope(stmt, entered(env), fuel, tape, cursor);
            lemma_same_scopes_reflexive(env);
            if let Some(r) = run_for(stmt, entered(env), fuel, tape, cursor) {
                lemma_same_scopes_grown(env, *r.env.parent->Some_0);
            }
        },
    }
}

pub proof fn lemma_stmts_grow_scope(
    stmts: Seq<StmtView>,
    from: nat,
    env: EnvironmentView,
    fuel: nat,
    tape: Seq<Exchange>,
    cursor: nat,
    last: ValueView,
)
    ensures
        grows(run_stmts(stmts, from, env, fuel, tape, cursor, last), env),
    decreases fuel, stmts, stmts.len() - from,
{
    run_stmts_unfolds(stmts, from, env, fuel, tape, cursor, last);
    lemma_grown_scope_reflexive(env);
    if from < stmts.len() {
        lemma_stmt_grows_scope(stmts[from as int], env, fuel, tape, cursor);
        if let Some(r) = run_stmt(stmts[from as int], env, fuel, tape, cursor) {
            if r.fuel <= fuel {
                if let Ok(v) = r.outcome {
                    lemma_stmts_grow_scope(stmts, from + 1, r.env, r.fuel, tape, r.cursor, v);
                    if let Some(rest) = run_stmts(stmts, from + 1, r.env, r.fuel, tape, r.cursor, v) {
                        lemma_grown_scope_transitive(env, r.env, rest.env);
                    }
                }
            }
        }
    }
}

/// A block leaves the scopes around it with the names that they had: what
/// it declares is gone with its frame.
pub proof fn lemma_block_keeps_scopes(
    stmts: Seq<StmtView>,
    env: EnvironmentView,
    fuel: nat,
    tape: Seq<Exchange>,
    cursor: nat,
)
    ensures
        keeps(run_block(stmts, env, fuel, tape, cursor), env),
    decreases fuel, stmts, stmts.len() + 1,
{
    run_block_unfolds(stmts, env, fuel, tape, cursor);
    lemma_stmts_grow_scope(stmts, 0, entered(env), fuel, tape, cursor, ValueView::Null);
}

pub proof fn lemma_while_keeps_scopes(
    stmt: StmtView,
    env: EnvironmentView,
    fuel: nat,
    tape: Seq<Exchange>,
    cursor: nat,
    result: ValueView,
)
    ensures
        keeps(run_while(stmt, env, fuel, tape, cursor, result), env),
    decreases fuel, stmt, 1nat,
{
    run_while_unfolds(stmt, env, fuel, tape, cursor, result);
    if let StmtView::WhileLoop { condition, body } = stmt {
        lemma_expr_keeps_scopes(*condition, env, fuel, tape, cursor);
        if let Some(r) = run_expr(*condition, env, fuel, tape, cursor) {
            if r.fuel <= fuel {
                if let Ok(c) = r.outcome {
                    if crate::runtime::values::truthy(c) && r.fuel > 0 {
                        let less = (r.fuel - 1) as nat;
                        lemma_block_keeps_scopes(body, r.env, less, tape, r.cursor);
                        if let Some(turn) = run_block(body, r.env, less, tape, r.cursor) {
                            lemma_same_scopes_transitive(env, r.env, turn.env);
                            if turn.fuel <= less {
                                if let Ok(v) = turn.outcome {
                                    lemma_while_keeps_scopes(
                                        stmt,
                                        turn.env,
                                        turn.fuel,
                                        tape,
                                        turn.cursor,
                                        v,
                                    );
                                    if let Some(rest) = run_while(
                                        stmt,
                                        turn.env,
                                        turn.fuel,
                                        tape,
                                        turn.cursor,
                                        v,
                                    ) {
                                        lemma_same_scopes_transitive(env, turn.env, rest.env);
                                    }
                                }
                            }
                        }
                    }
                }
            }
        }
    }
}

pub proof fn lemma_for_grows_scope(
    stmt: StmtView,
    env: EnvironmentView,
    fuel: nat,
    tape: Seq<Exchange>,
    cursor: nat,
)
    ensures
        grows(run_for(stmt, env, fuel, tape, cursor), env),
    decreases fuel, stmt, 2nat,
{
    run_for_unfolds(stmt, env, fuel, tape, cursor);
    if let StmtView::ForLoop { initializer, .. } = stmt {
        lemma_stmt_grows_scope(*initializer, env, fuel, tape, cursor);
        if let Some(r) = run_stmt(*initializer, env, fuel, tape, cursor) {
            if r.fuel <= fuel && r.outcome is Ok {
                lemma_for_turns_keep_scopes(stmt, r.env, r.fuel, tape, r.cursor);
                if let Some(rest) = run_for_turns(stmt, r.env, r.fuel, tape, r.cursor) {
                    lemma_same_scopes_grown(r.env, rest.env);
                    lemma_grown_scope_transitive(env, r.env, rest.env);
                }
            }
        }
    }
}

pub proof fn lemma_for_turns_keep_scopes(
    stmt: StmtView,
    env: EnvironmentView,
    fuel: nat,
    tape: Seq<Exchange>,
    cursor: nat,
)
    ensures
        keeps(run_for_turns(stmt, env, fuel, tape, cursor), env),
    decreases fuel, stmt, 1nat,
{
    run_for_turns_unfolds(stmt, env, fuel, tape, cursor);
    if let StmtView::ForLoop { condition, increment, body, .. } = stmt {
        lemma_expr_keeps_scopes(*condition, env, fuel, tape, cursor);
        if let Some(r) = run_expr(*condition, env, fuel, tape, cursor) {
            if r.outcome matches Ok(c) && crate::runtime::values::truthy(c) && r.fuel > 0 && r.fuel <= fuel {
                let less = (r.fuel - 1) as nat;
                lemma_block_keeps_scopes(body, r.env, less, tape, r.cursor);
                if let Some(turn) = run_block(body, r.env, less, tape, r.cursor) {
                    lemma_same_scopes_transitive(env, r.env, turn.env);
                    if turn.fuel <= less && turn.outcome is Ok {
                        lemma_expr_keeps_scopes(*increment, turn.env, turn.fuel, tape, turn.cursor);
                        if let Some(stepped) = run_expr(
                            *increment,
                            turn.env,
                            turn.fuel,
                            tape,
                            turn.cursor,
                        ) {
                            lemma_same_scopes_transitive(env, turn.env, stepped.env);
                            if stepped.fuel <= turn.fuel && stepped.outcome is Ok {
                                lemma_for_turns_keep_scopes(
                                    stmt,
                                    stepped.env,
                                    stepped.fuel,
                                    tape,
                                    stepped.cursor,
                                );
                                if let Some(rest) = run_for_turns(
                                    stmt,
                                    stepped.env,
                                    stepped.fuel,
                                    tape,
                                    stepped.cursor,
                                ) {
                                    lemma_same_scopes_transitive(env, stepped.env, rest.env);
                                }
                            }
                        }
                    }
                }
            }
        }
    }
}

/// An expression declares nothing where it stands: it leaves every frame
/// with the names and constants that it had.
pub proof fn lemma_expr_keeps_scopes(
    expr: ExprView,
    env: EnvironmentView,
    fuel: nat,
    tape: Seq<Exchange>,
    cursor: nat,
)
    ensures
        keeps(run_expr(expr, env, fuel, tape, cursor), env),
    decreases fuel, expr, 3nat,
{
    run_expr_unfolds(expr, env, fuel, tape, cursor);
    lemma_same_scopes_reflexive(env);
    match expr {
        ExprView::Numeric { .. } => {},
        ExprView::Float { .. } => {},
        ExprView::Text { .. } => {},
        ExprView::Identifier { .. } => {},
        ExprView::Object { properties } => {
            lemma_properties_keep_scopes(properties, 0, env, fuel, tape, cursor, Seq::empty());
        },
        ExprView::Array { elements } => {
            lemma_elements_keep_scopes(elements, 0, env, fuel, tape, cursor, Seq::empty());
        },
        ExprView::Call { .. } => {
            lemma_call_keeps_scopes(expr, env, fuel, tape, cursor);
        },
        ExprView::Assignment { assignee, value } => {
            if let ExprView::Identifier { symbol } = *assignee {
                lemma_expr_keeps_scopes(*value, env, fuel, tape, cursor);
                if let Some(r) = run_expr(*value, env, fuel, tape, cursor) {
                    if let Ok(v) = r.outcome {
                        if let Ok(after) = assigned(r.env, symbol, v) {
                            lemma_assigned_same_scopes(r.env, symbol, v);
                            lemma_same_scopes_transitive(env, r.env, after);
                        }
                    }
                }
            }
        },
        ExprView::Binary { left, right, .. } => {
            lemma_expr_keeps_scopes(*left, env, fuel, tape, cursor);
            if let Some(r) = run_expr(*left, env, fuel, tape, cursor) {
                if r.fuel <= fuel && r.outcome is Ok {
                    lemma_expr_keeps_scopes(*right, r.env, r.fuel, tape, r.cursor);
                    if let Some(second) = run_expr(*right, r.env, r.fuel, tape, r.cursor) {
                        lemma_same_scopes_transitive(env, r.env, second.env);
                    }
                }
            }
        },
        ExprView::Member { object, .. } => {
            lemma_expr_keeps_scopes(*object, env, fuel, tape, cursor);
        },
        ExprView::Unary { operand, .. } => {
            lemma_expr_keeps_scopes(*operand, env, fuel, tape, cursor);
        },
        ExprView::IfElse { condition, if_branch, else_branch } => {
            lemma_expr_keeps_scopes(*condition, env, fuel, tape, cursor);
            if let Some(r) = run_expr(*condition, env, fuel, tape, cursor) {
                if r.fuel <= fuel {
                    lemma_block_keeps_scopes(if_branch, r.env, r.fuel, tape, r.cursor);
                    if let Some(taken) = run_block(if_branch, r.env, r.fuel, tape, r.cursor) {
                        lemma_same_scopes_transitive(env, r.env, taken.env);
                    }
                    if let Some(branch) = else_branch {
                        lemma_block_keeps_scopes(branch, r.env, r.fuel, tape, r.cursor);
                        if let Some(taken) = run_block(branch, r.env, r.fuel, tape, r.cursor) {
                            lemma_same_scopes_transitive(env, r.env, taken.env);
                        }
                    }
                }
            }
        },
    }
}

pub proof fn lemma_elements_keep_scopes(
    elements: Seq<ExprView>,
    from: nat,
    env: EnvironmentView,
    fuel: nat,
    tape: Seq<Exchange>,
    cursor: nat,
    acc: Seq<ValueView>,
)
    ensures
        keeps(run_elements(elements, from, env, fuel, tape, cursor, acc), env),
    decreases fuel, elements, elements.len() - from,
{
    run_elements_unfolds(elements, from, env, fuel, tape, cursor, acc);
    lemma_same_scopes_reflexive(env);
    if from < elements.len() {
        lemma_expr_keeps_scopes(elements[from as int], env, fuel, tape, cursor);
        if let Some(r) = run_expr(elements[from as int], env, fuel, tape, cursor) {
            if r.fuel <= fuel {
                if let Ok(v) = r.outcome {
                    lemma_elements_keep_scopes(
                        elements,
                        from + 1,
                        r.env,
                        r.fuel,
                        tape,
                        r.cursor,
                        acc.push(v),
                    );
                    if let Some(rest) = run_elements(
                        elements,
                        from + 1,
                        r.env,
                        r.fuel,
                        tape,
                        r.cursor,
                        acc.push(v),
                    ) {
                        lemma_same_scopes_transitive(env, r.env, rest.env);
                    }
                }
            }
        }
    }
}

pub proof fn lemma_properties_keep_scopes(
    properties: Seq<PropertyView>,
    from: nat,
    env: EnvironmentView,
    fuel: nat,
    tape: Seq<Exchange>,
    cursor: nat,
    acc: Seq<(Seq<char>, ValueView)>,
)
    ensures
        keeps(run_properties(properties, from, env, fuel, tape, cursor, acc), env),
    decreases fuel, properties, properties.len() - from,
{
    run_properties_unfolds(properties, from, env, fuel, tape, cursor, acc);
    lemma_same_scopes_reflexive(env);
    if from < properties.len() {
        let key = properties[from as int].key;
        match properties[from as int].value {
            Some(value) => {
                lemma_expr_keeps_scopes(*value, env, fuel, tape, cursor);
                if let Some(r) = run_expr(*value, env, fuel, tape, cursor) {
                    if r.fuel <= fuel {
                        if let Ok(v) = r.outcome {
                            lemma_properties_keep_scopes(
                                properties,
                                from + 1,
                                r.env,
                                r.fuel,
                                tape,
                                r.cursor,
                                acc.push((key, v)),
                            );
                            if let Some(rest) = run_properties(
                                properties,
                                from + 1,
                                r.env,
                                r.fuel,
                                tape,
                                r.cursor,
                                acc.push((key, v)),
                            ) {
                                lemma_same_scopes_transitive(env, r.env, rest.env);
                            }
                        }
                    }
                }
            },
            None => {
                if let Ok(v) = crate::runtime::environment::looked_up(env, key) {
                    lemma_properties_keep_scopes(
                        properties,
                        from + 1,
                        env,
                        fuel,
                        tape,
                        cursor,
                        acc.push((key, v)),
                    );
                }
            },
        }
    }
}

/// A call leaves the scopes of the caller with the names that they had:
/// the body of the function runs in scopes of its own.
pub proof fn lemma_call_keeps_scopes(
    expr: ExprView,
    env: EnvironmentView,
    fuel: nat,
    tape: Seq<Exchange>,
    cursor: nat,
)
    ensures
        keeps(run_call(expr, env, fuel, tape, cursor), env),
    decreases fuel, expr, 2nat,
{
    run_call_unfolds(expr, env, fuel, tape, cursor);
    if let ExprView::Call { args, caller } = expr {
        lemma_elements_keep_scopes(args, 0, env, fuel, tape, cursor, Seq::empty());
        if let Some(listed) = run_elements(args, 0, env, fuel, tape, cursor, Seq::empty()) {
            if listed.fuel <= fuel && listed.outcome is Ok {
                lemma_expr_keeps_scopes(*caller, listed.env, listed.fuel, tape, listed.cursor);
                if let Some(r) = run_expr(*caller, listed.env, listed.fuel, tape, listed.cursor) {
                    lemma_same_scopes_transitive(env, listed.env, r.env);
                }
            }
        }
    }
}

} // verus!
