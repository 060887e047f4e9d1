//! Evaluation is determined by the program, the scopes, the budget and the
//! answers of the host.
//!
//! The meaning of a statement or expression is a function: the same
//! program in the same scopes, with the same budget and the same tape, has
//! the same run. The laws here say more: the run does not depend on where
//! on the tape the answers stand, nor on what stands before them. So
//! evaluating an expression again, in scopes that the first evaluation has
//! left as they were, gives the same value whenever the host gives the same
//! answers again.

use vstd::prelude::*;
use crate::frontend::ast::{ExprView, PropertyView, StmtView};
use crate::runtime::environment::{entered, EnvironmentView};
use crate::runtime::semantics::{
    bounded, continues, lemma_continues_itself, lemma_continues_length, run_block, run_block_unfolds, run_call, run_call_unfolds, run_elements,
    run_elements_unfolds, run_expr, run_expr_unfolds, run_for, run_for_turns,
    run_for_turns_unfolds, run_for_unfolds, run_properties, run_properties_unfolds, run_stmt,
    run_stmt_unfolds, run_stmts, run_stmts_unfolds, run_while, run_while_unfolds, Exchange, Run,
};
use crate::runtime::values::ValueView;

verus! {

/// Whether two tapes hold the same exchanges from their cursors on.
pub open spec fn same_answers(first: Seq<Exchange>, c1: nat, second: Seq<Exchange>, c2: nat) -> bool {
    &&& c1 <= first.len()
    &&& c2 <= second.len()
    &&& first.skip(c1 as int) == second.skip(c2 as int)
}

/// Whether two runs, started at the cursors `c1` and `c2`, are the same but
/// for where their tapes start: both have no meaning, or they ended alike,
/// left the same scopes and the same budget, and read equally far.
pub open spec fn same_run(first: Option<Run>, c1: nat, second: Option<Run>, c2: nat) -> bool {
    match first {
        Some(a) => second is Some && {
            let b = second->Some_0;
            &&& a.outcome == b.outcome
            &&& a.env == b.env
            &&& a.fuel == b.fuel
            &&& c1 <= a.cursor
            &&& a.cursor - c1 == b.cursor - c2
        },
        None => second is None,
    }
}

/// Whether a run stayed on its tape.
pub open spec fn on_tape(r: Option<Run>, tape: Seq<Exchange>) -> bool {
    r matches Some(run) ==> run.cursor <= tape.len()
}

/// Tapes with the same answers hold the same exchange under their cursors.
pub proof fn lemma_same_answers_read(first: Seq<Exchange>, c1: nat, second: Seq<Exchange>, c2: nat)
    requires
        same_answers(first, c1, second, c2),
    ensures
        c1 < first.len() <==> c2 < second.len(),
        c1 < first.len() ==> first[c1 as int] == second[c2 as int],
{
    assert(first.skip(c1 as int).len() == second.skip(c2 as int).len());
    if c1 < first.len() {
        assert(first.skip(c1 as int)[0] == first[c1 as int]);
        assert(second.skip(c2 as int)[0] == second[c2 as int]);
    }
}

/// Tapes with the same answers have the same answers further on.
pub proof fn lemma_same_answers_further(
    first: Seq<Exchange>,
    c1: nat,
    second: Seq<Exchange>,
    c2: nat,
    n1: nat,
    n2: nat,
)
    requires
        same_answers(first, c1, second, c2),
        c1 <= n1 <= first.len(),
        n1 - c1 == n2 - c2,
    ensures
        same_answers(first, n1, second, n2),
{
    assert(first.skip(c1 as int).len() == second.skip(c2 as int).len());
    assert(first.skip(n1 as int) =~= first.skip(c1 as int).skip(n1 - c1));
    assert(second.skip(n2 as int) =~= second.skip(c2 as int).skip(n2 - c2));
}

/// The meaning of a statement does not depend on where the answers stand.
pub proof fn lemma_stmt_determined(
    stmt: StmtView,
    env: EnvironmentView,
    fuel: nat,
    first: Seq<Exchange>,
    c1: nat,
    second: Seq<Exchange>,
    c2: nat,
)
    requires
        same_answers(first, c1, second, c2),
    ensures
        same_run(
            run_stmt(stmt, env, fuel, first, c1),
            c1,
            run_stmt(stmt, env, fuel, second, c2),
            c2,
        ),
        on_tape(run_stmt(stmt, env, fuel, first, c1), first),
    decreases fuel, stmt, 3nat,
{
    run_stmt_unfolds(stmt, env, fuel, first, c1);
    run_stmt_unfolds(stmt, env, fuel, second, c2);
    match stmt {
        StmtView::Program { body } => {
            lemma_stmts_determined(body, 0, env, fuel, first, c1, second, c2, ValueView::Null);
        },
        StmtView::VarDeclaration { value, .. } => {
            if let Some(initializer) = value {
                lemma_expr_determined(*initializer, env, fuel, first, c1, second, c2);
            }
        },
        StmtView::FunctionDeclaration { .. } => {},
        StmtView::Expr { expr } => {
            lemma_expr_determined(*expr, env, fuel, first, c1, second, c2);
        },
        StmtView::WhileLoop { .. } => {
            lemma_while_determined(stmt, env, fuel, first, c1, second, c2, ValueView::Null);
        },
        StmtView::ForLoop { .. } => {
            lemma_for_determined(stmt, entered(env), fuel, first, c1, second, c2);
        },
    }
}

/// The meaning of a list of statements does not depend on where the
/// answers stand.
pub proof fn lemma_stmts_determined(
    stmts: Seq<StmtView>,
    from: nat,
    env: EnvironmentView,
    fuel: nat,
    first: Seq<Exchange>,
    c1: nat,
    second: Seq<Exchange>,
    c2: nat,
    last: ValueView,
)
    requires
        same_answers(first, c1, second, c2),
    ensures
        same_run(
            run_stmts(stmts, from, env, fuel, first, c1, last),
            c1,
            run_stmts(stmts, from, env, fuel, second, c2, last),
            c2,
        ),
        on_tape(run_stmts(stmts, from, env, fuel, first, c1, last), first),
    decreases fuel, stmts, stmts.len() - from,
{
    run_stmts_unfolds(stmts, from, env, fuel, first, c1, last);
    run_stmts_unfolds(stmts, from, env, fuel, second, c2, last);
    if from < stmts.len() {
        lemma_stmt_determined(stmts[from as int], env, fuel, first, c1, second, c2);
        let a = bounded(fuel, run_stmt(stmts[from as int], env, fuel, first, c1));
        let b = bounded(fuel, run_stmt(stmts[from as int], env, fuel, second, c2));
        if let Some(r) = a {
            if let Ok(v) = r.outcome {
                let s = b->Some_0;
                lemma_same_answers_further(first, c1, second, c2, r.cursor, s.cursor);
                lemma_stmts_determined(
                    stmts,
                    from + 1,
                    r.env,
                    r.fuel,
                    first,
                    r.cursor,
                    second,
                    s.cursor,
                    v,
                );
            }
        }
    }
}

/// The meaning of a block does not depend on where the answers stand.
pub proof fn lemma_block_determined(
    stmts: Seq<StmtView>,
    env: EnvironmentView,
    fuel: nat,
    first: Seq<Exchange>,
    c1: nat,
    second: Seq<Exchange>,
    c2: nat,
)
    requires
        same_answers(first, c1, second, c2),
    ensures
        same_run(
            run_block(stmts, env, fuel, first, c1),
            c1,
            run_block(stmts, env, fuel, second, c2),
            c2,
        ),
        on_tape(run_block(stmts, env, fuel, first, c1), first),
    decreases fuel, stmts, stmts.len() + 1,
{
    run_block_unfolds(stmts, env, fuel, first, c1);
    run_block_unfolds(stmts, env, fuel, second, c2);
    lemma_stmts_determined(stmts, 0, entered(env), fuel, first, c1, second, c2, ValueView::Null);
}

/// The meaning of the turns of a `kun` loop does not depend on where the
/// answers stand.
pub proof fn lemma_while_determined(
    stmt: StmtView,
    env: EnvironmentView,
    fuel: nat,
    first: Seq<Exchange>,
    c1: nat,
    second: Seq<Exchange>,
    c2: nat,
    result: ValueView,
)
    requires
        same_answers(first, c1, second, c2),
    ensures
        same_run(
            run_while(stmt, env, fuel, first, c1, result),
            c1,
            run_while(stmt, env, fuel, second, c2, result),
            c2,
        ),
        on_tape(run_while(stmt, env, fuel, first, c1, result), first),
    decreases fuel, stmt, 1nat,
{
    run_while_unfolds(stmt, env, fuel, first, c1, result);
    run_while_unfolds(stmt, env, fuel, second, c2, result);
    if let StmtView::WhileLoop { condition, body } = stmt {
        lemma_expr_determined(*condition, env, fuel, first, c1, second, c2);
        let a = bounded(fuel, run_expr(*condition, env, fuel, first, c1));
        let b = bounded(fuel, run_expr(*condition, env, fuel, second, c2));
        if let Some(r) = a {
            if let Ok(c) = r.outcome {
                if crate::runtime::values::truthy(c) && r.fuel > 0 {
                    let s = b->Some_0;
                    let less = (r.fuel - 1) as nat;
                    lemma_same_answers_further(first, c1, second, c2, r.cursor, s.cursor);
                    lemma_block_determined(body, r.env, less, first, r.cursor, second, s.cursor);
                    let ta = bounded(less, run_block(body, r.env, less, first, r.cursor));
                    let tb = bounded(less, run_block(body, r.env, less, second, s.cursor));
                    if let Some(turn) = ta {
                        if let Ok(v) = turn.outcome {
                            let other = tb->Some_0;
                            lemma_same_answers_further(
                                first,
                                c1,
                                second,
                                c2,
                                turn.cursor,
                                other.cursor,
                            );
                            lemma_while_determined(
                                stmt,
                                turn.env,
                                turn.fuel,
                                first,
                                turn.cursor,
                                second,
                                other.cursor,
                                v,
                            );
                        }
                    }
                }
            }
        }
    }
}

/// The meaning of a `toista` loop inside its frame does not depend on
/// where the answers stand.
pub proof fn lemma_for_determined(
    stmt: StmtView,
    env: EnvironmentView,
    fuel: nat,
    first: Seq<Exchange>,
    c1: nat,
    second: Seq<Exchange>,
    c2: nat,
)
    requires
        same_answers(first, c1, second, c2),
    ensures
        same_run(run_for(stmt, env, fuel, first, c1), c1, run_for(stmt, env, fuel, second, c2), c2),
        on_tape(run_for(stmt, env, fuel, first, c1), first),
    decreases fuel, stmt, 2nat,
{
    run_for_unfolds(stmt, env, fuel, first, c1);
    run_for_unfolds(stmt, env, fuel, second, c2);
    if let StmtView::ForLoop { initializer, .. } = stmt {
        lemma_stmt_determined(*initializer, env, fuel, first, c1, second, c2);
        let a = bounded(fuel, run_stmt(*initializer, env, fuel, first, c1));
        let b = bounded(fuel, run_stmt(*initializer, env, fuel, second, c2));
        if let Some(r) = a {
            if r.outcome is Ok {
                let s = b->Some_0;
                lemma_same_answers_further(first, c1, second, c2, r.cursor, s.cursor);
                lemma_for_turns_determined(stmt, r.env, r.fuel, first, r.cursor, second, s.cursor);
            }
        }
    }
}

/// The meaning of the turns of a `toista` loop does not depend on where
/// the answers stand.
pub proof fn lemma_for_turns_determined(
    stmt: StmtView,
    env: EnvironmentView,
    fuel: nat,
    first: Seq<Exchange>,
    c1: nat,
    second: Seq<Exchange>,
    c2: nat,
)
    requires
        same_answers(first, c1, second, c2),
    ensures
        same_run(
            run_for_turns(stmt, env, fuel, first, c1),
            c1,
            run_for_turns(stmt, env, fuel, second, c2),
            c2,
        ),
        on_tape(run_for_turns(stmt, env, fuel, first, c1), first),
    decreases fuel, stmt, 1nat,
{
    run_for_turns_unfolds(stmt, env, fuel, first, c1);
    run_for_turns_unfolds(stmt, env, fuel, second, c2);
    if let StmtView::ForLoop { condition, increment, body, .. } = stmt {
        lemma_expr_determined(*condition, env, fuel, first, c1, second, c2);
        let a = bounded(fuel, run_expr(*condition, env, fuel, first, c1));
        let b = bounded(fuel, run_expr(*condition, env, fuel, second, c2));
        if let Some(r) = a {
            if r.outcome matches Ok(c) && crate::runtime::values::truthy(c) && r.fuel > 0 {
                let s = b->Some_0;
                let less = (r.fuel - 1) as nat;
                lemma_same_answers_further(first, c1, second, c2, r.cursor, s.cursor);
                lemma_block_determined(body, r.env, less, first, r.cursor, second, s.cursor);
                let ta = bounded(less, run_block(body, r.env, less, first, r.cursor));
                let tb = bounded(less, run_block(body, r.env, less, second, s.cursor));
                if let Some(turn) = ta {
                    if turn.outcome is Ok {
                        let other = tb->Some_0;
                        lemma_same_answers_further(
                            first,
                            c1,
                            second,
                            c2,
                            turn.cursor,
                            other.cursor,
                        );
                        lemma_expr_determined(
                            *increment,
                            turn.env,
                            turn.fuel,
                            first,
                            turn.cursor,
                            second,
                            other.cursor,
                        );
                        let ia = bounded(
                            turn.fuel,
                            run_expr(*increment, turn.env, turn.fuel, first, turn.cursor),
                        );
                        let ib = bounded(
                            turn.fuel,
                            run_expr(*increment, turn.env, turn.fuel, second, other.cursor),
                        );
                        if let Some(stepped) = ia {
                            if stepped.outcome is Ok {
                                let stepped2 = ib->Some_0;
                                lemma_same_answers_further(
                                    first,
                                    c1,
                                    second,
                                    c2,
                                    stepped.cursor,
                                    stepped2.cursor,
                                );
                                lemma_for_turns_determined(
                                    stmt,
                                    stepped.env,
                                    stepped.fuel,
                                    first,
                                    stepped.cursor,
                                    second,
                                    stepped2.cursor,
                                );
                            }
                        }
                    }
                }
            }
        }
    }
}

/// The meaning of an expression does not depend on where the answers
/// stand: in the same scopes, with the same budget and the same answers of
/// the host, it has the same value, leaves the same scopes and takes the
/// same steps.
pub proof fn lemma_expr_determined(
    expr: ExprView,
    env: EnvironmentView,
    fuel: nat,
    first: Seq<Exchange>,
    c1: nat,
    second: Seq<Exchange>,
    c2: nat,
)
    requires
        same_answers(first, c1, second, c2),
    ensures
        same_run(
            run_expr(expr, env, fuel, first, c1),
            c1,
            run_expr(expr, env, fuel, second, c2),
            c2,
        ),
        on_tape(run_expr(expr, env, fuel, first, c1), first),
    decreases fuel, expr, 3nat,
{
    run_expr_unfolds(expr, env, fuel, first, c1);
    run_expr_unfolds(expr, env, fuel, second, c2);
    lemma_same_answers_read(first, c1, second, c2);
    match expr {
        ExprView::Numeric { .. } => {},
        ExprView::Float { .. } => {},
        ExprView::Text { .. } => {},
        ExprView::Identifier { .. } => {},
        ExprView::Object { properties } => {
            lemma_properties_determined(
                properties,
                0,
                env,
                fuel,
                first,
                c1,
                second,
                c2,
                Seq::empty(),
            );
        },
        ExprView::Array { elements } => {
            lemma_elements_determined(elements, 0, env, fuel, first, c1, second, c2, Seq::empty());
        },
        ExprView::Call { .. } => {
            lemma_call_determined(expr, env, fuel, first, c1, second, c2);
        },
        ExprView::Assignment { assignee, value } => {
            if *assignee is Identifier {
                lemma_expr_determined(*value, env, fuel, first, c1, second, c2);
            }
        },
        ExprView::Binary { left, right, .. } => {
            lemma_expr_determined(*left, env, fuel, first, c1, second, c2);
            let a = bounded(fuel, run_expr(*left, env, fuel, first, c1));
            let b = bounded(fuel, run_expr(*left, env, fuel, second, c2));
            if let Some(r) = a {
                if r.outcome is Ok {
                    let s = b->Some_0;
                    lemma_same_answers_further(first, c1, second, c2, r.cursor, s.cursor);
                    lemma_expr_determined(*right, r.env, r.fuel, first, r.cursor, second, s.cursor);
                    let a2 = bounded(r.fuel, run_expr(*right, r.env, r.fuel, first, r.cursor));
                    let b2 = bounded(r.fuel, run_expr(*right, r.env, r.fuel, second, s.cursor));
                    if let Some(r2) = a2 {
                        let s2 = b2->Some_0;
                        lemma_same_answers_further(first, c1, second, c2, r2.cursor, s2.cursor);
                        lemma_same_answers_read(first, r2.cursor, second, s2.cursor);
                    }
                }
            }
        },
        ExprView::Member { object, .. } => {
            lemma_expr_determined(*object, env, fuel, first, c1, second, c2);
        },
        ExprView::Unary { operand, .. } => {
            lemma_expr_determined(*operand, env, fuel, first, c1, second, c2);
        },
        ExprView::IfElse { condition, if_branch, else_branch } => {
            lemma_expr_determined(*condition, env, fuel, first, c1, second, c2);
            let a = bounded(fuel, run_expr(*condition, env, fuel, first, c1));
            let b = bounded(fuel, run_expr(*condition, env, fuel, second, c2));
            if let Some(r) = a {
                let s = b->Some_0;
                lemma_same_answers_further(first, c1, second, c2, r.cursor, s.cursor);
                lemma_block_determined(if_branch, r.env, r.fuel, first, r.cursor, second, s.cursor);
                if let Some(branch) = else_branch {
                    lemma_block_determined(
                        branch,
                        r.env,
                        r.fuel,
                        first,
                        r.cursor,
                        second,
                        s.cursor,
                    );
                }
            }
        },
    }
}

/// The meaning of a list of expressions does not depend on where the
/// answers stand.
pub proof fn lemma_elements_determined(
    elements: Seq<ExprView>,
    from: nat,
    env: EnvironmentView,
    fuel: nat,
    first: Seq<Exchange>,
    c1: nat,
    second: Seq<Exchange>,
    c2: nat,
    acc: Seq<ValueView>,
)
    requires
        same_answers(first, c1, second, c2),
    ensures
        same_run(
            run_elements(elements, from, env, fuel, first, c1, acc),
            c1,
            run_elements(elements, from, env, fuel, second, c2, acc),
            c2,
        ),
        on_tape(run_elements(elements, from, env, fuel, first, c1, acc), first),
    decreases fuel, elements, elements.len() - from,
{
    run_elements_unfolds(elements, from, env, fuel, first, c1, acc);
    run_elements_unfolds(elements, from, env, fuel, second, c2, acc);
    if from < elements.len() {
        lemma_expr_determined(elements[from as int], env, fuel, first, c1, second, c2);
        let a = bounded(fuel, run_expr(elements[from as int], env, fuel, first, c1));
        let b = bounded(fuel, run_expr(elements[from as int], env, fuel, second, c2));
        if let Some(r) = a {
            if let Ok(v) = r.outcome {
                let s = b->Some_0;
                lemma_same_answers_further(first, c1, second, c2, r.cursor, s.cursor);
                lemma_elements_determined(
                    elements,
                    from + 1,
                    r.env,
                    r.fuel,
                    first,
                    r.cursor,
                    second,
                    s.cursor,
                    acc.push(v),
                );
            }
        }
    }
}

/// The meaning of the entries of an object literal does not depend on
/// where the answers stand.
pub proof fn lemma_properties_determined(
    properties: Seq<PropertyView>,
    from: nat,
    env: EnvironmentView,
    fuel: nat,
    first: Seq<Exchange>,
    c1: nat,
    second: Seq<Exchange>,
    c2: nat,
    acc: Seq<(Seq<char>, ValueView)>,
)
    requires
        same_answers(first, c1, second, c2),
    ensures
        same_run(
            run_properties(properties, from, env, fuel, first, c1, acc),
            c1,
            run_properties(properties, from, env, fuel, second, c2, acc),
            c2,
        ),
        on_tape(run_properties(properties, from, env, fuel, first, c1, acc), first),
    decreases fuel, properties, properties.len() - from,
{
    run_properties_unfolds(properties, from, env, fuel, first, c1, acc);
    run_properties_unfolds(properties, from, env, fuel, second, c2, acc);
    if from < properties.len() {
        let key = properties[from as int].key;
        match properties[from as int].value {
            Some(value) => {
                lemma_expr_determined(*value, env, fuel, first, c1, second, c2);
                let a = bounded(fuel, run_expr(*value, env, fuel, first, c1));
                let b = bounded(fuel, run_expr(*value, env, fuel, second, c2));
                if let Some(r) = a {
                    if let Ok(v) = r.outcome {
                        let s = b->Some_0;
                        lemma_same_answers_further(first, c1, second, c2, r.cursor, s.cursor);
                        lemma_properties_determined(
                            properties,
                            from + 1,
                            r.env,
                            r.fuel,
                            first,
                            r.cursor,
                            second,
                            s.cursor,
                            acc.push((key, v)),
                        );
                    }
                }
            },
            None => {
                if let Ok(v) = crate::runtime::environment::looked_up(env, key) {
                    lemma_properties_determined(
                        properties,
                        from + 1,
                        env,
                        fuel,
                        first,
                        c1,
                        second,
                        c2,
                        acc.push((key, v)),
                    );
                }
            },
        }
    }
}

/// The meaning of a call does not depend on where the answers stand.
pub proof fn lemma_call_determined(
    expr: ExprView,
    env: EnvironmentView,
    fuel: nat,
    first: Seq<Exchange>,
    c1: nat,
    second: Seq<Exchange>,
    c2: nat,
)
    requires
        same_answers(first, c1, second, c2),
    ensures
        same_run(
            run_call(expr, env, fuel, first, c1),
            c1,
            run_call(expr, env, fuel, second, c2),
            c2,
        ),
        on_tape(run_call(expr, env, fuel, first, c1), first),
    decreases fuel, expr, 2nat,
{
    run_call_unfolds(expr, env, fuel, first, c1);
    run_call_unfolds(expr, env, fuel, second, c2);
    if let ExprView::Call { args, caller } = expr {
        lemma_elements_determined(args, 0, env, fuel, first, c1, second, c2, Seq::empty());
        let a = bounded(fuel, run_elements(args, 0, env, fuel, first, c1, Seq::empty()));
        let b = bounded(fuel, run_elements(args, 0, env, fuel, second, c2, Seq::empty()));
        if let Some(listed) = a {
            if let Ok(ValueView::Array(values)) = listed.outcome {
                let listed2 = b->Some_0;
                lemma_same_answers_further(first, c1, second, c2, listed.cursor, listed2.cursor);
                lemma_expr_determined(
                    *caller,
                    listed.env,
                    listed.fuel,
                    first,
                    listed.cursor,
                    second,
                    listed2.cursor,
                );
                let ca = bounded(
                    listed.fuel,
                    run_expr(*caller, listed.env, listed.fuel, first, listed.cursor),
                );
                let cb = bounded(
                    listed.fuel,
                    run_expr(*caller, listed.env, listed.fuel, second, listed2.cursor),
                );
                if let Some(r) = ca {
                    let s = cb->Some_0;
                    lemma_same_answers_further(first, c1, second, c2, r.cursor, s.cursor);
                    lemma_same_answers_read(first, r.cursor, second, s.cursor);
                    if let Ok(ValueView::Function { parameters, declaration_env, body }) = r.outcome {
                        if parameters.len() == values.len() && r.fuel > 0 {
                            let less = (r.fuel - 1) as nat;
                            if let Ok(scope) = crate::runtime::semantics::bound(
                                entered(*declaration_env),
                                parameters,
                                values,
                                0,
                            ) {
                                lemma_stmts_determined(
                                    body,
                                    0,
                                    scope,
                                    less,
                                    first,
                                    r.cursor,
                                    second,
                                    s.cursor,
                                    ValueView::Null,
                                );
                            }
                        }
                    }
                }
            }
        }
    }
}


/// Evaluating an expression again gives the same run, if the scopes and
/// the budget are the same again and the host gives the same answers again.
///
/// `before1` and `after1` are the log before and after the one evaluation,
/// `r1` is the run that the evaluator's contract gives it; `before2`,
/// `after2` and `r2` are those of the other. Where the two evaluations
/// added the same exchanges to their logs, the runs are the same: the same
/// value or error, the same scopes, the same steps left.
pub proof fn lemma_evaluated_again(
    expr: ExprView,
    env: EnvironmentView,
    fuel: nat,
    before1: Seq<Exchange>,
    after1: Seq<Exchange>,
    r1: Option<Run>,
    before2: Seq<Exchange>,
    after2: Seq<Exchange>,
    r2: Option<Run>,
)
    requires
        continues(after1, before1),
        continues(after2, before2),
        forall|tape: Seq<Exchange>| #[trigger]
            continues(tape, after1) ==> run_expr(expr, env, fuel, tape, before1.len()) == r1,
        forall|tape: Seq<Exchange>| #[trigger]
            continues(tape, after2) ==> run_expr(expr, env, fuel, tape, before2.len()) == r2,
        after1.skip(before1.len() as int) == after2.skip(before2.len() as int),
    ensures
        same_run(r1, before1.len(), r2, before2.len()),
{
    lemma_continues_itself(after1);
    lemma_continues_itself(after2);
    lemma_continues_length(after1, before1);
    lemma_continues_length(after2, before2);
    lemma_expr_determined(expr, env, fuel, after1, before1.len(), after2, before2.len());
}

} // verus!
