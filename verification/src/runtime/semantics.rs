//! What a program means: the value that evaluation gives, the scopes that
//! it leaves and the steps that it takes, as a function of the program, the
//! scopes, the budget of steps and the answers of the host.
//!
//! The host's answers are read from a tape of exchanges, from a cursor on.
//! Each exchange holds a request and the answer to it. Where the rules ask
//! the host, the exchange under the cursor must hold that very request; the
//! rules then take its answer and move the cursor on. A tape that does not
//! fit has no meaning (`None`).
//!
//! Every call of a function of the program and every turn of a loop takes
//! one step from the budget; with none left the run ends in `OutOfFuel`.
//!
//! Each rule comes as three items: the function itself, say `run_expr`,
//! whose definition is sealed; its rule, `run_expr_rule`, which says what
//! the function is; and a lemma, `run_expr_unfolds`, that turns the one
//! into the other. A proof unfolds the runs that it speaks of, and no
//! others.

use vstd::prelude::*;
use crate::error::RuntimeError;
use crate::frontend::ast::{BinaryOperator, ExprView, PropertyView, StmtView};
use crate::runtime::environment::{assigned, declared, entered, looked_up, EnvironmentView};
use crate::runtime::eval::operators::{asks_host, binary_value, unary_value};
use crate::runtime::values::ValueView;

verus! {

/// One request to the host with the answer that it gave.
#[allow(inconsistent_fields)]
pub enum Exchange {
    /// The number that a literal stands for.
    Number { literal: Seq<char>, answer: Option<u64> },
    /// The result of an arithmetic operation on two numbers.
    Arithmetic { operator: BinaryOperator, lhs: u64, rhs: u64, answer: u64 },
    /// The result of a call of a native function.
    Call {
        function: u64,
        args: Seq<ValueView>,
        scope: Seq<(Seq<char>, ValueView)>,
        answer: Result<ValueView, RuntimeError>,
    },
}

/// Whether the tape `tape` starts with the exchanges `log`.
pub closed spec fn continues(tape: Seq<Exchange>, log: Seq<Exchange>) -> bool {
    log.is_prefix_of(tape)
}

pub proof fn lemma_continues_itself(log: Seq<Exchange>)
    ensures
        continues(log, log),
{
}

pub proof fn lemma_continues_transitive(
    tape: Seq<Exchange>,
    later: Seq<Exchange>,
    log: Seq<Exchange>,
)
    requires
        continues(tape, later),
        continues(later, log),
    ensures
        continues(tape, log),
{
}

/// A tape is at least as long as a log that it continues.
pub proof fn lemma_continues_length(tape: Seq<Exchange>, log: Seq<Exchange>)
    requires
        continues(tape, log),
    ensures
        log.len() <= tape.len(),
{
}

/// A log with one more exchange continues the log.
pub proof fn lemma_continues_pushed(log: Seq<Exchange>, exchange: Exchange)
    ensures
        continues(log.push(exchange), log),
{
}

/// A tape that continues a log with one more exchange holds that exchange
/// behind the log.
pub proof fn lemma_continues_reads(tape: Seq<Exchange>, log: Seq<Exchange>, exchange: Exchange)
    requires
        continues(tape, log.push(exchange)),
    ensures
        log.len() < tape.len(),
        tape[log.len() as int] == exchange,
        continues(tape, log),
{
    let at = log.len() as int;
    assert(tape.subrange(0, at + 1)[at] == log.push(exchange)[at]);
}

/// How an evaluation ended: what it gave, the scopes and the budget that it
/// left, and how far it read the tape.
pub struct Run {
    pub outcome: Result<ValueView, RuntimeError>,
    pub env: EnvironmentView,
    pub fuel: nat,
    pub cursor: nat,
}

/// An evaluation that ended with `outcome`.
pub open spec fn finish(
    outcome: Result<ValueView, RuntimeError>,
    env: EnvironmentView,
    fuel: nat,
    cursor: nat,
) -> Option<Run> {
    Some(Run { outcome, env, fuel, cursor })
}

/// An evaluation that gave `value`.
pub open spec fn done(value: ValueView, env: EnvironmentView, fuel: nat, cursor: nat) -> Option<Run> {
    finish(Ok(value), env, fuel, cursor)
}

/// An evaluation that failed with `error`.
pub open spec fn failed(
    error: RuntimeError,
    env: EnvironmentView,
    fuel: nat,
    cursor: nat,
) -> Option<
    Run,
> {
    finish(Err(error), env, fuel, cursor)
}

/// A run, provided that it left no more than `fuel` steps. Every run
/// does, so this changes no result; it is what shows that the rules end.
pub open spec fn bounded(fuel: nat, r: Option<Run>) -> Option<Run> {
    match r {
        Some(run) => if run.fuel <= fuel {
            r
        } else {
            None
        },
        None => None,
    }
}

/// The scopes around the innermost frame; the outermost frame stays.
pub open spec fn left(env: EnvironmentView) -> EnvironmentView {
    match env.parent {
        Some(outer) => *outer,
        None => env,
    }
}

/// A run of a block, seen from outside the block's frame.
pub open spec fn outside(r: Option<Run>) -> Option<Run> {
    match r {
        Some(
            run) => Some(Run { outcome: run.outcome, env: left(run.env), fuel: run.fuel, cursor: run.cursor },
        ),
        None => None,
    }
}

/// Declares `name` and gives `tyhjä`.
pub open spec fn declare(
    env: EnvironmentView,
    name: Seq<char>,
    value: ValueView,
    constant: bool,
    fuel: nat,
    cursor: nat,
) -> Option<Run> {
    match declared(env, name, value, constant) {
        Ok(after) => done(ValueView::Null, after, fuel, cursor),
        Err(e) => failed(e, env, fuel, cursor),
    }
}

/// Asks the host for the number of a literal.
pub open spec fn ask_number(
    literal: Seq<char>,
    env: EnvironmentView,
    fuel: nat,
    tape: Seq<Exchange>,
    cursor: nat,
) -> Option<Run> {
    if cursor < tape.len() {
        match tape[cursor as int] {
            Exchange::Number { literal: asked, answer } => if asked == literal {
                match answer {
                    Some(bits) => done(ValueView::Number(bits), env, fuel, cursor + 1),
                    None => failed(RuntimeError::InvalidNumber, env, fuel, cursor + 1),
                }
            } else {
                None
            },
            _ => None,
        }
    } else {
        None
    }
}

/// Applies a binary operator to two values, asking the host's arithmetic
/// where [`asks_host`] holds.
pub open spec fn apply(
    operator: BinaryOperator,
    lhs: ValueView,
    rhs: ValueView,
    env: EnvironmentView,
    fuel: nat,
    tape: Seq<Exchange>,
    cursor: nat,
) -> Option<Run> {
    if asks_host(operator, lhs, rhs) {
        if cursor < tape.len() {
            match tape[cursor as int] {
                Exchange::Arithmetic { operator: op, lhs: a, rhs: b, answer } => if op == operator
                    && ValueView::Number(a) == lhs && ValueView::Number(b) == rhs {
                    finish(binary_value(operator, lhs, rhs, answer), env, fuel, cursor + 1)
                } else {
                    None
                },
                _ => None,
            }
        } else {
            None
        }
    } else {
        finish(binary_value(operator, lhs, rhs, 0), env, fuel, cursor)
    }
}

/// Calls a native function through the host.
pub open spec fn call_native(
    function: u64,
    args: Seq<ValueView>,
    env: EnvironmentView,
    fuel: nat,
    tape: Seq<Exchange>,
    cursor: nat,
) -> Option<Run> {
    if cursor < tape.len() {
        match tape[cursor as int] {
            Exchange::Call { function: f, args: a, scope, answer } => if f == function && a == args
                && scope == env.variables {
                finish(answer, env, fuel, cursor + 1)
            } else {
                None
            },
            _ => None,
        }
    } else {
        None
    }
}

/// The scopes `env` with the parameters from `from` on declared in the
/// innermost frame, each with the argument in its place.
pub open spec fn bound(
    env: EnvironmentView,
    parameters: Seq<Seq<char>>,
    args: Seq<ValueView>,
    from: nat,
) -> Result<EnvironmentView, RuntimeError>
    decreases parameters.len() - from,
{
    if from >= parameters.len() || from >= args.len() {
        Ok(env)
    } else {
        match declared(env, parameters[from as int], args[from as int], false) {
            Ok(after) => bound(after, parameters, args, from + 1),
            Err(e) => Err(e),
        }
    }
}

/// The run that ended with the result `r`, the scopes `env`, `fuel` steps
/// left and the log `log`.
pub open spec fn reached(
    r: Result<crate::runtime::values::RuntimeVal, RuntimeError>,
    env: EnvironmentView,
    fuel: u64,
    log: Seq<Exchange>,
) -> Option<Run> {
    finish(crate::runtime::eval::operators::outcome(r), env, fuel as nat, log.len())
}

/// The entry of an object that is named `key`: the first of that name.
pub open spec fn member_value(object: ValueView, key: Seq<char>) -> Result<ValueView, RuntimeError> {
    match object {
        ValueView::Object(entries) => match crate::runtime::environment::binding_index(
            entries,
            key,
            0,
        ) {
            Some(i) => Ok(entries[i].1),
            None => Err(RuntimeError::MissingProperty),
        },
        _ => Err(RuntimeError::NotAnObject),
    }
}

/// The value of a function with these parameters and this body that is
/// declared in the scopes `env`.
pub open spec fn closure(parameters: Seq<Seq<char>>, body: Seq<StmtView>, env: EnvironmentView)
    -> ValueView {
    ValueView::Function { parameters, declaration_env: Box::new(env), body }
}

/// What a statement means. A declaration gives `tyhjä`; a function's value
/// holds the scopes as they are before its declaration.
pub closed spec fn run_stmt(
    stmt: StmtView,
    env: EnvironmentView,
    fuel: nat,
    tape: Seq<Exchange>,
    cursor: nat,
) -> Option<Run>
    decreases fuel, stmt, 3nat, 1nat,
{
    run_stmt_rule(stmt, env, fuel, tape, cursor)
}

/// [`run_stmt`] is what its rule says.
pub proof fn run_stmt_unfolds(
    stmt: StmtView,
    env: EnvironmentView,
    fuel: nat,
    tape: Seq<Exchange>,
    cursor: nat,
)
    ensures
        run_stmt(stmt, env, fuel, tape, cursor) == run_stmt_rule(stmt, env, fuel, tape, cursor),
{
}

/// The rule that defines [`run_stmt`].
pub open spec fn run_stmt_rule(
    stmt: StmtView,
    env: EnvironmentView,
    fuel: nat,
    tape: Seq<Exchange>,
    cursor: nat,
) -> Option<Run>
    decreases fuel, stmt, 3nat, 0nat,
{
    match stmt {
        StmtView::Program { body } => run_stmts(body, 0, env, fuel, tape, cursor, ValueView::Null),
        StmtView::VarDeclaration { constant, identifier, value } => match value {
            Some(initializer) => match bounded(fuel, run_expr(*initializer, env, fuel, tape, cursor)) {
                Some(r) => match r.outcome {
                    Ok(v) => declare(r.env, identifier, v, constant, r.fuel, r.cursor),
                    Err(_) => Some(r),
                },
                None => None,
            },
            None => declare(env, identifier, ValueView::Null, constant, fuel, cursor),
        },
        StmtView::FunctionDeclaration { parameters, name, body } => declare(
            env,
            name,
            closure(parameters, body, env),
            true,
            fuel,
            cursor,
        ),
        StmtView::Expr { expr } => run_expr(*expr, env, fuel, tape, cursor),
        StmtView::WhileLoop { .. } => run_while(stmt, env, fuel, tape, cursor, ValueView::Null),
        StmtView::ForLoop { .. } => outside(run_for(stmt, entered(env), fuel, tape, cursor)),
    }
}

/// What the statements from `from` on mean, evaluated in order in the
/// scopes as they are: the value of the last, or `last` where there is none.
pub closed spec fn run_stmts(
    stmts: Seq<StmtView>,
    from: nat,
    env: EnvironmentView,
    fuel: nat,
    tape: Seq<Exchange>,
    cursor: nat,
    last: ValueView,
) -> Option<Run>
    decreases fuel, stmts, stmts.len() - from, 1nat,
{
    run_stmts_rule(stmts, from, env, fuel, tape, cursor, last)
}

/// [`run_stmts`] is what its rule says.
pub proof fn run_stmts_unfolds(
    stmts: Seq<StmtView>,
    from: nat,
    env: EnvironmentView,
    fuel: nat,
    tape: Seq<Exchange>,
    cursor: nat,
    last: ValueView,
)
    ensures
        run_stmts(
            stmts,
            from,
            env,
            fuel,
            tape,
            cursor,
            last,
        ) == run_stmts_rule(
            stmts,
            from,
            env,
            fuel,
            tape,
            cursor,
            last,
        ),
{
}

/// The rule that defines [`run_stmts`].
pub open spec fn run_stmts_rule(
    stmts: Seq<StmtView>,
    from: nat,
    env: EnvironmentView,
    fuel: nat,
    tape: Seq<Exchange>,
    cursor: nat,
    last: ValueView,
) -> Option<Run>
    decreases fuel, stmts, stmts.len() - from, 0nat,
{
    if from >= stmts.len() {
        done(last, env, fuel, cursor)
    } else {
        match bounded(fuel, run_stmt(stmts[from as int], env, fuel, tape, cursor)) {
            Some(r) => match r.outcome {
                Ok(v) => run_stmts(stmts, from + 1, r.env, r.fuel, tape, r.cursor, v),
                Err(_) => Some(r),
            },
            None => None,
        }
    }
}

/// What a block means: its statements, in a fresh frame that is left when
/// the block ends, however it ends.
pub closed spec fn run_block(
    stmts: Seq<StmtView>,
    env: EnvironmentView,
    fuel: nat,
    tape: Seq<Exchange>,
    cursor: nat,
) -> Option<Run>
    decreases fuel, stmts, stmts.len() + 1, 1nat,
{
    run_block_rule(stmts, env, fuel, tape, cursor)
}

/// [`run_block`] is what its rule says.
pub proof fn run_block_unfolds(
    stmts: Seq<StmtView>,
    env: EnvironmentView,
    fuel: nat,
    tape: Seq<Exchange>,
    cursor: nat,
)
    ensures
        run_block(stmts, env, fuel, tape, cursor) == run_block_rule(stmts, env, fuel, tape, cursor),
{
}

/// The rule that defines [`run_block`].
pub open spec fn run_block_rule(
    stmts: Seq<StmtView>,
    env: EnvironmentView,
    fuel: nat,
    tape: Seq<Exchange>,
    cursor: nat,
) -> Option<Run>
    decreases fuel, stmts, stmts.len() + 1, 0nat,
{
    outside(run_stmts(stmts, 0, entered(env), fuel, tape, cursor, ValueView::Null))
}

/// What the turns of a `kun` loop mean, of which `result` is the value of
/// the last one so far: as long as the condition counts as true, a turn takes
/// one step and evaluates the body as a block.
pub closed spec fn run_while(
    stmt: StmtView,
    env: EnvironmentView,
    fuel: nat,
    tape: Seq<Exchange>,
    cursor: nat,
    result: ValueView,
) -> Option<Run>
    decreases fuel, stmt, 1nat, 1nat,
{
    run_while_rule(stmt, env, fuel, tape, cursor, result)
}

/// [`run_while`] is what its rule says.
pub proof fn run_while_unfolds(
    stmt: StmtView,
    env: EnvironmentView,
    fuel: nat,
    tape: Seq<Exchange>,
    cursor: nat,
    result: ValueView,
)
    ensures
        run_while(
            stmt,
            env,
            fuel,
            tape,
            cursor,
            result,
        ) == run_while_rule(
            stmt,
            env,
            fuel,
            tape,
            cursor,
            result,
        ),
{
}

/// The rule that defines [`run_while`].
pub open spec fn run_while_rule(
    stmt: StmtView,
    env: EnvironmentView,
    fuel: nat,
    tape: Seq<Exchange>,
    cursor: nat,
    result: ValueView,
) -> Option<Run>
    decreases fuel, stmt, 1nat, 0nat,
{
    match stmt {
        StmtView::WhileLoop { condition, body } => match bounded(
            fuel,
            run_expr(*condition, env, fuel, tape, cursor),
        ) {
            Some(r) => match r.outcome {
                Ok(c) => if !crate::runtime::values::truthy(c) {
                    done(result, r.env, r.fuel, r.cursor)
                } else if r.fuel == 0 {
                    failed(RuntimeError::OutOfFuel, r.env, 0, r.cursor)
                } else {
                    match bounded(
                        (r.fuel - 1) as nat,
                        run_block(body, r.env, (r.fuel - 1) as nat, tape, r.cursor),
                    ) {
                        Some(turn) => match turn.outcome {
                            Ok(v) => run_while(stmt, turn.env, turn.fuel, tape, turn.cursor, v),
                            Err(_) => Some(turn),
                        },
                        None => None,
                    }
                },
                Err(_) => Some(r),
            },
            None => None,
        },
        _ => None,
    }
}

/// What a `toista` loop means inside the frame that is opened for it: the
/// declaration of its variable, and then its turns.
pub closed spec fn run_for(
    stmt: StmtView,
    env: EnvironmentView,
    fuel: nat,
    tape: Seq<Exchange>,
    cursor: nat,
) -> Option<Run>
    decreases fuel, stmt, 2nat, 1nat,
{
    run_for_rule(stmt, env, fuel, tape, cursor)
}

/// [`run_for`] is what its rule says.
pub proof fn run_for_unfolds(
    stmt: StmtView,
    env: EnvironmentView,
    fuel: nat,
    tape: Seq<Exchange>,
    cursor: nat,
)
    ensures
        run_for(stmt, env, fuel, tape, cursor) == run_for_rule(stmt, env, fuel, tape, cursor),
{
}

/// The rule that defines [`run_for`].
pub open spec fn run_for_rule(
    stmt: StmtView,
    env: EnvironmentView,
    fuel: nat,
    tape: Seq<Exchange>,
    cursor: nat,
) -> Option<Run>
    decreases fuel, stmt, 2nat, 0nat,
{
    match stmt {
        StmtView::ForLoop { initializer, .. } => match bounded(
            fuel,
            run_stmt(*initializer, env, fuel, tape, cursor),
        ) {
            Some(r) => match r.outcome {
                Ok(_) => run_for_turns(stmt, r.env, r.fuel, tape, r.cursor),
                Err(_) => Some(r),
            },
            None => None,
        },
        _ => None,
    }
}

/// What the turns of a `toista` loop mean: as long as the condition
/// counts as true, a turn takes one step, evaluates the body as a block and
/// then the increment. The loop gives `tyhjä`.
pub closed spec fn run_for_turns(
    stmt: StmtView,
    env: EnvironmentView,
    fuel: nat,
    tape: Seq<Exchange>,
    cursor: nat,
) -> Option<Run>
    decreases fuel, stmt, 1nat, 1nat,
{
    run_for_turns_rule(stmt, env, fuel, tape, cursor)
}

/// [`run_for_turns`] is what its rule says.
pub proof fn run_for_turns_unfolds(
    stmt: StmtView,
    env: EnvironmentView,
    fuel: nat,
    tape: Seq<Exchange>,
    cursor: nat,
)
    ensures
        run_for_turns(
            stmt,
            env,
            fuel,
            tape,
            cursor,
        ) == run_for_turns_rule(
            stmt,
            env,
            fuel,
            tape,
            cursor,
        ),
{
}

/// The rule that defines [`run_for_turns`].
pub open spec fn run_for_turns_rule(
    stmt: StmtView,
    env: EnvironmentView,
    fuel: nat,
    tape: Seq<Exchange>,
    cursor: nat,
) -> Option<Run>
    decreases fuel, stmt, 1nat, 0nat,
{
    match stmt {
        StmtView::ForLoop { condition, increment, body, .. } => match bounded(
            fuel,
            run_expr(*condition, env, fuel, tape, cursor),
        ) {
            Some(r) => match r.outcome {
                Ok(c) => if !crate::runtime::values::truthy(c) {
                    done(ValueView::Null, r.env, r.fuel, r.cursor)
                } else if r.fuel == 0 {
                    failed(RuntimeError::OutOfFuel, r.env, 0, r.cursor)
                } else {
                    match bounded(
                        (r.fuel - 1) as nat,
                        run_block(body, r.env, (r.fuel - 1) as nat, tape, r.cursor),
                    ) {
                        Some(turn) => match turn.outcome {
                            Ok(_) => match bounded(
                                turn.fuel,
                                run_expr(*increment, turn.env, turn.fuel, tape, turn.cursor),
                            ) {
                                Some(stepped) => match stepped.outcome {
                                    Ok(_) => run_for_turns(
                                        stmt,
                                        stepped.env,
                                        stepped.fuel,
                                        tape,
                                        stepped.cursor,
                                    ),
                                    Err(_) => Some(stepped),
                                },
                                None => None,
                            },
                            Err(_) => Some(turn),
                        },
                        None => None,
                    }
                },
                Err(_) => Some(r),
            },
            None => None,
        },
        _ => None,
    }
}

/// What an expression means.
pub closed spec fn run_expr(
    expr: ExprView,
    env: EnvironmentView,
    fuel: nat,
    tape: Seq<Exchange>,
    cursor: nat,
) -> Option<Run>
    decreases fuel, expr, 3nat, 1nat,
{
    run_expr_rule(expr, env, fuel, tape, cursor)
}

/// [`run_expr`] is what its rule says.
pub proof fn run_expr_unfolds(
    expr: ExprView,
    env: EnvironmentView,
    fuel: nat,
    tape: Seq<Exchange>,
    cursor: nat,
)
    ensures
        run_expr(expr, env, fuel, tape, cursor) == run_expr_rule(expr, env, fuel, tape, cursor),
{
}

/// The rule that defines [`run_expr`].
pub open spec fn run_expr_rule(
    expr: ExprView,
    env: EnvironmentView,
    fuel: nat,
    tape: Seq<Exchange>,
    cursor: nat,
) -> Option<Run>
    decreases fuel, expr, 3nat, 0nat,
{
    match expr {
        ExprView::Numeric { value } => ask_number(value, env, fuel, tape, cursor),
        ExprView::Float { value } => ask_number(value, env, fuel, tape, cursor),
        ExprView::Text { value } => done(ValueView::Text(value), env, fuel, cursor),
        ExprView::Identifier { symbol } => finish(looked_up(env, symbol), env, fuel, cursor),
        ExprView::Object { properties } => run_properties(
            properties,
            0,
            env,
            fuel,
            tape,
            cursor,
            Seq::empty(),
        ),
        ExprView::Array { elements } => run_elements(elements, 0, env, fuel, tape, cursor, Seq::empty()),
        ExprView::Call { .. } => run_call(expr, env, fuel, tape, cursor),
        ExprView::Assignment { assignee, value } => match *assignee {
            ExprView::Identifier { symbol } => match bounded(
                fuel,
                run_expr(*value, env, fuel, tape, cursor),
            ) {
                Some(r) => match r.outcome {
                    Ok(v) => match assigned(r.env, symbol, v) {
                        Ok(after) => done(v, after, r.fuel, r.cursor),
                        Err(e) => failed(e, r.env, r.fuel, r.cursor),
                    },
                    Err(_) => Some(r),
                },
                None => None,
            },
            _ => failed(RuntimeError::InvalidAssignmentTarget, env, fuel, cursor),
        },
        ExprView::Binary { left, right, operator } => match bounded(
            fuel,
            run_expr(*left, env, fuel, tape, cursor),
        ) {
            Some(first) => match first.outcome {
                Ok(lhs) => match bounded(
                    first.fuel,
                    run_expr(*right, first.env, first.fuel, tape, first.cursor),
                ) {
                    Some(second) => match second.outcome {
                        Ok(rhs) => apply(
                            operator,
                            lhs,
                            rhs,
                            second.env,
                            second.fuel,
                            tape,
                            second.cursor,
                        ),
                        Err(_) => Some(second),
                    },
                    None => None,
                },
                Err(_) => Some(first),
            },
            None => None,
        },
        ExprView::Member { object, property, .. } => match bounded(
            fuel,
            run_expr(*object, env, fuel, tape, cursor),
        ) {
            Some(r) => match r.outcome {
                Ok(v) => match *property {
                    ExprView::Identifier { symbol } => finish(
                        member_value(v, symbol),
                        r.env,
                        r.fuel,
                        r.cursor,
                    ),
                    _ => failed(RuntimeError::InvalidProperty, r.env, r.fuel, r.cursor),
                },
                Err(_) => Some(r),
            },
            None => None,
        },
        ExprView::Unary { operator, operand } => match bounded(
            fuel,
            run_expr(*operand, env, fuel, tape, cursor),
        ) {
            Some(r) => match r.outcome {
                Ok(v) => finish(unary_value(operator, v), r.env, r.fuel, r.cursor),
                Err(_) => Some(r),
            },
            None => None,
        },
        ExprView::IfElse { condition, if_branch, else_branch } => match bounded(
            fuel,
            run_expr(*condition, env, fuel, tape, cursor),
        ) {
            Some(r) => match r.outcome {
                Ok(ValueView::Bool(true)) => run_block(if_branch, r.env, r.fuel, tape, r.cursor),
                Ok(ValueView::Bool(false)) => match else_branch {
                    Some(branch) => run_block(branch, r.env, r.fuel, tape, r.cursor),
                    None => done(ValueView::Null, r.env, r.fuel, r.cursor),
                },
                Ok(_) => failed(RuntimeError::ConditionNotBool, r.env, r.fuel, r.cursor),
                Err(_) => Some(r),
            },
            None => None,
        },
    }
}

/// What the expressions from `from` on mean, evaluated in order: the array
/// of `acc` and their values.
pub closed spec fn run_elements(
    elements: Seq<ExprView>,
    from: nat,
    env: EnvironmentView,
    fuel: nat,
    tape: Seq<Exchange>,
    cursor: nat,
    acc: Seq<ValueView>,
) -> Option<Run>
    decreases fuel, elements, elements.len() - from, 1nat,
{
    run_elements_rule(elements, from, env, fuel, tape, cursor, acc)
}

/// [`run_elements`] is what its rule says.
pub proof fn run_elements_unfolds(
    elements: Seq<ExprView>,
    from: nat,
    env: EnvironmentView,
    fuel: nat,
    tape: Seq<Exchange>,
    cursor: nat,
    acc: Seq<ValueView>,
)
    ensures
        run_elements(
            elements,
            from,
            env,
            fuel,
            tape,
            cursor,
            acc,
        ) == run_elements_rule(
            elements,
            from,
            env,
            fuel,
            tape,
            cursor,
            acc,
        ),
{
}

/// The rule that defines [`run_elements`].
pub open spec fn run_elements_rule(
    elements: Seq<ExprView>,
    from: nat,
    env: EnvironmentView,
    fuel: nat,
    tape: Seq<Exchange>,
    cursor: nat,
    acc: Seq<ValueView>,
) -> Option<Run>
    decreases fuel, elements, elements.len() - from, 0nat,
{
    if from >= elements.len() {
        done(ValueView::Array(acc), env, fuel, cursor)
    } else {
        match bounded(fuel, run_expr(elements[from as int], env, fuel, tape, cursor)) {
            Some(r) => match r.outcome {
                Ok(
                    v) => run_elements(elements,
                    from + 1,
                    r.env,
                    r.fuel,
                    tape,
                    r.cursor,
                    acc.push(v),
                ),
                Err(_) => Some(r),
            },
            None => None,
        }
    }
}

/// What the entries of an object literal from `from` on mean, evaluated in
/// order: the object of `acc` and their values. An entry without a value
/// takes that of the variable of its name.
pub closed spec fn run_properties(
    properties: Seq<PropertyView>,
    from: nat,
    env: EnvironmentView,
    fuel: nat,
    tape: Seq<Exchange>,
    cursor: nat,
    acc: Seq<(Seq<char>, ValueView)>,
) -> Option<Run>
    decreases fuel, properties, properties.len() - from, 1nat,
{
    run_properties_rule(properties, from, env, fuel, tape, cursor, acc)
}

/// [`run_properties`] is what its rule says.
pub proof fn run_properties_unfolds(
    properties: Seq<PropertyView>,
    from: nat,
    env: EnvironmentView,
    fuel: nat,
    tape: Seq<Exchange>,
    cursor: nat,
    acc: Seq<(Seq<char>, ValueView)>,
)
    ensures
        run_properties(
            properties,
            from,
            env,
            fuel,
            tape,
            cursor,
            acc,
        ) == run_properties_rule(
            properties,
            from,
            env,
            fuel,
            tape,
            cursor,
            acc,
        ),
{
}

/// The rule that defines [`run_properties`].
pub open spec fn run_properties_rule(
    properties: Seq<PropertyView>,
    from: nat,
    env: EnvironmentView,
    fuel: nat,
    tape: Seq<Exchange>,
    cursor: nat,
    acc: Seq<(Seq<char>, ValueView)>,
) -> Option<Run>
    decreases fuel, properties, properties.len() - from, 0nat,
{
    if from >= properties.len() {
        done(ValueView::Object(acc), env, fuel, cursor)
    } else {
        let key = properties[from as int].key;
        match properties[from as int].value {
            Some(value) => match bounded(fuel, run_expr(*value, env, fuel, tape, cursor)) {
                Some(r) => match r.outcome {
                    Ok(v) => run_properties(
                        properties,
                        from + 1,
                        r.env,
                        r.fuel,
                        tape,
                        r.cursor,
                        acc.push((key, v)),
                    ),
                    Err(_) => Some(r),
                },
                None => None,
            },
            None => match looked_up(env, key) {
                Ok(v) => run_properties(
                    properties,
                    from + 1,
                    env,
                    fuel,
                    tape,
                    cursor,
                    acc.push((key, v)),
                ),
                Err(e) => failed(e, env, fuel, cursor),
            },
        }
    }
}

/// What a call means: the arguments are evaluated in order, then the
/// callee. A native function is called through the host. A function of the
/// program must be given as many arguments as it has parameters; the call
/// takes one step, and its body runs in a fresh frame, inside the scopes of
/// its declaration, that binds the parameters. The caller's scopes are as
/// the arguments and the callee left them.
pub closed spec fn run_call(
    expr: ExprView,
    env: EnvironmentView,
    fuel: nat,
    tape: Seq<Exchange>,
    cursor: nat,
) -> Option<Run>
    decreases fuel, expr, 2nat, 1nat,
{
    run_call_rule(expr, env, fuel, tape, cursor)
}

/// [`run_call`] is what its rule says.
pub proof fn run_call_unfolds(
    expr: ExprView,
    env: EnvironmentView,
    fuel: nat,
    tape: Seq<Exchange>,
    cursor: nat,
)
    ensures
        run_call(expr, env, fuel, tape, cursor) == run_call_rule(expr, env, fuel, tape, cursor),
{
}

/// The rule that defines [`run_call`].
pub open spec fn run_call_rule(
    expr: ExprView,
    env: EnvironmentView,
    fuel: nat,
    tape: Seq<Exchange>,
    cursor: nat,
) -> Option<Run>
    decreases fuel, expr, 2nat, 0nat,
{
    match expr {
        ExprView::Call { args, caller } => match bounded(
            fuel,
            run_elements(args, 0, env, fuel, tape, cursor, Seq::empty()),
        ) {
            Some(first) => match first.outcome {
                Ok(ValueView::Array(values)) => match bounded(
                    first.fuel,
                    run_expr(*caller, first.env, first.fuel, tape, first.cursor),
                ) {
                    Some(r) => match r.outcome {
                        Ok(ValueView::NativeFunction(function)) => call_native(
                            function,
                            values,
                            r.env,
                            r.fuel,
                            tape,
                            r.cursor,
                        ),
                        Ok(ValueView::Function { parameters, declaration_env, body }) => if parameters.len()
                            != values.len() {
                            failed(RuntimeError::ArityMismatch, r.env, r.fuel, r.cursor)
                        } else if r.fuel == 0 {
                            failed(RuntimeError::OutOfFuel, r.env, 0, r.cursor)
                        } else {
                            match bound(entered(*declaration_env), parameters, values, 0) {
                                Ok(scope) => match bounded(
                                    (r.fuel - 1) as nat,
                                    run_stmts(
                                        body,
                                        0,
                                        scope,
                                        (r.fuel - 1) as nat,
                                        tape,
                                        r.cursor,
                                        ValueView::Null,
                                    ),
                                ) {
                                    Some(
                                        inner) => finish(inner.outcome,
                                        r.env,
                                        inner.fuel,
                                        inner.cursor,
                                    ),
                                    None => None,
                                },
                                Err(e) => failed(e, r.env, (r.fuel - 1) as nat, r.cursor),
                            }
                        },
                        Ok(_) => failed(RuntimeError::NotCallable, r.env, r.fuel, r.cursor),
                        Err(_) => Some(r),
                    },
                    None => None,
                },
                Ok(_) => None,
                Err(_) => Some(first),
            },
            None => None,
        },
        _ => None,
    }
}

} // verus!
