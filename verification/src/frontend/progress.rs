//! Every construct of the grammar takes tokens.
//!
//! The rules of the grammar pass each result through `advanced`, which
//! drops a result that took no token or ended outside the tokens. No result
//! does: the laws here show that every construct that the grammar accepts
//! ends behind where it starts and inside the tokens, so `advanced` changes
//! nothing.

use vstd::prelude::*;
use crate::error::SyntaxError;
use crate::frontend::ast::{BinaryOperator, ExprView, PropertyView, StmtView};
use crate::frontend::grammar::{
    additive, additive_node, additive_operator, additive_rest, additive_rest_unfolds,
    additive_unfolds, advanced, arguments, arguments_list, arguments_list_unfolds, arguments_rest,
    arguments_rest_unfolds, arguments_unfolds, array, array_unfolds, assignment,
    assignment_unfolds, binary, block, block_unfolds, call, call_member, call_member_unfolds,
    call_unfolds, comparison, comparison_operator, comparison_rest, comparison_rest_unfolds,
    comparison_unfolds, elements, elements_unfolds, expected, exponentiation, exponentiation_rest,
    exponentiation_rest_unfolds, exponentiation_unfolds, expression, expression_unfolds,
    fn_declaration, fn_declaration_unfolds, for_loop, for_loop_unfolds, if_else, if_else_unfolds,
    kind_at, lemma_skip_comments, logical, logical_operator, logical_rest, logical_rest_unfolds,
    logical_unfolds, member, member_rest, member_rest_unfolds, member_unfolds, multiplicative,
    multiplicative_operator, multiplicative_rest, multiplicative_rest_unfolds,
    multiplicative_unfolds, object, object_literal, object_literal_unfolds, object_unfolds,
    operator_at, primary, primary_unfolds, properties, properties_unfolds, skip_comments,
    statement, statement_unfolds, statements, statements_unfolds, text_at, unary,
    unary_operator_at, unary_unfolds, var_declaration, var_declaration_unfolds,
};
use crate::frontend::lexer::{TokenType, TokenView};

verus! {

/// Whether a result of parsing at `pos` ended behind `pos` and inside the
/// tokens.
pub open spec fn consumed<T>(ts: Seq<TokenView>, pos: nat, r: Result<(T, nat), SyntaxError>) -> bool {
    r matches Ok((_, p)) ==> pos < p <= ts.len()
}

/// Whether a result of parsing at `pos` ended at `pos` or behind it, and
/// inside the tokens.
pub open spec fn kept<T>(ts: Seq<TokenView>, pos: nat, r: Result<(T, nat), SyntaxError>) -> bool {
    r matches Ok((_, p)) ==> pos <= p <= ts.len()
}

/// A result that consumed tokens is what `advanced` lets through.
pub proof fn lemma_consumed_advanced<T>(
    ts: Seq<TokenView>,
    pos: nat,
    r: Result<(T, nat), SyntaxError>,
)
    requires
        consumed(ts, pos, r),
    ensures
        advanced(ts, pos, r) == r,
{
}

pub proof fn lemma_primary_consumes(ts: Seq<TokenView>, pos: nat)
    ensures
        consumed(ts, pos, primary(ts, pos)),
    decreases ts.len() - pos, 17nat,
{
    primary_unfolds(ts, pos);
    match kind_at(ts, pos) {
        TokenType::OpenBracket => {
            lemma_array_consumes(ts, pos);
        },
        TokenType::OpenBrace => {
            lemma_object_literal_consumes(ts, pos);
        },
        TokenType::If => {
            lemma_if_else_consumes(ts, pos + 1);
        },
        _ => {},
    }
}

pub proof fn lemma_array_consumes(ts: Seq<TokenView>, pos: nat)
    ensures
        consumed(ts, pos, array(ts, pos)),
    decreases ts.len() - pos, 15nat,
{
    array_unfolds(ts, pos);
    if let Ok(p) = expected(ts, pos, TokenType::OpenBracket) {
        lemma_elements_consumes(ts, p, Seq::empty());
    }
}

pub proof fn lemma_elements_consumes(ts: Seq<TokenView>, pos: nat, acc: Seq<ExprView>)
    ensures
        consumed(ts, pos, elements(ts, pos, acc)),
    decreases ts.len() - pos, 61nat,
{
    elements_unfolds(ts, pos, acc);
    if !(kind_at(ts, pos) == TokenType::EOF || kind_at(ts, pos) == TokenType::CloseBracket) {
        if let Ok((element, p)) = advanced(ts, pos, expression(ts, pos)) {
            if kind_at(ts, p) == TokenType::CloseBracket {
                lemma_elements_consumes(ts, p, acc.push(element));
            } else if let Ok(next) = expected(ts, p, TokenType::Comma) {
                lemma_elements_consumes(ts, next, acc.push(element));
            }
        }
    }
}

pub proof fn lemma_object_literal_consumes(ts: Seq<TokenView>, pos: nat)
    ensures
        consumed(ts, pos, object_literal(ts, pos)),
    decreases ts.len() - pos, 15nat,
{
    object_literal_unfolds(ts, pos);
    if let Ok(p) = expected(ts, pos, TokenType::OpenBrace) {
        lemma_properties_consumes(ts, p, Seq::empty());
    }
}

pub proof fn lemma_properties_consumes(ts: Seq<TokenView>, pos: nat, acc: Seq<PropertyView>)
    ensures
        consumed(ts, pos, properties(ts, pos, acc)),
    decreases ts.len() - pos, 61nat,
{
    properties_unfolds(ts, pos, acc);
    if !(kind_at(ts, pos) == TokenType::EOF || kind_at(ts, pos) == TokenType::CloseBrace) {
        if let Ok(p) = expected(ts, pos, TokenType::Identifier) {
            let key = text_at(ts, pos);
            if kind_at(ts, p) == TokenType::Comma {
                lemma_properties_consumes(ts, p + 1, acc.push(PropertyView { key, value: None }));
            } else if kind_at(ts, p) == TokenType::CloseBrace {
                lemma_properties_consumes(ts, p, acc.push(PropertyView { key, value: None }));
            } else if let Ok(at2) = expected(ts, p, TokenType::Colon) {
                if let Ok((value, at3)) = advanced(ts, at2, expression(ts, at2)) {
                    let entry = PropertyView { key, value: Some(Box::new(value)) };
                    if kind_at(ts, at3) == TokenType::CloseBrace {
                        lemma_properties_consumes(ts, at3, acc.push(entry));
                    } else if let Ok(next) = expected(ts, at3, TokenType::Comma) {
                        lemma_properties_consumes(ts, next, acc.push(entry));
                    }
                }
            }
        }
    }
}

pub proof fn lemma_member_consumes(ts: Seq<TokenView>, pos: nat)
    ensures
        consumed(ts, pos, member(ts, pos)),
    decreases ts.len() - pos, 19nat,
{
    member_unfolds(ts, pos);
    if let Ok((object, p)) = advanced(ts, pos, primary(ts, pos)) {
        lemma_member_rest_consumes(ts, p, object);
    }
}

pub proof fn lemma_member_rest_consumes(ts: Seq<TokenView>, pos: nat, object: ExprView)
    requires
        pos <= ts.len(),
    ensures
        kept(ts, pos, member_rest(ts, pos, object)),
    decreases ts.len() - pos, 61nat,
{
    member_rest_unfolds(ts, pos, object);
    if kind_at(ts, pos) == TokenType::Dot {
        if let Ok((property, p)) = advanced(ts, pos + 1, primary(ts, pos + 1)) {
            if property is Identifier {
                lemma_member_rest_consumes(
                    ts,
                    p,
                    ExprView::Member {
                        object: Box::new(object),
                        property: Box::new(property),
                        computed: false,
                    },
                );
            }
        }
    } else if kind_at(ts, pos) == TokenType::OpenBracket {
        if let Ok((property, p)) = advanced(ts, pos + 1, expression(ts, pos + 1)) {
            if let Ok(next) = expected(ts, p, TokenType::CloseBracket) {
                lemma_member_rest_consumes(
                    ts,
                    next,
                    ExprView::Member {
                        object: Box::new(object),
                        property: Box::new(property),
                        computed: true,
                    },
                );
            }
        }
    }
}

pub proof fn lemma_arguments_consumes(ts: Seq<TokenView>, pos: nat)
    ensures
        consumed(ts, pos, arguments(ts, pos)),
    decreases ts.len() - pos, 59nat,
{
    arguments_unfolds(ts, pos);
}

pub proof fn lemma_arguments_list_consumes(ts: Seq<TokenView>, pos: nat)
    ensures
        consumed(ts, pos, arguments_list(ts, pos)),
    decreases ts.len() - pos, 57nat,
{
    arguments_list_unfolds(ts, pos);
    if let Ok((first, p)) = advanced(ts, pos, assignment(ts, pos)) {
        lemma_arguments_rest_consumes(ts, p, seq![first]);
    }
}

pub proof fn lemma_arguments_rest_consumes(ts: Seq<TokenView>, pos: nat, acc: Seq<ExprView>)
    requires
        pos <= ts.len(),
    ensures
        kept(ts, pos, arguments_rest(ts, pos, acc)),
    decreases ts.len() - pos, 61nat,
{
    arguments_rest_unfolds(ts, pos, acc);
    if kind_at(ts, pos) == TokenType::Comma {
        if let Ok((argument, p)) = advanced(ts, pos + 1, assignment(ts, pos + 1)) {
            lemma_arguments_rest_consumes(ts, p, acc.push(argument));
        }
    }
}

pub proof fn lemma_call_consumes(ts: Seq<TokenView>, pos: nat, caller: ExprView)
    ensures
        consumed(ts, pos, call(ts, pos, caller)),
    decreases ts.len() - pos, 61nat,
{
    call_unfolds(ts, pos, caller);
    if let Ok((args, p)) = advanced(ts, pos, arguments(ts, pos)) {
        if kind_at(ts, p) == TokenType::OpenParen {
            lemma_call_consumes(ts, p, ExprView::Call { args, caller: Box::new(caller) });
        }
    }
}

pub proof fn lemma_call_member_consumes(ts: Seq<TokenView>, pos: nat)
    ensures
        consumed(ts, pos, call_member(ts, pos)),
    decreases ts.len() - pos, 21nat,
{
    call_member_unfolds(ts, pos);
    if let Ok((callee, p)) = advanced(ts, pos, member(ts, pos)) {
        if kind_at(ts, p) == TokenType::OpenParen {
            lemma_call_consumes(ts, p, callee);
        }
    }
}

pub proof fn lemma_unary_consumes(ts: Seq<TokenView>, pos: nat)
    ensures
        consumed(ts, pos, unary(ts, pos)),
    decreases ts.len() - pos, 23nat,
{
    unary_unfolds(ts, pos);
    if !unary_operator_at(ts, pos) {
        lemma_call_member_consumes(ts, pos);
    }
}

pub proof fn lemma_exponentiation_consumes(ts: Seq<TokenView>, pos: nat)
    ensures
        consumed(ts, pos, exponentiation(ts, pos)),
    decreases ts.len() - pos, 25nat,
{
    exponentiation_unfolds(ts, pos);
    if let Ok((left, p)) = advanced(ts, pos, unary(ts, pos)) {
        lemma_exponentiation_rest_consumes(ts, p, left);
    }
}

pub proof fn lemma_exponentiation_rest_consumes(ts: Seq<TokenView>, pos: nat, left: ExprView)
    requires
        pos <= ts.len(),
    ensures
        kept(ts, pos, exponentiation_rest(ts, pos, left)),
    decreases ts.len() - pos, 61nat,
{
    exponentiation_rest_unfolds(ts, pos, left);
    if operator_at(ts, pos, "**"@) {
        if let Ok((right, p)) = advanced(ts, pos + 1, unary(ts, pos + 1)) {
            lemma_exponentiation_rest_consumes(
                ts,
                p,
                binary(left, right, BinaryOperator::Exponent),
            );
        }
    }
}

pub proof fn lemma_multiplicative_consumes(ts: Seq<TokenView>, pos: nat)
    ensures
        consumed(ts, pos, multiplicative(ts, pos)),
    decreases ts.len() - pos, 27nat,
{
    multiplicative_unfolds(ts, pos);
    if let Ok((left, p)) = advanced(ts, pos, exponentiation(ts, pos)) {
        lemma_multiplicative_rest_consumes(ts, p, left);
    }
}

pub proof fn lemma_multiplicative_rest_consumes(ts: Seq<TokenView>, pos: nat, left: ExprView)
    requires
        pos <= ts.len(),
    ensures
        kept(ts, pos, multiplicative_rest(ts, pos, left)),
    decreases ts.len() - pos, 61nat,
{
    multiplicative_rest_unfolds(ts, pos, left);
    if let Some(found) = multiplicative_operator(ts, pos) {
        if let Ok((right, p)) = advanced(ts, pos + 1, exponentiation(ts, pos + 1)) {
            lemma_multiplicative_rest_consumes(ts, p, binary(left, right, found));
        }
    }
}

pub proof fn lemma_additive_consumes(ts: Seq<TokenView>, pos: nat)
    ensures
        consumed(ts, pos, additive(ts, pos)),
    decreases ts.len() - pos, 29nat,
{
    additive_unfolds(ts, pos);
    if let Ok((left, p)) = advanced(ts, pos, multiplicative(ts, pos)) {
        lemma_additive_rest_consumes(ts, p, left);
    }
}

pub proof fn lemma_additive_rest_consumes(ts: Seq<TokenView>, pos: nat, left: ExprView)
    requires
        pos <= ts.len(),
    ensures
        kept(ts, pos, additive_rest(ts, pos, left)),
    decreases ts.len() - pos, 61nat,
{
    additive_rest_unfolds(ts, pos, left);
    if let Some(found) = additive_operator(ts, pos) {
        if let Ok((right, p)) = advanced(ts, pos + 1, multiplicative(ts, pos + 1)) {
            lemma_additive_rest_consumes(ts, p, additive_node(left, right, found.0, found.1));
        }
    }
}

pub proof fn lemma_logical_consumes(ts: Seq<TokenView>, pos: nat)
    ensures
        consumed(ts, pos, logical(ts, pos)),
    decreases ts.len() - pos, 31nat,
{
    logical_unfolds(ts, pos);
    if let Ok((left, p)) = advanced(ts, pos, additive(ts, pos)) {
        lemma_logical_rest_consumes(ts, p, left);
    }
}

pub proof fn lemma_logical_rest_consumes(ts: Seq<TokenView>, pos: nat, left: ExprView)
    requires
        pos <= ts.len(),
    ensures
        kept(ts, pos, logical_rest(ts, pos, left)),
    decreases ts.len() - pos, 61nat,
{
    logical_rest_unfolds(ts, pos, left);
    if let Some(found) = logical_operator(ts, pos) {
        if let Ok((right, p)) = advanced(ts, pos + 1, additive(ts, pos + 1)) {
            lemma_logical_rest_consumes(ts, p, binary(left, right, found));
        }
    }
}

pub proof fn lemma_comparison_consumes(ts: Seq<TokenView>, pos: nat)
    ensures
        consumed(ts, pos, comparison(ts, pos)),
    decreases ts.len() - pos, 33nat,
{
    comparison_unfolds(ts, pos);
    if let Ok((left, p)) = advanced(ts, pos, logical(ts, pos)) {
        lemma_comparison_rest_consumes(ts, p, left);
    }
}

pub proof fn lemma_comparison_rest_consumes(ts: Seq<TokenView>, pos: nat, left: ExprView)
    requires
        pos <= ts.len(),
    ensures
        kept(ts, pos, comparison_rest(ts, pos, left)),
    decreases ts.len() - pos, 61nat,
{
    comparison_rest_unfolds(ts, pos, left);
    if let Some(found) = comparison_operator(ts, pos) {
        if let Ok((right, p)) = advanced(ts, pos + 1, logical(ts, pos + 1)) {
            lemma_comparison_rest_consumes(ts, p, binary(left, right, found));
        }
    }
}

pub proof fn lemma_object_consumes(ts: Seq<TokenView>, pos: nat)
    ensures
        consumed(ts, pos, object(ts, pos)),
    decreases ts.len() - pos, 35nat,
{
    object_unfolds(ts, pos);
    if kind_at(ts, pos) == TokenType::OpenBrace {
        lemma_object_literal_consumes(ts, pos);
    } else {
        lemma_comparison_consumes(ts, pos);
    }
}

pub proof fn lemma_assignment_consumes(ts: Seq<TokenView>, pos: nat)
    ensures
        consumed(ts, pos, assignment(ts, pos)),
    decreases ts.len() - pos, 37nat,
{
    assignment_unfolds(ts, pos);
}

/// Every expression takes at least one token and ends inside the tokens.
pub proof fn lemma_expression_consumes(ts: Seq<TokenView>, pos: nat)
    ensures
        consumed(ts, pos, expression(ts, pos)),
    decreases ts.len() - pos, 39nat,
{
    expression_unfolds(ts, pos);
    let start = skip_comments(ts, pos);
    lemma_skip_comments(ts, pos);
    if kind_at(ts, start) == TokenType::If {
        lemma_if_else_consumes(ts, start + 1);
    } else if kind_at(ts, start) == TokenType::OpenBrace {
        lemma_object_consumes(ts, start);
    } else {
        lemma_assignment_consumes(ts, start);
    }
}

pub proof fn lemma_if_else_consumes(ts: Seq<TokenView>, pos: nat)
    ensures
        consumed(ts, pos, if_else(ts, pos)),
    decreases ts.len() - pos, 59nat,
{
    if_else_unfolds(ts, pos);
}

pub proof fn lemma_block_consumes(ts: Seq<TokenView>, pos: nat)
    ensures
        consumed(ts, pos, block(ts, pos)),
    decreases ts.len() - pos, 59nat,
{
    block_unfolds(ts, pos);
    if let Ok(p) = expected(ts, pos, TokenType::OpenBrace) {
        lemma_statements_consumes(ts, p, Seq::empty());
    }
}

pub proof fn lemma_statements_consumes(ts: Seq<TokenView>, pos: nat, acc: Seq<StmtView>)
    ensures
        consumed(ts, pos, statements(ts, pos, acc)),
    decreases ts.len() - pos, 65nat,
{
    statements_unfolds(ts, pos, acc);
    if kind_at(ts, pos) != TokenType::CloseBrace && kind_at(ts, pos) != TokenType::EOF {
        if let Ok((s, p)) = advanced(ts, pos, statement(ts, pos)) {
            lemma_statements_consumes(ts, p, acc.push(s));
        }
    }
}

pub proof fn lemma_var_declaration_consumes(ts: Seq<TokenView>, pos: nat)
    ensures
        consumed(ts, pos, var_declaration(ts, pos)),
    decreases ts.len() - pos, 59nat,
{
    var_declaration_unfolds(ts, pos);
}

pub proof fn lemma_fn_declaration_consumes(ts: Seq<TokenView>, pos: nat)
    ensures
        consumed(ts, pos, fn_declaration(ts, pos)),
    decreases ts.len() - pos, 59nat,
{
    fn_declaration_unfolds(ts, pos);
}

pub proof fn lemma_for_loop_consumes(ts: Seq<TokenView>, pos: nat)
    ensures
        consumed(ts, pos, for_loop(ts, pos)),
    decreases ts.len() - pos, 59nat,
{
    for_loop_unfolds(ts, pos);
}

/// Every statement takes at least one token and ends inside the tokens.
pub proof fn lemma_statement_consumes(ts: Seq<TokenView>, pos: nat)
    ensures
        consumed(ts, pos, statement(ts, pos)),
    decreases ts.len() - pos, 63nat,
{
    statement_unfolds(ts, pos);
    match kind_at(ts, pos) {
        TokenType::If => {
            lemma_if_else_consumes(ts, pos + 1);
        },
        TokenType::While => {
            if let Ok((condition, p)) = advanced(ts, pos + 1, expression(ts, pos + 1)) {
                lemma_block_consumes(ts, p);
            }
        },
        TokenType::For => {
            lemma_for_loop_consumes(ts, pos + 1);
        },
        TokenType::Let | TokenType::Const => {
            lemma_var_declaration_consumes(ts, pos);
        },
        TokenType::Fn => {
            lemma_fn_declaration_consumes(ts, pos);
        },
        _ => {
            lemma_expression_consumes(ts, pos);
        },
    }
}

} // verus!
