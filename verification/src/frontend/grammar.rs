//! The grammar: which syntax tree a token sequence stands for.
//!
//! Every function here takes the tokens and a position and gives the tree
//! of the construct that starts there together with the position behind it,
//! or the first violation. Binding, from tightest to loosest: primary,
//! member access, call, unary `-` and `!`, `**`, `* / %`, `+ - += -=`,
//! `&& ||`, comparison, assignment. All binary operators associate to the
//! left, `**` too; assignment associates to the right.
//!
//! Each construct comes as three items: the function itself, say
//! `statement`, whose definition is sealed; its rule, `statement_rule`,
//! which says what the function is in terms of the other constructs; and a
//! lemma, `statement_unfolds`, that turns the one into the other. A proof
//! unfolds the constructs that it speaks of, and no others.

use vstd::prelude::*;
use crate::error::SyntaxError;
use crate::frontend::ast::{BinaryOperator, ExprView, PropertyView, StmtView};
use crate::frontend::lexer::{end_of_file, TokenType, TokenView};

verus! {

/// The token at `pos`; behind the last token stands the `EOF` token.
pub open spec fn token_at(ts: Seq<TokenView>, pos: nat) -> TokenView {
    if pos < ts.len() {
        ts[pos as int]
    } else {
        end_of_file()
    }
}

pub open spec fn kind_at(ts: Seq<TokenView>, pos: nat) -> TokenType {
    token_at(ts, pos).token_type
}

pub open spec fn text_at(ts: Seq<TokenView>, pos: nat) -> Seq<char> {
    token_at(ts, pos).value
}

/// The position behind the token at `pos`.
pub open spec fn behind(ts: Seq<TokenView>, pos: nat) -> nat {
    if pos < ts.len() {
        pos + 1
    } else {
        pos
    }
}

/// Consumes the token at `pos`, which must be of class `kind`.
pub open spec fn expected(ts: Seq<TokenView>, pos: nat, kind: TokenType) -> Result<
    nat,
    SyntaxError,
> {
    if kind_at(ts, pos) == kind {
        Ok(behind(ts, pos))
    } else {
        Err(SyntaxError::ExpectedToken { expected: kind, position: pos as usize })
    }
}

/// Whether the token at `pos` is the operator spelled `text`.
pub open spec fn operator_at(ts: Seq<TokenView>, pos: nat, text: Seq<char>) -> bool {
    kind_at(ts, pos) == TokenType::BinaryOperator && text_at(ts, pos) == text
}

/// A result of parsing at `pos`, provided that it consumed at least one
/// token and stayed inside the sequence. Every construct of the grammar
/// does, so this changes no result; it is what shows that the grammar's
/// definitions end.
pub open spec fn advanced<T>(ts: Seq<TokenView>, pos: nat, r: Result<(T, nat), SyntaxError>)
    -> Result<(T, nat), SyntaxError> {
    match r {
        Ok((_, p)) => if pos < p <= ts.len() {
            r
        } else {
            Err(SyntaxError::UnexpectedToken { position: pos as usize })
        },
        Err(_) => r,
    }
}

pub open spec fn comparison_operator(ts: Seq<TokenView>, pos: nat) -> Option<BinaryOperator> {
    match kind_at(ts, pos) {
        TokenType::Equal => Some(BinaryOperator::Equal),
        TokenType::NotEqual => Some(BinaryOperator::NotEqual),
        TokenType::LessThan => Some(BinaryOperator::LessThan),
        TokenType::GreaterThan => Some(BinaryOperator::GreaterThan),
        TokenType::LessThanOrEqual => Some(BinaryOperator::LessThanOrEqual),
        TokenType::GreaterThanOrEqual => Some(BinaryOperator::GreaterThanOrEqual),
        _ => None,
    }
}

pub open spec fn logical_operator(ts: Seq<TokenView>, pos: nat) -> Option<BinaryOperator> {
    if operator_at(ts, pos, "&&"@) {
        Some(BinaryOperator::And)
    } else if operator_at(ts, pos, "||"@) {
        Some(BinaryOperator::Or)
    } else {
        None
    }
}

/// The additive operator at `pos`, and whether it is the compound form
/// (`+=`, `-=`), which also assigns.
pub open spec fn additive_operator(ts: Seq<TokenView>, pos: nat) -> Option<(BinaryOperator, bool)> {
    if operator_at(ts, pos, "+"@) {
        Some((BinaryOperator::Add, false))
    } else if operator_at(ts, pos, "-"@) {
        Some((BinaryOperator::Subtract, false))
    } else if kind_at(ts, pos) == TokenType::PlusEqual {
        Some((BinaryOperator::Add, true))
    } else if kind_at(ts, pos) == TokenType::MinusEqual {
        Some((BinaryOperator::Subtract, true))
    } else {
        None
    }
}

pub open spec fn multiplicative_operator(ts: Seq<TokenView>, pos: nat) -> Option<BinaryOperator> {
    if operator_at(ts, pos, "*"@) {
        Some(BinaryOperator::Multiply)
    } else if operator_at(ts, pos, "/"@) {
        Some(BinaryOperator::Divide)
    } else if operator_at(ts, pos, "%"@) {
        Some(BinaryOperator::Modulus)
    } else {
        None
    }
}

pub open spec fn unary_operator_at(ts: Seq<TokenView>, pos: nat) -> bool {
    operator_at(ts, pos, "-"@) || operator_at(ts, pos, "!"@)
}

pub open spec fn binary(left: ExprView, right: ExprView, operator: BinaryOperator) -> ExprView {
    ExprView::Binary { left: Box::new(left), right: Box::new(right), operator }
}

/// What an additive operator makes of its operands: a binary expression,
/// or, for the compound form, the assignment of that expression to the left
/// operand.
pub open spec fn additive_node(
    left: ExprView,
    right: ExprView,
    operator: BinaryOperator,
    compound: bool,
)
    -> ExprView {
    if compound {
        ExprView::Assignment {
            assignee: Box::new(left),
            value: Box::new(binary(left, right, operator)),
        }
    } else {
        binary(left, right, operator)
    }
}

/// The names of a parameter list, if every entry is a name.
pub open spec fn parameter_names(args: Seq<ExprView>) -> Option<Seq<Seq<char>>> {
    if forall|i: int| 0 <= i < args.len() ==> (#[trigger] args[i]) is Identifier {
        Some(Seq::new(args.len(), |i: int| args[i]->symbol))
    } else {
        None
    }
}

/// The first position from `pos` on whose token is no comment token.
pub open spec fn skip_comments(ts: Seq<TokenView>, pos: nat) -> nat
    decreases ts.len() - pos,
{
    if pos < ts.len() && (kind_at(ts, pos) == TokenType::SingleLineComment || kind_at(ts, pos)
        == TokenType::MultiLineComment) {
        skip_comments(ts, pos + 1)
    } else {
        pos
    }
}

pub proof fn lemma_skip_comments(ts: Seq<TokenView>, pos: nat)
    ensures
        pos <= skip_comments(ts, pos),
        pos <= ts.len() ==> skip_comments(ts, pos) <= ts.len(),
        kind_at(ts, skip_comments(ts, pos)) != TokenType::SingleLineComment,
        kind_at(ts, skip_comments(ts, pos)) != TokenType::MultiLineComment,
    decreases ts.len() - pos,
{
    if pos < ts.len() && (kind_at(ts, pos) == TokenType::SingleLineComment || kind_at(ts, pos)
        == TokenType::MultiLineComment) {
        lemma_skip_comments(ts, pos + 1);
    }
}

/// A primary expression: a name, a literal, an array literal, an object
/// literal, an expression in parentheses, or `jos ...`.
pub closed spec fn primary(ts: Seq<TokenView>, pos: nat) -> Result<(ExprView, nat), SyntaxError>
    decreases ts.len() - pos, 17nat,
{
    primary_rule(ts, pos)
}

/// [`primary`] is what its rule says.
pub proof fn primary_unfolds(ts: Seq<TokenView>, pos: nat)
    ensures
        primary(ts, pos) == primary_rule(ts, pos),
{
}

/// The rule that defines [`primary`].
pub open spec fn primary_rule(ts: Seq<TokenView>, pos: nat) -> Result<(ExprView, nat), SyntaxError>
    decreases ts.len() - pos, 16nat,
{
    match kind_at(ts, pos) {
        TokenType::Identifier => Ok((ExprView::Identifier { symbol: text_at(ts, pos) }, pos + 1)),
        TokenType::Integer => Ok((ExprView::Numeric { value: text_at(ts, pos) }, pos + 1)),
        TokenType::Float => Ok((ExprView::Float { value: text_at(ts, pos) }, pos + 1)),
        TokenType::StringLiteral => Ok((ExprView::Text { value: text_at(ts, pos) }, pos + 1)),
        TokenType::OpenBracket => array(ts, pos),
        TokenType::OpenBrace => object_literal(ts, pos),
        TokenType::If => if_else(ts, pos + 1),
        TokenType::OpenParen => match advanced(ts, pos + 1, expression(ts, pos + 1)) {
            Err(e) => Err(e),
            Ok((inner, p)) => match expected(ts, p, TokenType::CloseParen) {
                Err(e) => Err(e),
                Ok(end) => Ok((inner, end)),
            },
        },
        _ => Err(SyntaxError::UnexpectedToken { position: pos as usize }),
    }
}

/// `[ element, ... ]`; a comma may follow the last element.
pub closed spec fn array(ts: Seq<TokenView>, pos: nat) -> Result<(ExprView, nat), SyntaxError>
    decreases ts.len() - pos, 15nat,
{
    array_rule(ts, pos)
}

/// [`array`] is what its rule says.
pub proof fn array_unfolds(ts: Seq<TokenView>, pos: nat)
    ensures
        array(ts, pos) == array_rule(ts, pos),
{
}

/// The rule that defines [`array`].
pub open spec fn array_rule(ts: Seq<TokenView>, pos: nat) -> Result<(ExprView, nat), SyntaxError>
    decreases ts.len() - pos, 14nat,
{
    match expected(ts, pos, TokenType::OpenBracket) {
        Err(e) => Err(e),
        Ok(p) => elements(ts, p, Seq::empty()),
    }
}

/// The rest of an array literal behind the elements `acc`.
pub closed spec fn elements(ts: Seq<TokenView>, pos: nat, acc: Seq<ExprView>) -> Result<
    (ExprView, nat),
    SyntaxError,
>
    decreases ts.len() - pos, 61nat,
{
    elements_rule(ts, pos, acc)
}

/// [`elements`] is what its rule says.
pub proof fn elements_unfolds(ts: Seq<TokenView>, pos: nat, acc: Seq<ExprView>)
    ensures
        elements(ts, pos, acc) == elements_rule(ts, pos, acc),
{
}

/// The rule that defines [`elements`].
pub open spec fn elements_rule(ts: Seq<TokenView>, pos: nat, acc: Seq<ExprView>) -> Result<
    (ExprView, nat),
    SyntaxError,
>
    decreases ts.len() - pos, 60nat,
{
    if kind_at(ts, pos) == TokenType::EOF || kind_at(ts, pos) == TokenType::CloseBracket {
        match expected(ts, pos, TokenType::CloseBracket) {
            Err(e) => Err(e),
            Ok(end) => Ok((ExprView::Array { elements: acc }, end)),
        }
    } else {
        match advanced(ts, pos, expression(ts, pos)) {
            Err(e) => Err(e),
            Ok((element, p)) => if kind_at(ts, p) == TokenType::CloseBracket {
                elements(ts, p, acc.push(element))
            } else {
                match expected(ts, p, TokenType::Comma) {
                    Err(e) => Err(e),
                    Ok(next) => elements(ts, next, acc.push(element)),
                }
            },
        }
    }
}

/// `{ key: value, key, ... }`; a comma may follow the last entry.
pub closed spec fn object_literal(ts: Seq<TokenView>, pos: nat) -> Result<
    (ExprView, nat),
    SyntaxError,
>
    decreases ts.len() - pos, 15nat,
{
    object_literal_rule(ts, pos)
}

/// [`object_literal`] is what its rule says.
pub proof fn object_literal_unfolds(ts: Seq<TokenView>, pos: nat)
    ensures
        object_literal(ts, pos) == object_literal_rule(ts, pos),
{
}

/// The rule that defines [`object_literal`].
pub open spec fn object_literal_rule(ts: Seq<TokenView>, pos: nat) -> Result<
    (ExprView, nat),
    SyntaxError,
>
    decreases ts.len() - pos, 14nat,
{
    match expected(ts, pos, TokenType::OpenBrace) {
        Err(e) => Err(e),
        Ok(p) => properties(ts, p, Seq::empty()),
    }
}

/// The rest of an object literal behind the entries `acc`.
pub closed spec fn properties(ts: Seq<TokenView>, pos: nat, acc: Seq<PropertyView>) -> Result<
    (ExprView, nat),
    SyntaxError,
>
    decreases ts.len() - pos, 61nat,
{
    properties_rule(ts, pos, acc)
}

/// [`properties`] is what its rule says.
pub proof fn properties_unfolds(ts: Seq<TokenView>, pos: nat, acc: Seq<PropertyView>)
    ensures
        properties(ts, pos, acc) == properties_rule(ts, pos, acc),
{
}

/// The rule that defines [`properties`].
pub open spec fn properties_rule(ts: Seq<TokenView>, pos: nat, acc: Seq<PropertyView>) -> Result<
    (ExprView, nat),
    SyntaxError,
>
    decreases ts.len() - pos, 60nat,
{
    if kind_at(ts, pos) == TokenType::EOF || kind_at(ts, pos) == TokenType::CloseBrace {
        match expected(ts, pos, TokenType::CloseBrace) {
            Err(e) => Err(e),
            Ok(end) => Ok((ExprView::Object { properties: acc }, end)),
        }
    } else {
        match expected(ts, pos, TokenType::Identifier) {
            Err(e) => Err(e),
            Ok(p) => {
                let key = text_at(ts, pos);
                if kind_at(ts, p) == TokenType::Comma {
                    properties(ts, p + 1, acc.push(PropertyView { key, value: None }))
                } else if kind_at(ts, p) == TokenType::CloseBrace {
                    properties(ts, p, acc.push(PropertyView { key, value: None }))
                } else {
                    match expected(ts, p, TokenType::Colon) {
                        Err(e) => Err(e),
                        Ok(at2) => match advanced(ts, at2, expression(ts, at2)) {
                            Err(e) => Err(e),
                            Ok((value, at3)) => {
                                let entry = PropertyView { key, value: Some(Box::new(value)) };
                                if kind_at(ts, at3) == TokenType::CloseBrace {
                                    properties(ts, at3, acc.push(entry))
                                } else {
                                    match expected(ts, at3, TokenType::Comma) {
                                        Err(e) => Err(e),
                                        Ok(next) => properties(ts, next, acc.push(entry)),
                                    }
                                }
                            },
                        },
                    }
                }
            },
        }
    }
}

/// A primary expression and the accesses `.name` and `[expression]` behind it.
pub closed spec fn member(ts: Seq<TokenView>, pos: nat) -> Result<(ExprView, nat), SyntaxError>
    decreases ts.len() - pos, 19nat,
{
    member_rule(ts, pos)
}

/// [`member`] is what its rule says.
pub proof fn member_unfolds(ts: Seq<TokenView>, pos: nat)
    ensures
        member(ts, pos) == member_rule(ts, pos),
{
}

/// The rule that defines [`member`].
pub open spec fn member_rule(ts: Seq<TokenView>, pos: nat) -> Result<(ExprView, nat), SyntaxError>
    decreases ts.len() - pos, 18nat,
{
    match advanced(ts, pos, primary(ts, pos)) {
        Err(e) => Err(e),
        Ok((object, p)) => member_rest(ts, p, object),
    }
}

pub closed spec fn member_rest(ts: Seq<TokenView>, pos: nat, object: ExprView) -> Result<
    (ExprView, nat),
    SyntaxError,
>
    decreases ts.len() - pos, 61nat,
{
    member_rest_rule(ts, pos, object)
}

/// [`member_rest`] is what its rule says.
pub proof fn member_rest_unfolds(ts: Seq<TokenView>, pos: nat, object: ExprView)
    ensures
        member_rest(ts, pos, object) == member_rest_rule(ts, pos, object),
{
}

/// The rule that defines [`member_rest`].
pub open spec fn member_rest_rule(ts: Seq<TokenView>, pos: nat, object: ExprView) -> Result<
    (ExprView, nat),
    SyntaxError,
>
    decreases ts.len() - pos, 60nat,
{
    if kind_at(ts, pos) == TokenType::Dot {
        match advanced(ts, pos + 1, primary(ts, pos + 1)) {
            Err(e) => Err(e),
            Ok((property, p)) => if property is Identifier {
                member_rest(
                    ts,
                    p,
                    ExprView::Member {
                        object: Box::new(object),
                        property: Box::new(property),
                        computed: false,
                    },
                )
            } else {
                Err(
                    SyntaxError::ExpectedToken {
                        expected: TokenType::Identifier,
                        position: (pos + 1) as usize,
                    },
                )
            },
        }
    } else if kind_at(ts, pos) == TokenType::OpenBracket {
        match advanced(ts, pos + 1, expression(ts, pos + 1)) {
            Err(e) => Err(e),
            Ok((property, p)) => match expected(ts, p, TokenType::CloseBracket) {
                Err(e) => Err(e),
                Ok(next) => member_rest(
                    ts,
                    next,
                    ExprView::Member {
                        object: Box::new(object),
                        property: Box::new(property),
                        computed: true,
                    },
                ),
            },
        }
    } else {
        Ok((object, pos))
    }
}

/// `( argument, ... )`.
pub closed spec fn arguments(ts: Seq<TokenView>, pos: nat) -> Result<
    (Seq<ExprView>, nat),
    SyntaxError,
>
    decreases ts.len() - pos, 59nat,
{
    arguments_rule(ts, pos)
}

/// [`arguments`] is what its rule says.
pub proof fn arguments_unfolds(ts: Seq<TokenView>, pos: nat)
    ensures
        arguments(ts, pos) == arguments_rule(ts, pos),
{
}

/// The rule that defines [`arguments`].
pub open spec fn arguments_rule(ts: Seq<TokenView>, pos: nat) -> Result<
    (Seq<ExprView>, nat),
    SyntaxError,
>
    decreases ts.len() - pos, 58nat,
{
    match expected(ts, pos, TokenType::OpenParen) {
        Err(e) => Err(e),
        Ok(p) => if kind_at(ts, p) == TokenType::CloseParen {
            Ok((Seq::empty(), p + 1))
        } else {
            match advanced(ts, p, arguments_list(ts, p)) {
                Err(e) => Err(e),
                Ok((args, at2)) => match expected(ts, at2, TokenType::CloseParen) {
                    Err(e) => Err(e),
                    Ok(end) => Ok((args, end)),
                },
            }
        },
    }
}

/// One or more arguments, separated by commas.
pub closed spec fn arguments_list(ts: Seq<TokenView>, pos: nat) -> Result<
    (Seq<ExprView>, nat),
    SyntaxError,
>
    decreases ts.len() - pos, 57nat,
{
    arguments_list_rule(ts, pos)
}

/// [`arguments_list`] is what its rule says.
pub proof fn arguments_list_unfolds(ts: Seq<TokenView>, pos: nat)
    ensures
        arguments_list(ts, pos) == arguments_list_rule(ts, pos),
{
}

/// The rule that defines [`arguments_list`].
pub open spec fn arguments_list_rule(ts: Seq<TokenView>, pos: nat) -> Result<
    (Seq<ExprView>, nat),
    SyntaxError,
>
    decreases ts.len() - pos, 56nat,
{
    match advanced(ts, pos, assignment(ts, pos)) {
        Err(e) => Err(e),
        Ok((first, p)) => arguments_rest(ts, p, seq![first]),
    }
}

pub closed spec fn arguments_rest(ts: Seq<TokenView>, pos: nat, acc: Seq<ExprView>) -> Result<
    (Seq<ExprView>, nat),
    SyntaxError,
>
    decreases ts.len() - pos, 61nat,
{
    arguments_rest_rule(ts, pos, acc)
}

/// [`arguments_rest`] is what its rule says.
pub proof fn arguments_rest_unfolds(ts: Seq<TokenView>, pos: nat, acc: Seq<ExprView>)
    ensures
        arguments_rest(ts, pos, acc) == arguments_rest_rule(ts, pos, acc),
{
}

/// The rule that defines [`arguments_rest`].
pub open spec fn arguments_rest_rule(ts: Seq<TokenView>, pos: nat, acc: Seq<ExprView>) -> Result<
    (Seq<ExprView>, nat),
    SyntaxError,
>
    decreases ts.len() - pos, 60nat,
{
    if kind_at(ts, pos) == TokenType::Comma {
        match advanced(ts, pos + 1, assignment(ts, pos + 1)) {
            Err(e) => Err(e),
            Ok((argument, p)) => arguments_rest(ts, p, acc.push(argument)),
        }
    } else {
        Ok((acc, pos))
    }
}

/// The calls `(...)(...)...` of `caller`, of which the first opens at `pos`.
pub closed spec fn call(ts: Seq<TokenView>, pos: nat, caller: ExprView) -> Result<
    (ExprView, nat),
    SyntaxError,
>
    decreases ts.len() - pos, 61nat,
{
    call_rule(ts, pos, caller)
}

/// [`call`] is what its rule says.
pub proof fn call_unfolds(ts: Seq<TokenView>, pos: nat, caller: ExprView)
    ensures
        call(ts, pos, caller) == call_rule(ts, pos, caller),
{
}

/// The rule that defines [`call`].
pub open spec fn call_rule(ts: Seq<TokenView>, pos: nat, caller: ExprView) -> Result<
    (ExprView, nat),
    SyntaxError,
>
    decreases ts.len() - pos, 60nat,
{
    match advanced(ts, pos, arguments(ts, pos)) {
        Err(e) => Err(e),
        Ok((args, p)) => {
            let made = ExprView::Call { args, caller: Box::new(caller) };
            if kind_at(ts, p) == TokenType::OpenParen {
                call(ts, p, made)
            } else {
                Ok((made, p))
            }
        },
    }
}

/// A member expression, and the calls behind it.
pub closed spec fn call_member(ts: Seq<TokenView>, pos: nat) -> Result<(ExprView, nat), SyntaxError>
    decreases ts.len() - pos, 21nat,
{
    call_member_rule(ts, pos)
}

/// [`call_member`] is what its rule says.
pub proof fn call_member_unfolds(ts: Seq<TokenView>, pos: nat)
    ensures
        call_member(ts, pos) == call_member_rule(ts, pos),
{
}

/// The rule that defines [`call_member`].
pub open spec fn call_member_rule(ts: Seq<TokenView>, pos: nat) -> Result<(ExprView, nat), SyntaxError>
    decreases ts.len() - pos, 20nat,
{
    match advanced(ts, pos, member(ts, pos)) {
        Err(e) => Err(e),
        Ok((callee, p)) => if kind_at(ts, p) == TokenType::OpenParen {
            call(ts, p, callee)
        } else {
            Ok((callee, p))
        },
    }
}

/// `-operand`, `!operand`, or a call or member expression.
pub closed spec fn unary(ts: Seq<TokenView>, pos: nat) -> Result<(ExprView, nat), SyntaxError>
    decreases ts.len() - pos, 23nat,
{
    unary_rule(ts, pos)
}

/// [`unary`] is what its rule says.
pub proof fn unary_unfolds(ts: Seq<TokenView>, pos: nat)
    ensures
        unary(ts, pos) == unary_rule(ts, pos),
{
}

/// The rule that defines [`unary`].
pub open spec fn unary_rule(ts: Seq<TokenView>, pos: nat) -> Result<(ExprView, nat), SyntaxError>
    decreases ts.len() - pos, 22nat,
{
    if unary_operator_at(ts, pos) {
        match advanced(ts, pos + 1, unary(ts, pos + 1)) {
            Err(e) => Err(e),
            Ok((operand, p)) => Ok(
                (ExprView::Unary { operator: text_at(ts, pos), operand: Box::new(operand) }, p),
            ),
        }
    } else {
        call_member(ts, pos)
    }
}

/// `a ** b ** c`, read as `(a ** b) ** c`.
pub closed spec fn exponentiation(ts: Seq<TokenView>, pos: nat) -> Result<
    (ExprView, nat),
    SyntaxError,
>
    decreases ts.len() - pos, 25nat,
{
    exponentiation_rule(ts, pos)
}

/// [`exponentiation`] is what its rule says.
pub proof fn exponentiation_unfolds(ts: Seq<TokenView>, pos: nat)
    ensures
        exponentiation(ts, pos) == exponentiation_rule(ts, pos),
{
}

/// The rule that defines [`exponentiation`].
pub open spec fn exponentiation_rule(ts: Seq<TokenView>, pos: nat) -> Result<
    (ExprView, nat),
    SyntaxError,
>
    decreases ts.len() - pos, 24nat,
{
    match advanced(ts, pos, unary(ts, pos)) {
        Err(e) => Err(e),
        Ok((left, p)) => exponentiation_rest(ts, p, left),
    }
}

pub closed spec fn exponentiation_rest(ts: Seq<TokenView>, pos: nat, left: ExprView) -> Result<
    (ExprView, nat),
    SyntaxError,
>
    decreases ts.len() - pos, 61nat,
{
    exponentiation_rest_rule(ts, pos, left)
}

/// [`exponentiation_rest`] is what its rule says.
pub proof fn exponentiation_rest_unfolds(ts: Seq<TokenView>, pos: nat, left: ExprView)
    ensures
        exponentiation_rest(ts, pos, left) == exponentiation_rest_rule(ts, pos, left),
{
}

/// The rule that defines [`exponentiation_rest`].
pub open spec fn exponentiation_rest_rule(ts: Seq<TokenView>, pos: nat, left: ExprView) -> Result<
    (ExprView, nat),
    SyntaxError,
>
    decreases ts.len() - pos, 60nat,
{
    if operator_at(ts, pos, "**"@) {
        match advanced(ts, pos + 1, unary(ts, pos + 1)) {
            Err(e) => Err(e),
            Ok((right, p)) => exponentiation_rest(
                ts,
                p,
                binary(left, right, BinaryOperator::Exponent),
            ),
        }
    } else {
        Ok((left, pos))
    }
}

pub closed spec fn multiplicative(ts: Seq<TokenView>, pos: nat) -> Result<
    (ExprView, nat),
    SyntaxError,
>
    decreases ts.len() - pos, 27nat,
{
    multiplicative_rule(ts, pos)
}

/// [`multiplicative`] is what its rule says.
pub proof fn multiplicative_unfolds(ts: Seq<TokenView>, pos: nat)
    ensures
        multiplicative(ts, pos) == multiplicative_rule(ts, pos),
{
}

/// The rule that defines [`multiplicative`].
pub open spec fn multiplicative_rule(ts: Seq<TokenView>, pos: nat) -> Result<
    (ExprView, nat),
    SyntaxError,
>
    decreases ts.len() - pos, 26nat,
{
    match advanced(ts, pos, exponentiation(ts, pos)) {
        Err(e) => Err(e),
        Ok((left, p)) => multiplicative_rest(ts, p, left),
    }
}

pub closed spec fn multiplicative_rest(ts: Seq<TokenView>, pos: nat, left: ExprView) -> Result<
    (ExprView, nat),
    SyntaxError,
>
    decreases ts.len() - pos, 61nat,
{
    multiplicative_rest_rule(ts, pos, left)
}

/// [`multiplicative_rest`] is what its rule says.
pub proof fn multiplicative_rest_unfolds(ts: Seq<TokenView>, pos: nat, left: ExprView)
    ensures
        multiplicative_rest(ts, pos, left) == multiplicative_rest_rule(ts, pos, left),
{
}

/// The rule that defines [`multiplicative_rest`].
pub open spec fn multiplicative_rest_rule(ts: Seq<TokenView>, pos: nat, left: ExprView) -> Result<
    (ExprView, nat),
    SyntaxError,
>
    decreases ts.len() - pos, 60nat,
{
    match multiplicative_operator(ts, pos) {
        Some(operator) => match advanced(ts, pos + 1, exponentiation(ts, pos + 1)) {
            Err(e) => Err(e),
            Ok((right, p)) => multiplicative_rest(ts, p, binary(left, right, operator)),
        },
        None => Ok((left, pos)),
    }
}

pub closed spec fn additive(ts: Seq<TokenView>, pos: nat) -> Result<(ExprView, nat), SyntaxError>
    decreases ts.len() - pos, 29nat,
{
    additive_rule(ts, pos)
}

/// [`additive`] is what its rule says.
pub proof fn additive_unfolds(ts: Seq<TokenView>, pos: nat)
    ensures
        additive(ts, pos) == additive_rule(ts, pos),
{
}

/// The rule that defines [`additive`].
pub open spec fn additive_rule(ts: Seq<TokenView>, pos: nat) -> Result<(ExprView, nat), SyntaxError>
    decreases ts.len() - pos, 28nat,
{
    match advanced(ts, pos, multiplicative(ts, pos)) {
        Err(e) => Err(e),
        Ok((left, p)) => additive_rest(ts, p, left),
    }
}

pub closed spec fn additive_rest(ts: Seq<TokenView>, pos: nat, left: ExprView) -> Result<
    (ExprView, nat),
    SyntaxError,
>
    decreases ts.len() - pos, 61nat,
{
    additive_rest_rule(ts, pos, left)
}

/// [`additive_rest`] is what its rule says.
pub proof fn additive_rest_unfolds(ts: Seq<TokenView>, pos: nat, left: ExprView)
    ensures
        additive_rest(ts, pos, left) == additive_rest_rule(ts, pos, left),
{
}

/// The rule that defines [`additive_rest`].
pub open spec fn additive_rest_rule(ts: Seq<TokenView>, pos: nat, left: ExprView) -> Result<
    (ExprView, nat),
    SyntaxError,
>
    decreases ts.len() - pos, 60nat,
{
    match additive_operator(ts, pos) {
        Some((operator, compound)) => match advanced(ts, pos + 1, multiplicative(ts, pos + 1)) {
            Err(e) => Err(e),
            Ok((right, p)) => additive_rest(ts, p, additive_node(left, right, operator, compound)),
        },
        None => Ok((left, pos)),
    }
}

pub closed spec fn logical(ts: Seq<TokenView>, pos: nat) -> Result<(ExprView, nat), SyntaxError>
    decreases ts.len() - pos, 31nat,
{
    logical_rule(ts, pos)
}

/// [`logical`] is what its rule says.
pub proof fn logical_unfolds(ts: Seq<TokenView>, pos: nat)
    ensures
        logical(ts, pos) == logical_rule(ts, pos),
{
}

/// The rule that defines [`logical`].
pub open spec fn logical_rule(ts: Seq<TokenView>, pos: nat) -> Result<(ExprView, nat), SyntaxError>
    decreases ts.len() - pos, 30nat,
{
    match advanced(ts, pos, additive(ts, pos)) {
        Err(e) => Err(e),
        Ok((left, p)) => logical_rest(ts, p, left),
    }
}

pub closed spec fn logical_rest(ts: Seq<TokenView>, pos: nat, left: ExprView) -> Result<
    (ExprView, nat),
    SyntaxError,
>
    decreases ts.len() - pos, 61nat,
{
    logical_rest_rule(ts, pos, left)
}

/// [`logical_rest`] is what its rule says.
pub proof fn logical_rest_unfolds(ts: Seq<TokenView>, pos: nat, left: ExprView)
    ensures
        logical_rest(ts, pos, left) == logical_rest_rule(ts, pos, left),
{
}

/// The rule that defines [`logical_rest`].
pub open spec fn logical_rest_rule(ts: Seq<TokenView>, pos: nat, left: ExprView) -> Result<
    (ExprView, nat),
    SyntaxError,
>
    decreases ts.len() - pos, 60nat,
{
    match logical_operator(ts, pos) {
        Some(operator) => match advanced(ts, pos + 1, additive(ts, pos + 1)) {
            Err(e) => Err(e),
            Ok((right, p)) => logical_rest(ts, p, binary(left, right, operator)),
        },
        None => Ok((left, pos)),
    }
}

pub closed spec fn comparison(ts: Seq<TokenView>, pos: nat) -> Result<(ExprView, nat), SyntaxError>
    decreases ts.len() - pos, 33nat,
{
    comparison_rule(ts, pos)
}

/// [`comparison`] is what its rule says.
pub proof fn comparison_unfolds(ts: Seq<TokenView>, pos: nat)
    ensures
        comparison(ts, pos) == comparison_rule(ts, pos),
{
}

/// The rule that defines [`comparison`].
pub open spec fn comparison_rule(ts: Seq<TokenView>, pos: nat) -> Result<(ExprView, nat), SyntaxError>
    decreases ts.len() - pos, 32nat,
{
    match advanced(ts, pos, logical(ts, pos)) {
        Err(e) => Err(e),
        Ok((left, p)) => comparison_rest(ts, p, left),
    }
}

pub closed spec fn comparison_rest(ts: Seq<TokenView>, pos: nat, left: ExprView) -> Result<
    (ExprView, nat),
    SyntaxError,
>
    decreases ts.len() - pos, 61nat,
{
    comparison_rest_rule(ts, pos, left)
}

/// [`comparison_rest`] is what its rule says.
pub proof fn comparison_rest_unfolds(ts: Seq<TokenView>, pos: nat, left: ExprView)
    ensures
        comparison_rest(ts, pos, left) == comparison_rest_rule(ts, pos, left),
{
}

/// The rule that defines [`comparison_rest`].
pub open spec fn comparison_rest_rule(ts: Seq<TokenView>, pos: nat, left: ExprView) -> Result<
    (ExprView, nat),
    SyntaxError,
>
    decreases ts.len() - pos, 60nat,
{
    match comparison_operator(ts, pos) {
        Some(operator) => match advanced(ts, pos + 1, logical(ts, pos + 1)) {
            Err(e) => Err(e),
            Ok((right, p)) => comparison_rest(ts, p, binary(left, right, operator)),
        },
        None => Ok((left, pos)),
    }
}

/// An object literal where one opens, else a comparison.
pub closed spec fn object(ts: Seq<TokenView>, pos: nat) -> Result<(ExprView, nat), SyntaxError>
    decreases ts.len() - pos, 35nat,
{
    object_rule(ts, pos)
}

/// [`object`] is what its rule says.
pub proof fn object_unfolds(ts: Seq<TokenView>, pos: nat)
    ensures
        object(ts, pos) == object_rule(ts, pos),
{
}

/// The rule that defines [`object`].
pub open spec fn object_rule(ts: Seq<TokenView>, pos: nat) -> Result<(ExprView, nat), SyntaxError>
    decreases ts.len() - pos, 34nat,
{
    if kind_at(ts, pos) == TokenType::OpenBrace {
        object_literal(ts, pos)
    } else {
        comparison(ts, pos)
    }
}

/// `target = value`, where the value may itself be an assignment.
pub closed spec fn assignment(ts: Seq<TokenView>, pos: nat) -> Result<(ExprView, nat), SyntaxError>
    decreases ts.len() - pos, 37nat,
{
    assignment_rule(ts, pos)
}

/// [`assignment`] is what its rule says.
pub proof fn assignment_unfolds(ts: Seq<TokenView>, pos: nat)
    ensures
        assignment(ts, pos) == assignment_rule(ts, pos),
{
}

/// The rule that defines [`assignment`].
pub open spec fn assignment_rule(ts: Seq<TokenView>, pos: nat) -> Result<(ExprView, nat), SyntaxError>
    decreases ts.len() - pos, 36nat,
{
    match advanced(ts, pos, object(ts, pos)) {
        Err(e) => Err(e),
        Ok((left, p)) => if kind_at(ts, p) == TokenType::Assign {
            match advanced(ts, p + 1, assignment(ts, p + 1)) {
                Err(e) => Err(e),
                Ok((value, end)) => Ok(
                    (ExprView::Assignment { assignee: Box::new(left), value: Box::new(value) }, end),
                ),
            }
        } else {
            Ok((left, p))
        },
    }
}

/// An expression: behind any comment tokens, `jos ...`, an object literal,
/// or an assignment.
pub closed spec fn expression(ts: Seq<TokenView>, pos: nat) -> Result<(ExprView, nat), SyntaxError>
    decreases ts.len() - pos, 39nat,
{
    expression_rule(ts, pos)
}

/// [`expression`] is what its rule says.
pub proof fn expression_unfolds(ts: Seq<TokenView>, pos: nat)
    ensures
        expression(ts, pos) == expression_rule(ts, pos),
{
}

/// The rule that defines [`expression`].
pub open spec fn expression_rule(ts: Seq<TokenView>, pos: nat) -> Result<(ExprView, nat), SyntaxError>
    decreases ts.len() - pos, 38nat,
{
    let start = skip_comments(ts, pos);
    proof {
        lemma_skip_comments(ts, pos);
    }
    if kind_at(ts, start) == TokenType::If {
        if_else(ts, start + 1)
    } else if kind_at(ts, start) == TokenType::OpenBrace {
        object(ts, start)
    } else {
        assignment(ts, start)
    }
}

/// What follows `jos`: a condition, a block and, behind `muuten`, a second block.
pub closed spec fn if_else(ts: Seq<TokenView>, pos: nat) -> Result<(ExprView, nat), SyntaxError>
    decreases ts.len() - pos, 59nat,
{
    if_else_rule(ts, pos)
}

/// [`if_else`] is what its rule says.
pub proof fn if_else_unfolds(ts: Seq<TokenView>, pos: nat)
    ensures
        if_else(ts, pos) == if_else_rule(ts, pos),
{
}

/// The rule that defines [`if_else`].
pub open spec fn if_else_rule(ts: Seq<TokenView>, pos: nat) -> Result<(ExprView, nat), SyntaxError>
    decreases ts.len() - pos, 58nat,
{
    match advanced(ts, pos, expression(ts, pos)) {
        Err(e) => Err(e),
        Ok((condition, p)) => match advanced(ts, p, block(ts, p)) {
            Err(e) => Err(e),
            Ok((if_branch, at2)) => if kind_at(ts, at2) == TokenType::Else {
                match advanced(ts, at2 + 1, block(ts, at2 + 1)) {
                    Err(e) => Err(e),
                    Ok((else_branch, end)) => Ok(
                        (
                            ExprView::IfElse {
                                condition: Box::new(condition),
                                if_branch,
                                else_branch: Some(else_branch),
                            },
                            end,
                        ),
                    ),
                }
            } else {
                Ok(
                    (
                        ExprView::IfElse {
                            condition: Box::new(condition),
                            if_branch,
                            else_branch: None,
                        },
                        at2,
                    ),
                )
            },
        },
    }
}

/// `{ statement ... }`.
pub closed spec fn block(ts: Seq<TokenView>, pos: nat) -> Result<(Seq<StmtView>, nat), SyntaxError>
    decreases ts.len() - pos, 59nat,
{
    block_rule(ts, pos)
}

/// [`block`] is what its rule says.
pub proof fn block_unfolds(ts: Seq<TokenView>, pos: nat)
    ensures
        block(ts, pos) == block_rule(ts, pos),
{
}

/// The rule that defines [`block`].
pub open spec fn block_rule(ts: Seq<TokenView>, pos: nat) -> Result<(Seq<StmtView>, nat), SyntaxError>
    decreases ts.len() - pos, 58nat,
{
    match expected(ts, pos, TokenType::OpenBrace) {
        Err(e) => Err(e),
        Ok(p) => statements(ts, p, Seq::empty()),
    }
}

/// The rest of a block behind the statements `acc`, up to and with its `}`.
pub closed spec fn statements(ts: Seq<TokenView>, pos: nat, acc: Seq<StmtView>) -> Result<
    (Seq<StmtView>, nat),
    SyntaxError,
>
    decreases ts.len() - pos, 65nat,
{
    statements_rule(ts, pos, acc)
}

/// [`statements`] is what its rule says.
pub proof fn statements_unfolds(ts: Seq<TokenView>, pos: nat, acc: Seq<StmtView>)
    ensures
        statements(ts, pos, acc) == statements_rule(ts, pos, acc),
{
}

/// The rule that defines [`statements`].
pub open spec fn statements_rule(ts: Seq<TokenView>, pos: nat, acc: Seq<StmtView>) -> Result<
    (Seq<StmtView>, nat),
    SyntaxError,
>
    decreases ts.len() - pos, 64nat,
{
    if kind_at(ts, pos) == TokenType::CloseBrace {
        Ok((acc, pos + 1))
    } else if kind_at(ts, pos) == TokenType::EOF {
        Err(SyntaxError::ExpectedToken { expected: TokenType::CloseBrace, position: pos as usize })
    } else {
        match advanced(ts, pos, statement(ts, pos)) {
            Err(e) => Err(e),
            Ok((s, p)) => statements(ts, p, acc.push(s)),
        }
    }
}

/// `olkoon name;`, `olkoon name = value;` or `vakio name = value;`, up to
/// but without the `;`.
pub closed spec fn var_declaration(ts: Seq<TokenView>, pos: nat) -> Result<
    (StmtView, nat),
    SyntaxError,
>
    decreases ts.len() - pos, 59nat,
{
    var_declaration_rule(ts, pos)
}

/// [`var_declaration`] is what its rule says.
pub proof fn var_declaration_unfolds(ts: Seq<TokenView>, pos: nat)
    ensures
        var_declaration(ts, pos) == var_declaration_rule(ts, pos),
{
}

/// The rule that defines [`var_declaration`].
pub open spec fn var_declaration_rule(ts: Seq<TokenView>, pos: nat) -> Result<
    (StmtView, nat),
    SyntaxError,
>
    decreases ts.len() - pos, 58nat,
{
    let constant = kind_at(ts, pos) == TokenType::Const;
    let p = behind(ts, pos);
    match expected(ts, p, TokenType::Identifier) {
        Err(e) => Err(e),
        Ok(at2) => {
            let identifier = text_at(ts, p);
            if kind_at(ts, at2) == TokenType::Assign {
                match advanced(ts, at2 + 1, expression(ts, at2 + 1)) {
                    Err(e) => Err(e),
                    Ok((value, end)) => Ok(
                        (
                            StmtView::VarDeclaration {
                                constant,
                                identifier,
                                value: Some(Box::new(value)),
                            },
                            end,
                        ),
                    ),
                }
            } else if constant {
                Err(SyntaxError::MissingInitializer { position: pos as usize })
            } else {
                Ok((StmtView::VarDeclaration { constant, identifier, value: None }, at2))
            }
        },
    }
}

/// `funktio name(parameter, ...) { statement ... }`.
pub closed spec fn fn_declaration(ts: Seq<TokenView>, pos: nat) -> Result<
    (StmtView, nat),
    SyntaxError,
>
    decreases ts.len() - pos, 59nat,
{
    fn_declaration_rule(ts, pos)
}

/// [`fn_declaration`] is what its rule says.
pub proof fn fn_declaration_unfolds(ts: Seq<TokenView>, pos: nat)
    ensures
        fn_declaration(ts, pos) == fn_declaration_rule(ts, pos),
{
}

/// The rule that defines [`fn_declaration`].
pub open spec fn fn_declaration_rule(ts: Seq<TokenView>, pos: nat) -> Result<
    (StmtView, nat),
    SyntaxError,
>
    decreases ts.len() - pos, 58nat,
{
    let p = behind(ts, pos);
    match expected(ts, p, TokenType::Identifier) {
        Err(e) => Err(e),
        Ok(at2) => match advanced(ts, at2, arguments(ts, at2)) {
            Err(e) => Err(e),
            Ok((args, at3)) => match parameter_names(args) {
                None => Err(SyntaxError::InvalidParameter { position: at2 as usize }),
                Some(parameters) => match advanced(ts, at3, block(ts, at3)) {
                    Err(e) => Err(e),
                    Ok((body, end)) => Ok(
                        (
                            StmtView::FunctionDeclaration {
                                parameters,
                                name: text_at(ts, p),
                                body,
                            },
                            end,
                        ),
                    ),
                },
            },
        },
    }
}

/// What follows `toista`: `(name = start; condition; increment) { ... }`.
pub closed spec fn for_loop(ts: Seq<TokenView>, pos: nat) -> Result<(StmtView, nat), SyntaxError>
    decreases ts.len() - pos, 59nat,
{
    for_loop_rule(ts, pos)
}

/// [`for_loop`] is what its rule says.
pub proof fn for_loop_unfolds(ts: Seq<TokenView>, pos: nat)
    ensures
        for_loop(ts, pos) == for_loop_rule(ts, pos),
{
}

/// The rule that defines [`for_loop`].
pub open spec fn for_loop_rule(ts: Seq<TokenView>, pos: nat) -> Result<(StmtView, nat), SyntaxError>
    decreases ts.len() - pos, 58nat,
{
    match expected(ts, pos, TokenType::OpenParen) {
        Err(e) => Err(e),
        Ok(at1) => match expected(ts, at1, TokenType::Identifier) {
            Err(e) => Err(e),
            Ok(at2) => match expected(ts, at2, TokenType::Assign) {
                Err(e) => Err(e),
                Ok(at3) => match advanced(ts, at3, expression(ts, at3)) {
                    Err(e) => Err(e),
                    Ok((start, at4)) => match expected(ts, at4, TokenType::SemiColon) {
                        Err(e) => Err(e),
                        Ok(at5) => match advanced(ts, at5, expression(ts, at5)) {
                            Err(e) => Err(e),
                            Ok((condition, at6)) => match expected(ts, at6, TokenType::SemiColon) {
                                Err(e) => Err(e),
                                Ok(at7) => match advanced(ts, at7, expression(ts, at7)) {
                                    Err(e) => Err(e),
                                    Ok((increment, at8)) => match expected(
                                        ts,
                                        at8,
                                        TokenType::CloseParen,
                                    ) {
                                        Err(e) => Err(e),
                                        Ok(at9) => match advanced(ts, at9, block(ts, at9)) {
                                            Err(e) => Err(e),
                                            Ok((body, end)) => Ok(
                                                (
                                                    StmtView::ForLoop {
                                                        initializer: Box::new(
                                                            StmtView::VarDeclaration {
                                                                constant: false,
                                                                identifier: text_at(ts, at1),
                                                                value: Some(Box::new(start)),
                                                            },
                                                        ),
                                                        condition: Box::new(condition),
                                                        increment: Box::new(increment),
                                                        body,
                                                    },
                                                    end,
                                                ),
                                            ),
                                        },
                                    },
                                },
                            },
                        },
                    },
                },
            },
        },
    }
}

/// A statement: `jos`, `kun`, `toista`, a declaration, or an expression,
/// behind which one `;` may stand.
pub closed spec fn statement(ts: Seq<TokenView>, pos: nat) -> Result<(StmtView, nat), SyntaxError>
    decreases ts.len() - pos, 63nat,
{
    statement_rule(ts, pos)
}

/// [`statement`] is what its rule says.
pub proof fn statement_unfolds(ts: Seq<TokenView>, pos: nat)
    ensures
        statement(ts, pos) == statement_rule(ts, pos),
{
}

/// The rule that defines [`statement`].
pub open spec fn statement_rule(ts: Seq<TokenView>, pos: nat) -> Result<(StmtView, nat), SyntaxError>
    decreases ts.len() - pos, 62nat,
{
    match kind_at(ts, pos) {
        TokenType::If => match if_else(ts, pos + 1) {
            Err(e) => Err(e),
            Ok((e, p)) => Ok((StmtView::Expr { expr: Box::new(e) }, p)),
        },
        TokenType::While => match advanced(ts, pos + 1, expression(ts, pos + 1)) {
            Err(e) => Err(e),
            Ok((condition, p)) => match block(ts, p) {
                Err(e) => Err(e),
                Ok((body, end)) => Ok(
                    (StmtView::WhileLoop { condition: Box::new(condition), body }, end),
                ),
            },
        },
        TokenType::For => for_loop(ts, pos + 1),
        TokenType::Let | TokenType::Const => match var_declaration(ts, pos) {
            Err(e) => Err(e),
            Ok((declaration, p)) => match expected(ts, p, TokenType::SemiColon) {
                Err(e) => Err(e),
                Ok(end) => Ok((declaration, end)),
            },
        },
        TokenType::Fn => fn_declaration(ts, pos),
        _ => match expression(ts, pos) {
            Err(e) => Err(e),
            Ok((e, p)) => Ok(
                (
                    StmtView::Expr { expr: Box::new(e) },
                    if kind_at(ts, p) == TokenType::SemiColon {
                        p + 1
                    } else {
                        p
                    },
                ),
            ),
        },
    }
}

/// The rest of a program behind the statements `acc`, up to the `EOF` token.
pub open spec fn program_rest(ts: Seq<TokenView>, pos: nat, acc: Seq<StmtView>) -> Result<
    Seq<StmtView>,
    SyntaxError,
>
    decreases ts.len() - pos,
{
    if kind_at(ts, pos) == TokenType::EOF {
        Ok(acc)
    } else {
        match advanced(ts, pos, statement(ts, pos)) {
            Err(e) => Err(e),
            Ok((s, p)) => program_rest(ts, p, acc.push(s)),
        }
    }
}

/// The top-level statements of the program that `ts` stands for: what
/// `Parser::produce_ast` computes.
pub open spec fn program(ts: Seq<TokenView>) -> Result<Seq<StmtView>, SyntaxError> {
    program_rest(ts, 0, Seq::empty())
}


/// Where the top-level statements from `pos` on end: the position behind
/// each, in order, up to the `EOF` token or the first violation.
pub open spec fn statement_ends(ts: Seq<TokenView>, pos: nat) -> Seq<nat>
    decreases ts.len() - pos,
{
    if kind_at(ts, pos) == TokenType::EOF {
        Seq::empty()
    } else {
        match advanced(ts, pos, statement(ts, pos)) {
            Ok((_, p)) => seq![p] + statement_ends(ts, p),
            Err(_) => Seq::empty(),
        }
    }
}

/// Where the `i`-th top-level statement from `pos` on starts.
pub open spec fn statement_start(ts: Seq<TokenView>, pos: nat, i: int) -> nat {
    if i == 0 {
        pos
    } else {
        statement_ends(ts, pos)[i - 1]
    }
}

/// A program has one statement for each top-level statement of its tokens:
/// the statements stand one behind the other, each takes at least one
/// token, and behind the last one stands the `EOF` token.
pub proof fn lemma_program_statements(ts: Seq<TokenView>, pos: nat, acc: Seq<StmtView>)
    ensures
        program_rest(ts, pos, acc) matches Ok(body) ==> {
            let ends = statement_ends(ts, pos);
            &&& body.len() == acc.len() + ends.len()
            &&& forall|i: int|
                0 <= i < ends.len() ==> statement_start(ts, pos, i) < #[trigger] ends[i] <= ts.len()
            &&& kind_at(ts, statement_start(ts, pos, ends.len() as int)) == TokenType::EOF
        },
    decreases ts.len() - pos,
{
    if kind_at(ts, pos) != TokenType::EOF {
        if let Ok((s, p)) = advanced(ts, pos, statement(ts, pos)) {
            lemma_program_statements(ts, p, acc.push(s));
            if let Ok(body) = program_rest(ts, pos, acc) {
                let ends = statement_ends(ts, pos);
                let rest = statement_ends(ts, p);
                assert(ends == seq![p] + rest);
                assert forall|i: int| 0 <= i < ends.len() implies statement_start(ts, pos, i)
                    < #[trigger] ends[i] <= ts.len() by {
                    if i > 0 {
                        assert(ends[i] == rest[i - 1]);
                        assert(statement_start(ts, pos, i) == statement_start(ts, p, i - 1));
                    }
                }
                assert(statement_start(ts, pos, ends.len() as int) == statement_start(
                    ts,
                    p,
                    rest.len() as int,
                ));
            }
        }
    }
}

} // verus!
