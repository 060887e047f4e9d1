//! The parser: a recursive descent over the tokens, one function for each
//! level of binding, that builds the tree which the grammar assigns.

use vstd::prelude::*;
use vstd::string::StringExecFns;
use crate::error::{ParseError, SyntaxError};
use crate::frontend::ast::{
    clone_expr, element_views, expr_views, property_views, stmt_views, string_views, ArrayLiteral,
    AssignmentExpr, BinaryExpr, BinaryOperator, Block, CallExpr, Expr, ExprView, FloatLiteral,
    ForLoop, FunctionDeclaration, Identifier, IfElseExpr, MemberExpr, NumericLiteral,
    ObjectLiteral, Program, Property, PropertyView, Stmt, StmtView, StringLiteral, UnaryExpr,
    VarDeclaration, WhileLoop,
};
use crate::frontend::grammar;
use crate::frontend::lexer::{
    closed_by_eof, end_of_file, lemma_lex_closed_by_eof, lex, token_views, tokenize, Token,
    TokenType, TokenView,
};

verus! {

/// The state of a parse: the tokens, and how many of them are consumed.
pub struct Parser {
    tokens: Vec<Token>,
    position: usize,
    end: Token,
}

/// How the outcome of parsing an expression relates to what the grammar
/// says: the same tree and the same end, or the same error.
pub open spec fn parsed_expr(
    r: Result<Expr, SyntaxError>,
    end: nat,
    expected: Result<(ExprView, nat), SyntaxError>,
) -> bool {
    match r {
        Ok(e) => expected == Ok::<(ExprView, nat), SyntaxError>((e@, end)),
        Err(error) => expected == Err::<(ExprView, nat), SyntaxError>(error),
    }
}

/// As [`parsed_expr`], for a statement.
pub open spec fn parsed_stmt(
    r: Result<Stmt, SyntaxError>,
    end: nat,
    expected: Result<(StmtView, nat), SyntaxError>,
) -> bool {
    match r {
        Ok(s) => expected == Ok::<(StmtView, nat), SyntaxError>((s@, end)),
        Err(error) => expected == Err::<(StmtView, nat), SyntaxError>(error),
    }
}

/// As [`parsed_expr`], for the statements of a block.
pub open spec fn parsed_block(
    r: Result<Vec<Stmt>, SyntaxError>,
    end: nat,
    expected: Result<(Seq<StmtView>, nat), SyntaxError>,
) -> bool {
    match r {
        Ok(statements) => expected == Ok::<(Seq<StmtView>, nat), SyntaxError>(
            (stmt_views(statements), end),
        ),
        Err(error) => expected == Err::<(Seq<StmtView>, nat), SyntaxError>(error),
    }
}

/// As [`parsed_expr`], for a list of arguments.
pub open spec fn parsed_args(
    r: Result<Vec<Expr>, SyntaxError>,
    end: nat,
    expected: Result<(Seq<ExprView>, nat), SyntaxError>,
) -> bool {
    match r {
        Ok(args) => expected == Ok::<(Seq<ExprView>, nat), SyntaxError>((expr_views(args), end)),
        Err(error) => expected == Err::<(Seq<ExprView>, nat), SyntaxError>(error),
    }
}

/// The names of a parameter list, if every entry is a name.
pub fn parameter_list(args: Vec<Expr>) -> (names: Option<Vec<String>>)
    ensures
        match names {
            Some(names) => grammar::parameter_names(expr_views(args)) == Some(
                string_views(names@),
            ),
            None => grammar::parameter_names(expr_views(args)) is None,
        },
{
    let ghost views = expr_views(args);
    let ghost count = args.len();
    let mut names: Vec<String> = Vec::new();
    let mut i: usize = 0;
    while i < args.len()
        invariant
            i <= args.len(),
            args.len() == count,
            names.len() == i,
            expr_views(args) == views,
            forall|k: int| 0 <= k < i ==> (#[trigger] views[k]) is Identifier && views[k]->symbol
                == names[k]@,
        decreases args.len() - i,
    {
        assert(views[i as int] == args[i as int]@);
        match &args[i] {
            Expr::Identifier(identifier) => {
                names.push(identifier.symbol.clone());
            },
            _ => {
                assert(!(views[i as int] is Identifier));
                return None;
            },
        }
        i += 1;
    }
    assert(grammar::parameter_names(views)->Some_0 =~= string_views(names@));
    Some(names)
}

impl Parser {
    #[verifier::type_invariant]
    spec fn well_formed(self) -> bool {
        self.position <= self.tokens.len() && self.end@ == end_of_file()
    }

    /// The tokens that this parser reads.
    pub closed spec fn tokens(&self) -> Seq<TokenView> {
        token_views(self.tokens@)
    }

    /// The number of tokens consumed so far.
    pub closed spec fn position(&self) -> nat {
        self.position as nat
    }

    pub fn new(tokens: Vec<Token>) -> (parser: Self)
        ensures
            parser.tokens() == token_views(tokens@),
            parser.position() == 0,
    {
        Self { tokens, position: 0, end: Token::new(String::from_str("EndOfFile"), TokenType::EOF) }
    }

    /// The token at the current position.
    pub fn at(&self) -> (token: &Token)
        ensures
            token@ == grammar::token_at(self.tokens(), self.position()),
            self.position() <= self.tokens().len(),
    {
        proof {
            use_type_invariant(self);
        }
        if self.position < self.tokens.len() {
            &self.tokens[self.position]
        } else {
            &self.end
        }
    }

    /// Whether the current token is not of class `EOF`.
    pub fn not_eof(&self) -> (more: bool)
        ensures
            more == (grammar::kind_at(self.tokens(), self.position()) != TokenType::EOF),
    {
        !matches!(self.at().token_type, TokenType::EOF)
    }

    /// The class of the current token.
    fn kind(&self) -> (kind: TokenType)
        ensures
            kind == grammar::kind_at(self.tokens(), self.position()),
            self.position() <= self.tokens().len(),
    {
        self.at().token_type
    }

    /// Whether the current token is the operator spelled `text`.
    fn at_operator(&self, text: &str) -> (found: bool)
        ensures
            found == grammar::operator_at(self.tokens(), self.position(), text@),
    {
        let token = self.at();
        matches!(token.token_type, TokenType::BinaryOperator) && token.value.as_str().eq(text)
    }

    /// Steps over the current token.
    fn advance(&mut self)
        ensures
            final(self).tokens() == old(self).tokens(),
            final(self).position() == grammar::behind(old(self).tokens(), old(self).position()),
            final(self).position() <= final(self).tokens().len(),
    {
        proof {
            use_type_invariant(&*self);
        }
        if self.position < self.tokens.len() {
            self.position += 1;
        }
    }

    /// Consumes the current token and returns it.
    pub fn eat(&mut self) -> (token: Token)
        ensures
            final(self).tokens() == old(self).tokens(),
            final(self).position() == grammar::behind(old(self).tokens(), old(self).position()),
            final(self).position() <= final(self).tokens().len(),
            token@ == grammar::token_at(old(self).tokens(), old(self).position()),
    {
        let current = self.at();
        let token = Token::new(current.value.clone(), current.token_type);
        self.advance();
        token
    }

    /// Consumes the current token, and returns it if it is of class
    /// `token_type`.
    pub fn expect(&mut self, token_type: TokenType) -> (token: Option<Token>)
        ensures
            final(self).tokens() == old(self).tokens(),
            final(self).position() == grammar::behind(old(self).tokens(), old(self).position()),
            final(self).position() <= final(self).tokens().len(),
            token is Some <==> grammar::kind_at(old(self).tokens(), old(self).position())
                == token_type,
            token matches Some(t) ==> t@ == grammar::token_at(
                old(self).tokens(),
                old(self).position(),
            ),
    {
        let token = self.eat();
        if token.token_type == token_type {
            Some(token)
        } else {
            None
        }
    }

    /// Consumes the current token, which must be of class `token_type`.
    fn require(&mut self, token_type: TokenType) -> (r: Result<Token, SyntaxError>)
        ensures
            final(self).tokens() == old(self).tokens(),
            final(self).position() <= final(self).tokens().len(),
            match r {
                Ok(t) => grammar::expected(old(self).tokens(), old(self).position(), token_type)
                    == Ok::<nat, SyntaxError>(final(self).position()) && t@ == grammar::token_at(
                    old(self).tokens(),
                    old(self).position(),
                ) && (token_type != TokenType::EOF ==> final(self).position() == old(
                    self,
                ).position() + 1),
                Err(e) => grammar::expected(old(self).tokens(), old(self).position(), token_type)
                    == Err::<nat, SyntaxError>(e),
            },
    {
        let position = self.position;
        match self.expect(token_type) {
            Some(token) => Ok(token),
            None => Err(SyntaxError::ExpectedToken { expected: token_type, position }),
        }
    }
}


impl Parser {
    /// Whether the current token is a comment token.
    fn at_comment(&self) -> (found: bool)
        ensures
            found == (grammar::kind_at(self.tokens(), self.position())
                == TokenType::SingleLineComment || grammar::kind_at(
                self.tokens(),
                self.position(),
            ) == TokenType::MultiLineComment),
            found ==> self.position() < self.tokens().len(),
    {
        let kind = self.kind();
        matches!(kind, TokenType::SingleLineComment) || matches!(kind, TokenType::MultiLineComment)
    }

    fn comparison_operator(&self) -> (operator: Option<BinaryOperator>)
        ensures
            operator == grammar::comparison_operator(self.tokens(), self.position()),
            operator is Some ==> self.position() < self.tokens().len(),
    {
        match self.kind() {
            TokenType::Equal => Some(BinaryOperator::Equal),
            TokenType::NotEqual => Some(BinaryOperator::NotEqual),
            TokenType::LessThan => Some(BinaryOperator::LessThan),
            TokenType::GreaterThan => Some(BinaryOperator::GreaterThan),
            TokenType::LessThanOrEqual => Some(BinaryOperator::LessThanOrEqual),
            TokenType::GreaterThanOrEqual => Some(BinaryOperator::GreaterThanOrEqual),
            _ => None,
        }
    }

    fn logical_operator(&self) -> (operator: Option<BinaryOperator>)
        ensures
            operator == grammar::logical_operator(self.tokens(), self.position()),
            operator is Some ==> self.position() < self.tokens().len(),
    {
        if self.at_operator("&&") {
            Some(BinaryOperator::And)
        } else if self.at_operator("||") {
            Some(BinaryOperator::Or)
        } else {
            None
        }
    }

    fn additive_operator(&self) -> (operator: Option<(BinaryOperator, bool)>)
        ensures
            operator == grammar::additive_operator(self.tokens(), self.position()),
            operator is Some ==> self.position() < self.tokens().len(),
    {
        if self.at_operator("+") {
            Some((BinaryOperator::Add, false))
        } else if self.at_operator("-") {
            Some((BinaryOperator::Subtract, false))
        } else {
            match self.kind() {
                TokenType::PlusEqual => Some((BinaryOperator::Add, true)),
                TokenType::MinusEqual => Some((BinaryOperator::Subtract, true)),
                _ => None,
            }
        }
    }

    fn multiplicative_operator(&self) -> (operator: Option<BinaryOperator>)
        ensures
            operator == grammar::multiplicative_operator(self.tokens(), self.position()),
            operator is Some ==> self.position() < self.tokens().len(),
    {
        if self.at_operator("*") {
            Some(BinaryOperator::Multiply)
        } else if self.at_operator("/") {
            Some(BinaryOperator::Divide)
        } else if self.at_operator("%") {
            Some(BinaryOperator::Modulus)
        } else {
            None
        }
    }

    fn exponent_operator(&self) -> (operator: Option<BinaryOperator>)
        ensures
            operator is Some <==> grammar::operator_at(self.tokens(), self.position(), "**"@),
            operator matches Some(o) ==> o == BinaryOperator::Exponent,
            operator is Some ==> self.position() < self.tokens().len(),
    {
        if self.at_operator("**") {
            Some(BinaryOperator::Exponent)
        } else {
            None
        }
    }

    /// Parses a primary expression.
    fn parse_primary_expr(&mut self) -> (r: Result<Expr, SyntaxError>)
        ensures
            final(self).tokens() == old(self).tokens(),
            final(self).position() <= final(self).tokens().len(),
            r is Ok ==> old(self).position() < final(self).position(),
            parsed_expr(
                r,
                final(self).position(),
                grammar::primary(old(self).tokens(), old(self).position()),
            ),
        decreases old(self).tokens().len() - old(self).position(), 8nat,
    {
        proof {
            use_type_invariant(&*self);
            grammar::primary_unfolds(self.tokens(), self.position());
        }
        let start = self.position;
        match self.kind() {
            TokenType::Identifier => {
                let symbol = self.eat().value;
                Ok(Expr::Identifier(Identifier { symbol }))
            },
            TokenType::Integer => {
                let value = self.eat().value;
                Ok(Expr::NumericLiteral(NumericLiteral { value }))
            },
            TokenType::Float => {
                let value = self.eat().value;
                Ok(Expr::FloatLiteral(FloatLiteral { value }))
            },
            TokenType::StringLiteral => {
                let value = self.eat().value;
                Ok(Expr::StringLiteral(StringLiteral { value }))
            },
            TokenType::OpenBracket => self.parse_array_expr(),
            TokenType::OpenBrace => self.parse_object_literal(),
            TokenType::If => {
                self.advance();
                self.parse_if_else_expr()
            },
            TokenType::OpenParen => {
                self.advance();
                let inner = self.parse_expr()?;
                self.require(TokenType::CloseParen)?;
                Ok(inner)
            },
            _ => Err(SyntaxError::UnexpectedToken { position: start }),
        }
    }

    /// Parses an array literal.
    fn parse_array_expr(&mut self) -> (r: Result<Expr, SyntaxError>)
        ensures
            final(self).tokens() == old(self).tokens(),
            final(self).position() <= final(self).tokens().len(),
            r is Ok ==> old(self).position() < final(self).position(),
            parsed_expr(
                r,
                final(self).position(),
                grammar::array(old(self).tokens(), old(self).position()),
            ),
        decreases old(self).tokens().len() - old(self).position(), 7nat,
    {
        proof {
            use_type_invariant(&*self);
            grammar::array_unfolds(self.tokens(), self.position());
        }
        let ghost ts = self.tokens();
        let ghost start = self.position();
        self.require(TokenType::OpenBracket)?;
        let mut elements: Vec<Box<Expr>> = Vec::new();
        assert(element_views(elements) =~= Seq::<ExprView>::empty());
        while self.not_eof() && !matches!(self.kind(), TokenType::CloseBracket)
            invariant
                ts == old(self).tokens(),
                start == old(self).position(),
                self.tokens() == ts,
                start < self.position() <= ts.len(),
                grammar::array(ts, start) == grammar::elements(
                    ts,
                    self.position(),
                    element_views(elements),
                ),
            decreases ts.len() - self.position(),
        {
            proof {
                grammar::elements_unfolds(ts, self.position(), element_views(elements));
            }
            let ghost before = element_views(elements);
            let element = self.parse_expr()?;
            elements.push(Box::new(element));
            assert(element_views(elements) =~= before.push(element@));
            if !matches!(self.kind(), TokenType::CloseBracket) {
                self.require(TokenType::Comma)?;
            }
        }
        proof {
            grammar::elements_unfolds(ts, self.position(), element_views(elements));
        }
        self.require(TokenType::CloseBracket)?;
        Ok(Expr::ArrayLiteral(ArrayLiteral { elements }))
    }

    /// Parses an object literal.
    fn parse_object_literal(&mut self) -> (r: Result<Expr, SyntaxError>)
        ensures
            final(self).tokens() == old(self).tokens(),
            final(self).position() <= final(self).tokens().len(),
            r is Ok ==> old(self).position() < final(self).position(),
            parsed_expr(
                r,
                final(self).position(),
                grammar::object_literal(old(self).tokens(), old(self).position()),
            ),
        decreases old(self).tokens().len() - old(self).position(), 7nat,
    {
        proof {
            use_type_invariant(&*self);
            grammar::object_literal_unfolds(self.tokens(), self.position());
        }
        let ghost ts = self.tokens();
        let ghost start = self.position();
        self.require(TokenType::OpenBrace)?;
        let mut properties: Vec<Property> = Vec::new();
        assert(property_views(properties) =~= Seq::<PropertyView>::empty());
        while self.not_eof() && !matches!(self.kind(), TokenType::CloseBrace)
            invariant
                ts == old(self).tokens(),
                start == old(self).position(),
                self.tokens() == ts,
                start < self.position() <= ts.len(),
                grammar::object_literal(ts, start) == grammar::properties(
                    ts,
                    self.position(),
                    property_views(properties),
                ),
            decreases ts.len() - self.position(),
        {
            proof {
                grammar::properties_unfolds(ts, self.position(), property_views(properties));
            }
            let ghost before = property_views(properties);
            let key = self.require(TokenType::Identifier)?.value;
            match self.kind() {
                TokenType::Comma => {
                    self.advance();
                    let property = Property { key, value: None };
                    properties.push(property);
                    assert(property_views(properties) =~= before.push(property@));
                },
                TokenType::CloseBrace => {
                    let property = Property { key, value: None };
                    properties.push(property);
                    assert(property_views(properties) =~= before.push(property@));
                },
                _ => {
                    self.require(TokenType::Colon)?;
                    let value = self.parse_expr()?;
                    let property = Property { key, value: Some(Box::new(value)) };
                    properties.push(property);
                    assert(property_views(properties) =~= before.push(property@));
                    if !matches!(self.kind(), TokenType::CloseBrace) {
                        self.require(TokenType::Comma)?;
                    }
                },
            }
        }
        proof {
            grammar::properties_unfolds(ts, self.position(), property_views(properties));
        }
        self.require(TokenType::CloseBrace)?;
        Ok(Expr::ObjectLiteral(ObjectLiteral { properties }))
    }

    /// Parses a primary expression and the member accesses behind it.
    fn parse_member_expression(&mut self) -> (r: Result<Expr, SyntaxError>)
        ensures
            final(self).tokens() == old(self).tokens(),
            final(self).position() <= final(self).tokens().len(),
            r is Ok ==> old(self).position() < final(self).position(),
            parsed_expr(
                r,
                final(self).position(),
                grammar::member(old(self).tokens(), old(self).position()),
            ),
        decreases old(self).tokens().len() - old(self).position(), 9nat,
    {
        proof {
            use_type_invariant(&*self);
            grammar::member_unfolds(self.tokens(), self.position());
        }
        let ghost ts = self.tokens();
        let ghost start = self.position();
        let mut object = self.parse_primary_expr()?;
        loop
            invariant
                ts == old(self).tokens(),
                start == old(self).position(),
                self.tokens() == ts,
                start < self.position() <= ts.len(),
                grammar::member(ts, start) == grammar::member_rest(ts, self.position(), object@),
            ensures
                self.tokens() == ts,
                start < self.position() <= ts.len(),
                grammar::member(ts, start) == Ok::<(ExprView, nat), SyntaxError>(
                    (object@, self.position()),
                ),
            decreases ts.len() - self.position(),
        {
            proof {
                grammar::member_rest_unfolds(ts, self.position(), object@);
            }
            match self.kind() {
                TokenType::Dot => {
                    self.advance();
                    let position = self.position;
                    let property = self.parse_primary_expr()?;
                    if !matches!(property, Expr::Identifier(_)) {
                        return Err(
                            SyntaxError::ExpectedToken {
                                expected: TokenType::Identifier,
                                position,
                            },
                        );
                    }
                    object = Expr::MemberExpr(
                        MemberExpr {
                            object: Box::new(object),
                            property: Box::new(property),
                            computed: false,
                        },
                    );
                },
                TokenType::OpenBracket => {
                    self.advance();
                    let property = self.parse_expr()?;
                    self.require(TokenType::CloseBracket)?;
                    object = Expr::MemberExpr(
                        MemberExpr {
                            object: Box::new(object),
                            property: Box::new(property),
                            computed: true,
                        },
                    );
                },
                _ => {
                    break ;
                },
            }
        }
        Ok(object)
    }

    /// Parses a list of arguments in parentheses.
    fn parse_args(&mut self) -> (r: Result<Vec<Expr>, SyntaxError>)
        ensures
            final(self).tokens() == old(self).tokens(),
            final(self).position() <= final(self).tokens().len(),
            r is Ok ==> old(self).position() < final(self).position(),
            parsed_args(
                r,
                final(self).position(),
                grammar::arguments(old(self).tokens(), old(self).position()),
            ),
        decreases old(self).tokens().len() - old(self).position(), 29nat,
    {
        proof {
            use_type_invariant(&*self);
            grammar::arguments_unfolds(self.tokens(), self.position());
        }
        self.require(TokenType::OpenParen)?;
        let args = if matches!(self.kind(), TokenType::CloseParen) {
            let args: Vec<Expr> = Vec::new();
            assert(expr_views(args) =~= Seq::<ExprView>::empty());
            self.advance();
            args
        } else {
            let args = self.parse_arguments_list()?;
            self.require(TokenType::CloseParen)?;
            args
        };
        Ok(args)
    }

    /// Parses one or more arguments, separated by commas.
    fn parse_arguments_list(&mut self) -> (r: Result<Vec<Expr>, SyntaxError>)
        ensures
            final(self).tokens() == old(self).tokens(),
            final(self).position() <= final(self).tokens().len(),
            r is Ok ==> old(self).position() < final(self).position(),
            parsed_args(
                r,
                final(self).position(),
                grammar::arguments_list(old(self).tokens(), old(self).position()),
            ),
        decreases old(self).tokens().len() - old(self).position(), 28nat,
    {
        proof {
            use_type_invariant(&*self);
            grammar::arguments_list_unfolds(self.tokens(), self.position());
        }
        let ghost ts = self.tokens();
        let ghost start = self.position();
        let first = self.parse_assignment_expr()?;
        let mut args: Vec<Expr> = Vec::new();
        args.push(first);
        assert(expr_views(args) =~= seq![first@]);
        while matches!(self.kind(), TokenType::Comma)
            invariant
                ts == old(self).tokens(),
                start == old(self).position(),
                self.tokens() == ts,
                start < self.position() <= ts.len(),
                grammar::arguments_list(ts, start) == grammar::arguments_rest(
                    ts,
                    self.position(),
                    expr_views(args),
                ),
            decreases ts.len() - self.position(),
        {
            proof {
                grammar::arguments_rest_unfolds(ts, self.position(), expr_views(args));
            }
            let ghost before = expr_views(args);
            self.advance();
            let argument = self.parse_assignment_expr()?;
            args.push(argument);
            assert(expr_views(args) =~= before.push(argument@));
        }
        proof {
            grammar::arguments_rest_unfolds(ts, self.position(), expr_views(args));
        }
        Ok(args)
    }

    /// Parses the calls of `caller`, of which the first opens at the
    /// current token.
    fn parse_call_expr(&mut self, caller: Expr) -> (r: Result<Expr, SyntaxError>)
        ensures
            final(self).tokens() == old(self).tokens(),
            final(self).position() <= final(self).tokens().len(),
            r is Ok ==> old(self).position() < final(self).position(),
            parsed_expr(
                r,
                final(self).position(),
                grammar::call(old(self).tokens(), old(self).position(), caller@),
            ),
        decreases old(self).tokens().len() - old(self).position(), 30nat,
    {
        proof {
            use_type_invariant(&*self);
            grammar::call_unfolds(self.tokens(), self.position(), caller@);
        }
        let args = self.parse_args()?;
        let made = Expr::CallExpr(CallExpr { args, caller: Box::new(caller) });
        if matches!(self.kind(), TokenType::OpenParen) {
            self.parse_call_expr(made)
        } else {
            Ok(made)
        }
    }

    /// Parses a member expression and the calls behind it.
    fn parse_call_member_expr(&mut self) -> (r: Result<Expr, SyntaxError>)
        ensures
            final(self).tokens() == old(self).tokens(),
            final(self).position() <= final(self).tokens().len(),
            r is Ok ==> old(self).position() < final(self).position(),
            parsed_expr(
                r,
                final(self).position(),
                grammar::call_member(old(self).tokens(), old(self).position()),
            ),
        decreases old(self).tokens().len() - old(self).position(), 10nat,
    {
        proof {
            use_type_invariant(&*self);
            grammar::call_member_unfolds(self.tokens(), self.position());
        }
        let member = self.parse_member_expression()?;
        if matches!(self.kind(), TokenType::OpenParen) {
            self.parse_call_expr(member)
        } else {
            Ok(member)
        }
    }

    /// Parses a unary expression.
    fn parse_unary_expr(&mut self) -> (r: Result<Expr, SyntaxError>)
        ensures
            final(self).tokens() == old(self).tokens(),
            final(self).position() <= final(self).tokens().len(),
            r is Ok ==> old(self).position() < final(self).position(),
            parsed_expr(
                r,
                final(self).position(),
                grammar::unary(old(self).tokens(), old(self).position()),
            ),
        decreases old(self).tokens().len() - old(self).position(), 11nat,
    {
        proof {
            use_type_invariant(&*self);
            grammar::unary_unfolds(self.tokens(), self.position());
        }
        if self.at_operator("-") || self.at_operator("!") {
            let operator = self.eat().value;
            let operand = self.parse_unary_expr()?;
            Ok(Expr::UnaryExpr(UnaryExpr { operator, operand: Box::new(operand) }))
        } else {
            self.parse_call_member_expr()
        }
    }

    /// Parses a chain of `**`.
    fn parse_exponentiation_expr(&mut self) -> (r: Result<Expr, SyntaxError>)
        ensures
            final(self).tokens() == old(self).tokens(),
            final(self).position() <= final(self).tokens().len(),
            r is Ok ==> old(self).position() < final(self).position(),
            parsed_expr(
                r,
                final(self).position(),
                grammar::exponentiation(old(self).tokens(), old(self).position()),
            ),
        decreases old(self).tokens().len() - old(self).position(), 12nat,
    {
        proof {
            use_type_invariant(&*self);
            grammar::exponentiation_unfolds(self.tokens(), self.position());
        }
        let ghost ts = self.tokens();
        let ghost start = self.position();
        let mut left = self.parse_unary_expr()?;
        loop
            invariant
                ts == old(self).tokens(),
                start == old(self).position(),
                self.tokens() == ts,
                start < self.position() <= ts.len(),
                grammar::exponentiation(ts, start) == grammar::exponentiation_rest(
                    ts,
                    self.position(),
                    left@,
                ),
            ensures
                self.tokens() == ts,
                start < self.position() <= ts.len(),
                grammar::exponentiation(ts, start) == Ok::<(ExprView, nat), SyntaxError>(
                    (left@, self.position()),
                ),
            decreases ts.len() - self.position(),
        {
            proof {
                grammar::exponentiation_rest_unfolds(ts, self.position(), left@);
            }
            let operator = match self.exponent_operator() {
                Some(operator) => operator,
                None => {
                    break ;
                },
            };
            self.advance();
            let right = self.parse_unary_expr()?;
            left = Expr::BinaryExpr(
                BinaryExpr { left: Box::new(left), right: Box::new(right), operator },
            );
        }
        Ok(left)
    }

    /// Parses a chain of `*`, `/` and `%`.
    fn parse_multiplicative_expr(&mut self) -> (r: Result<Expr, SyntaxError>)
        ensures
            final(self).tokens() == old(self).tokens(),
            final(self).position() <= final(self).tokens().len(),
            r is Ok ==> old(self).position() < final(self).position(),
            parsed_expr(
                r,
                final(self).position(),
                grammar::multiplicative(old(self).tokens(), old(self).position()),
            ),
        decreases old(self).tokens().len() - old(self).position(), 13nat,
    {
        proof {
            use_type_invariant(&*self);
            grammar::multiplicative_unfolds(self.tokens(), self.position());
        }
        let ghost ts = self.tokens();
        let ghost start = self.position();
        let mut left = self.parse_exponentiation_expr()?;
        loop
            invariant
                ts == old(self).tokens(),
                start == old(self).position(),
                self.tokens() == ts,
                start < self.position() <= ts.len(),
                grammar::multiplicative(ts, start) == grammar::multiplicative_rest(
                    ts,
                    self.position(),
                    left@,
                ),
            ensures
                self.tokens() == ts,
                start < self.position() <= ts.len(),
                grammar::multiplicative(ts, start) == Ok::<(ExprView, nat), SyntaxError>(
                    (left@, self.position()),
                ),
            decreases ts.len() - self.position(),
        {
            proof {
                grammar::multiplicative_rest_unfolds(ts, self.position(), left@);
            }
            let operator = match self.multiplicative_operator() {
                Some(operator) => operator,
                None => {
                    break ;
                },
            };
            self.advance();
            let right = self.parse_exponentiation_expr()?;
            left = Expr::BinaryExpr(
                BinaryExpr { left: Box::new(left), right: Box::new(right), operator },
            );
        }
        Ok(left)
    }

    /// Parses a chain of `+`, `-`, `+=` and `-=`.
    fn parse_additive_expr(&mut self) -> (r: Result<Expr, SyntaxError>)
        ensures
            final(self).tokens() == old(self).tokens(),
            final(self).position() <= final(self).tokens().len(),
            r is Ok ==> old(self).position() < final(self).position(),
            parsed_expr(
                r,
                final(self).position(),
                grammar::additive(old(self).tokens(), old(self).position()),
            ),
        decreases old(self).tokens().len() - old(self).position(), 14nat,
    {
        proof {
            use_type_invariant(&*self);
            grammar::additive_unfolds(self.tokens(), self.position());
        }
        let ghost ts = self.tokens();
        let ghost start = self.position();
        let mut left = self.parse_multiplicative_expr()?;
        loop
            invariant
                ts == old(self).tokens(),
                start == old(self).position(),
                self.tokens() == ts,
                start < self.position() <= ts.len(),
                grammar::additive(ts, start) == grammar::additive_rest(
                    ts,
                    self.position(),
                    left@,
                ),
            ensures
                self.tokens() == ts,
                start < self.position() <= ts.len(),
                grammar::additive(ts, start) == Ok::<(ExprView, nat), SyntaxError>(
                    (left@, self.position()),
                ),
            decreases ts.len() - self.position(),
        {
            proof {
                grammar::additive_rest_unfolds(ts, self.position(), left@);
            }
            let (operator, compound) = match self.additive_operator() {
                Some(found) => found,
                None => {
                    break ;
                },
            };
            self.advance();
            let right = self.parse_multiplicative_expr()?;
            if compound {
                let ghost operand = left@;
                let ghost added = right@;
                let target = clone_expr(&left);
                let value = Expr::BinaryExpr(
                    BinaryExpr { left: Box::new(left), right: Box::new(right), operator },
                );
                assert(value@ == grammar::binary(operand, added, operator));
                left = Expr::AssignmentExpr(
                    AssignmentExpr { assignee: Box::new(target), value: Box::new(value) },
                );
                assert(left@ == grammar::additive_node(operand, added, operator, true));
            } else {
                left = Expr::BinaryExpr(
                    BinaryExpr { left: Box::new(left), right: Box::new(right), operator },
                );
            }
        }
        Ok(left)
    }

    /// Parses a chain of `&&` and `||`.
    fn parse_logical_expr(&mut self) -> (r: Result<Expr, SyntaxError>)
        ensures
            final(self).tokens() == old(self).tokens(),
            final(self).position() <= final(self).tokens().len(),
            r is Ok ==> old(self).position() < final(self).position(),
            parsed_expr(
                r,
                final(self).position(),
                grammar::logical(old(self).tokens(), old(self).position()),
            ),
        decreases old(self).tokens().len() - old(self).position(), 15nat,
    {
        proof {
            use_type_invariant(&*self);
            grammar::logical_unfolds(self.tokens(), self.position());
        }
        let ghost ts = self.tokens();
        let ghost start = self.position();
        let mut left = self.parse_additive_expr()?;
        loop
            invariant
                ts == old(self).tokens(),
                start == old(self).position(),
                self.tokens() == ts,
                start < self.position() <= ts.len(),
                grammar::logical(ts, start) == grammar::logical_rest(
                    ts,
                    self.position(),
                    left@,
                ),
            ensures
                self.tokens() == ts,
                start < self.position() <= ts.len(),
                grammar::logical(ts, start) == Ok::<(ExprView, nat), SyntaxError>(
                    (left@, self.position()),
                ),
            decreases ts.len() - self.position(),
        {
            proof {
                grammar::logical_rest_unfolds(ts, self.position(), left@);
            }
            let operator = match self.logical_operator() {
                Some(operator) => operator,
                None => {
                    break ;
                },
            };
            self.advance();
            let right = self.parse_additive_expr()?;
            left = Expr::BinaryExpr(
                BinaryExpr { left: Box::new(left), right: Box::new(right), operator },
            );
        }
        Ok(left)
    }

    /// Parses a chain of comparisons.
    fn parse_comparison_expr(&mut self) -> (r: Result<Expr, SyntaxError>)
        ensures
            final(self).tokens() == old(self).tokens(),
            final(self).position() <= final(self).tokens().len(),
            r is Ok ==> old(self).position() < final(self).position(),
            parsed_expr(
                r,
                final(self).position(),
                grammar::comparison(old(self).tokens(), old(self).position()),
            ),
        decreases old(self).tokens().len() - old(self).position(), 16nat,
    {
        proof {
            use_type_invariant(&*self);
            grammar::comparison_unfolds(self.tokens(), self.position());
        }
        let ghost ts = self.tokens();
        let ghost start = self.position();
        let mut left = self.parse_logical_expr()?;
        loop
            invariant
                ts == old(self).tokens(),
                start == old(self).position(),
                self.tokens() == ts,
                start < self.position() <= ts.len(),
                grammar::comparison(ts, start) == grammar::comparison_rest(
                    ts,
                    self.position(),
                    left@,
                ),
            ensures
                self.tokens() == ts,
                start < self.position() <= ts.len(),
                grammar::comparison(ts, start) == Ok::<(ExprView, nat), SyntaxError>(
                    (left@, self.position()),
                ),
            decreases ts.len() - self.position(),
        {
            proof {
                grammar::comparison_rest_unfolds(ts, self.position(), left@);
            }
            let operator = match self.comparison_operator() {
                Some(operator) => operator,
                None => {
                    break ;
                },
            };
            self.advance();
            let right = self.parse_logical_expr()?;
            left = Expr::BinaryExpr(
                BinaryExpr { left: Box::new(left), right: Box::new(right), operator },
            );
        }
        Ok(left)
    }

    /// Parses an object literal where one opens, else a comparison.
    fn parse_object_expr(&mut self) -> (r: Result<Expr, SyntaxError>)
        ensures
            final(self).tokens() == old(self).tokens(),
            final(self).position() <= final(self).tokens().len(),
            r is Ok ==> old(self).position() < final(self).position(),
            parsed_expr(
                r,
                final(self).position(),
                grammar::object(old(self).tokens(), old(self).position()),
            ),
        decreases old(self).tokens().len() - old(self).position(), 17nat,
    {
        proof {
            use_type_invariant(&*self);
            grammar::object_unfolds(self.tokens(), self.position());
        }
        if matches!(self.kind(), TokenType::OpenBrace) {
            self.parse_object_literal()
        } else {
            self.parse_comparison_expr()
        }
    }

    /// Parses an assignment, or what stands where its target would.
    fn parse_assignment_expr(&mut self) -> (r: Result<Expr, SyntaxError>)
        ensures
            final(self).tokens() == old(self).tokens(),
            final(self).position() <= final(self).tokens().len(),
            r is Ok ==> old(self).position() < final(self).position(),
            parsed_expr(
                r,
                final(self).position(),
                grammar::assignment(old(self).tokens(), old(self).position()),
            ),
        decreases old(self).tokens().len() - old(self).position(), 18nat,
    {
        proof {
            use_type_invariant(&*self);
            grammar::assignment_unfolds(self.tokens(), self.position());
        }
        let left = self.parse_object_expr()?;
        if matches!(self.kind(), TokenType::Assign) {
            self.advance();
            let value = self.parse_assignment_expr()?;
            Ok(
                Expr::AssignmentExpr(
                    AssignmentExpr { assignee: Box::new(left), value: Box::new(value) },
                ),
            )
        } else {
            Ok(left)
        }
    }

    /// Parses an expression.
    fn parse_expr(&mut self) -> (r: Result<Expr, SyntaxError>)
        ensures
            final(self).tokens() == old(self).tokens(),
            final(self).position() <= final(self).tokens().len(),
            r is Ok ==> old(self).position() < final(self).position(),
            parsed_expr(
                r,
                final(self).position(),
                grammar::expression(old(self).tokens(), old(self).position()),
            ),
        decreases old(self).tokens().len() - old(self).position(), 19nat,
    {
        proof {
            use_type_invariant(&*self);
            grammar::expression_unfolds(self.tokens(), self.position());
        }
        let ghost ts = self.tokens();
        let ghost start = self.position();
        while self.at_comment()
            invariant
                ts == old(self).tokens(),
                start == old(self).position(),
                self.tokens() == ts,
                start <= self.position() <= ts.len(),
                grammar::skip_comments(ts, start) == grammar::skip_comments(ts, self.position()),
            decreases ts.len() - self.position(),
        {
            self.advance();
        }
        match self.kind() {
            TokenType::If => {
                self.advance();
                self.parse_if_else_expr()
            },
            TokenType::OpenBrace => self.parse_object_expr(),
            _ => self.parse_assignment_expr(),
        }
    }

    /// Parses what follows `jos`.
    fn parse_if_else_expr(&mut self) -> (r: Result<Expr, SyntaxError>)
        ensures
            final(self).tokens() == old(self).tokens(),
            final(self).position() <= final(self).tokens().len(),
            r is Ok ==> old(self).position() < final(self).position(),
            parsed_expr(
                r,
                final(self).position(),
                grammar::if_else(old(self).tokens(), old(self).position()),
            ),
        decreases old(self).tokens().len() - old(self).position(), 29nat,
    {
        proof {
            use_type_invariant(&*self);
            grammar::if_else_unfolds(self.tokens(), self.position());
        }
        let condition = self.parse_expr()?;
        let if_branch = self.parse_block()?;
        let else_branch = if matches!(self.kind(), TokenType::Else) {
            self.advance();
            Some(self.parse_block()?)
        } else {
            None
        };
        Ok(
            Expr::IfElseExpr(
                IfElseExpr { condition: Box::new(condition), if_branch, else_branch },
            ),
        )
    }

    /// Parses a block.
    fn parse_block(&mut self) -> (r: Result<Block, SyntaxError>)
        ensures
            final(self).tokens() == old(self).tokens(),
            final(self).position() <= final(self).tokens().len(),
            r is Ok ==> old(self).position() < final(self).position(),
            match r {
                Ok(block) => grammar::block(old(self).tokens(), old(self).position()) == Ok::<
                    (Seq<StmtView>, nat),
                    SyntaxError,
                >((stmt_views(block.statements), final(self).position())),
                Err(error) => grammar::block(old(self).tokens(), old(self).position()) == Err::<
                    (Seq<StmtView>, nat),
                    SyntaxError,
                >(error),
            },
        decreases old(self).tokens().len() - old(self).position(), 29nat,
    {
        proof {
            use_type_invariant(&*self);
            grammar::block_unfolds(self.tokens(), self.position());
        }
        self.require(TokenType::OpenBrace)?;
        let statements = self.parse_statements()?;
        Ok(Block { statements })
    }

    /// Parses the statements of a block, up to and with its `}`.
    fn parse_statements(&mut self) -> (r: Result<Vec<Stmt>, SyntaxError>)
        ensures
            final(self).tokens() == old(self).tokens(),
            final(self).position() <= final(self).tokens().len(),
            r is Ok ==> old(self).position() < final(self).position(),
            parsed_block(
                r,
                final(self).position(),
                grammar::statements(old(self).tokens(), old(self).position(), Seq::empty()),
            ),
        decreases old(self).tokens().len() - old(self).position(), 32nat,
    {
        proof {
            use_type_invariant(&*self);
            grammar::statements_unfolds(self.tokens(), self.position(), Seq::empty());
        }
        let ghost ts = self.tokens();
        let ghost start = self.position();
        let mut statements: Vec<Stmt> = Vec::new();
        assert(stmt_views(statements) =~= Seq::<StmtView>::empty());
        while !matches!(self.kind(), TokenType::CloseBrace)
            invariant
                ts == old(self).tokens(),
                start == old(self).position(),
                self.tokens() == ts,
                start <= self.position() <= ts.len(),
                grammar::statements(ts, start, Seq::empty()) == grammar::statements(
                    ts,
                    self.position(),
                    stmt_views(statements),
                ),
            decreases ts.len() - self.position(),
        {
            proof {
                grammar::statements_unfolds(ts, self.position(), stmt_views(statements));
            }
            if !self.not_eof() {
                return Err(
                    SyntaxError::ExpectedToken {
                        expected: TokenType::CloseBrace,
                        position: self.position,
                    },
                );
            }
            let ghost before = stmt_views(statements);
            let statement = self.parse_stmt()?;
            statements.push(statement);
            assert(stmt_views(statements) =~= before.push(statement@));
        }
        proof {
            grammar::statements_unfolds(ts, self.position(), stmt_views(statements));
        }
        self.advance();
        Ok(statements)
    }

    /// Consumes the `;` that closes a declaration.
    fn expect_semicolon(&mut self) -> (r: Result<(), SyntaxError>)
        ensures
            final(self).tokens() == old(self).tokens(),
            final(self).position() <= final(self).tokens().len(),
            match r {
                Ok(_) => grammar::expected(
                    old(self).tokens(),
                    old(self).position(),
                    TokenType::SemiColon,
                ) == Ok::<nat, SyntaxError>(final(self).position()) && final(self).position()
                    == old(self).position() + 1,
                Err(e) => grammar::expected(
                    old(self).tokens(),
                    old(self).position(),
                    TokenType::SemiColon,
                ) == Err::<nat, SyntaxError>(e),
            },
    {
        match self.require(TokenType::SemiColon) {
            Ok(_) => Ok(()),
            Err(e) => Err(e),
        }
    }

    /// Parses a declaration of a variable or constant, without its `;`.
    fn parse_var_declaration(&mut self) -> (r: Result<Stmt, SyntaxError>)
        requires
            grammar::kind_at(old(self).tokens(), old(self).position()) == TokenType::Let
                || grammar::kind_at(old(self).tokens(), old(self).position()) == TokenType::Const,
        ensures
            final(self).tokens() == old(self).tokens(),
            final(self).position() <= final(self).tokens().len(),
            r is Ok ==> old(self).position() < final(self).position(),
            parsed_stmt(
                r,
                final(self).position(),
                grammar::var_declaration(old(self).tokens(), old(self).position()),
            ),
        decreases old(self).tokens().len() - old(self).position(), 29nat,
    {
        proof {
            use_type_invariant(&*self);
            grammar::var_declaration_unfolds(self.tokens(), self.position());
        }
        let start = self.position;
        let constant = matches!(self.kind(), TokenType::Const);
        self.advance();
        let identifier = Identifier { symbol: self.require(TokenType::Identifier)?.value };
        let value = if matches!(self.kind(), TokenType::Assign) {
            self.advance();
            Some(self.parse_expr()?)
        } else if constant {
            return Err(SyntaxError::MissingInitializer { position: start });
        } else {
            None
        };
        Ok(Stmt::VarDeclaration(VarDeclaration { constant, identifier, value }))
    }

    /// Parses the declaration of a function.
    fn parse_fn_declaration(&mut self) -> (r: Result<Stmt, SyntaxError>)
        requires
            grammar::kind_at(old(self).tokens(), old(self).position()) == TokenType::Fn,
        ensures
            final(self).tokens() == old(self).tokens(),
            final(self).position() <= final(self).tokens().len(),
            r is Ok ==> old(self).position() < final(self).position(),
            parsed_stmt(
                r,
                final(self).position(),
                grammar::fn_declaration(old(self).tokens(), old(self).position()),
            ),
        decreases old(self).tokens().len() - old(self).position(), 29nat,
    {
        proof {
            use_type_invariant(&*self);
            grammar::fn_declaration_unfolds(self.tokens(), self.position());
        }
        self.advance();
        let name = self.require(TokenType::Identifier)?.value;
        let opening = self.position;
        let args = self.parse_args()?;
        let parameters = match parameter_list(args) {
            Some(parameters) => parameters,
            None => {
                return Err(SyntaxError::InvalidParameter { position: opening });
            },
        };
        let body = self.parse_block()?.statements;
        Ok(Stmt::FunctionDeclaration(FunctionDeclaration { parameters, name, body }))
    }

    /// Parses what follows `toista`.
    fn parse_for_loop(&mut self) -> (r: Result<Stmt, SyntaxError>)
        ensures
            final(self).tokens() == old(self).tokens(),
            final(self).position() <= final(self).tokens().len(),
            r is Ok ==> old(self).position() < final(self).position(),
            parsed_stmt(
                r,
                final(self).position(),
                grammar::for_loop(old(self).tokens(), old(self).position()),
            ),
        decreases old(self).tokens().len() - old(self).position(), 29nat,
    {
        proof {
            use_type_invariant(&*self);
            grammar::for_loop_unfolds(self.tokens(), self.position());
        }
        self.require(TokenType::OpenParen)?;
        let symbol = self.require(TokenType::Identifier)?.value;
        self.require(TokenType::Assign)?;
        let start = self.parse_expr()?;
        self.require(TokenType::SemiColon)?;
        let condition = self.parse_expr()?;
        self.require(TokenType::SemiColon)?;
        let increment = self.parse_expr()?;
        self.require(TokenType::CloseParen)?;
        let body = self.parse_block()?;
        let initializer = Stmt::VarDeclaration(
            VarDeclaration { constant: false, identifier: Identifier { symbol }, value: Some(start) },
        );
        assert(initializer@ == (StmtView::VarDeclaration {
            constant: false,
            identifier: symbol@,
            value: Some(Box::new(start@)),
        }));
        Ok(
            Stmt::ForLoop(
                ForLoop {
                    initializer: Box::new(initializer),
                    condition: Box::new(condition),
                    increment: Box::new(increment),
                    body,
                },
            ),
        )
    }

    /// Parses a statement.
    fn parse_stmt(&mut self) -> (r: Result<Stmt, SyntaxError>)
        ensures
            final(self).tokens() == old(self).tokens(),
            final(self).position() <= final(self).tokens().len(),
            r is Ok ==> old(self).position() < final(self).position(),
            parsed_stmt(
                r,
                final(self).position(),
                grammar::statement(old(self).tokens(), old(self).position()),
            ),
        decreases old(self).tokens().len() - old(self).position(), 31nat,
    {
        proof {
            use_type_invariant(&*self);
            grammar::statement_unfolds(self.tokens(), self.position());
        }
        match self.kind() {
            TokenType::If => {
                self.advance();
                let expr = self.parse_if_else_expr()?;
                Ok(Stmt::Expr(expr))
            },
            TokenType::While => {
                self.advance();
                let condition = self.parse_expr()?;
                let body = self.parse_block()?;
                Ok(Stmt::WhileLoop(WhileLoop { condition: Box::new(condition), body }))
            },
            TokenType::For => {
                self.advance();
                self.parse_for_loop()
            },
            TokenType::Let => {
                let stmt = self.parse_var_declaration()?;
                self.expect_semicolon()?;
                Ok(stmt)
            },
            TokenType::Const => {
                let stmt = self.parse_var_declaration()?;
                self.expect_semicolon()?;
                Ok(stmt)
            },
            TokenType::Fn => self.parse_fn_declaration(),
            _ => {
                let expr = self.parse_expr()?;
                if matches!(self.kind(), TokenType::SemiColon) {
                    self.advance();
                }
                Ok(Stmt::Expr(expr))
            },
        }
    }

    /// Parses the statements from the current token up to the `EOF` token
    /// into a program. The result is what the grammar assigns to the
    /// tokens: the program, or the first violation.
    pub fn produce_ast(&mut self) -> (r: Result<Program, SyntaxError>)
        ensures
            final(self).tokens() == old(self).tokens(),
            match r {
                Ok(program) => grammar::program_rest(
                    old(self).tokens(),
                    old(self).position(),
                    Seq::empty(),
                ) == Ok::<Seq<StmtView>, SyntaxError>(stmt_views(program.body)),
                Err(error) => grammar::program_rest(
                    old(self).tokens(),
                    old(self).position(),
                    Seq::empty(),
                ) == Err::<Seq<StmtView>, SyntaxError>(error),
            },
    {
        proof {
            use_type_invariant(&*self);
        }
        let ghost ts = self.tokens();
        let ghost start = self.position();
        let mut body: Vec<Stmt> = Vec::new();
        assert(stmt_views(body) =~= Seq::<StmtView>::empty());
        while self.not_eof()
            invariant
                ts == old(self).tokens(),
                start == old(self).position(),
                self.tokens() == ts,
                self.position() <= ts.len(),
                grammar::program_rest(ts, start, Seq::empty()) == grammar::program_rest(
                    ts,
                    self.position(),
                    stmt_views(body),
                ),
            decreases ts.len() - self.position(),
        {
            let ghost before = stmt_views(body);
            let ghost here = self.position();
            assert(grammar::program_rest(ts, here, before) == match grammar::advanced(
                ts,
                here,
                grammar::statement(ts, here),
            ) {
                Err(e) => Err::<Seq<StmtView>, SyntaxError>(e),
                Ok((s, p)) => grammar::program_rest(ts, p, before.push(s)),
            });
            let statement = self.parse_stmt()?;
            body.push(statement);
            assert(stmt_views(body) =~= before.push(statement@));
        }
        Ok(Program { body })
    }

}


/// The program that a source text stands for: the statements that the
/// grammar assigns to its tokens, or the first error, lexical or syntactic.
pub open spec fn parsed(source: Seq<char>) -> Result<Seq<StmtView>, ParseError> {
    match lex(source) {
        Err(e) => Err(ParseError::Lexical(e)),
        Ok(tokens) => match grammar::program(tokens) {
            Err(e) => Err(ParseError::Syntax(e)),
            Ok(body) => Ok(body),
        },
    }
}

/// Tokenizes and parses a source text: computes [`parsed`].
pub fn parse(source: &str) -> (r: Result<Program, ParseError>)
    ensures
        match r {
            Ok(program) => parsed(source@) == Ok::<Seq<StmtView>, ParseError>(
                stmt_views(program.body),
            ),
            Err(e) => parsed(source@) == Err::<Seq<StmtView>, ParseError>(e),
        },
{
    match tokenize(source) {
        Err(e) => Err(ParseError::Lexical(e)),
        Ok(tokens) => match Parser::new(tokens).produce_ast() {
            Err(e) => Err(ParseError::Syntax(e)),
            Ok(program) => Ok(program),
        },
    }
}


/// Tokenizing and then parsing a source text that stands for a program
/// gives a program with one statement for each top-level statement of the
/// source: the tokens end with the one `EOF` token, the statements divide
/// the tokens before it among them, each taking at least one, and the
/// program holds as many statements as there are.
pub proof fn lemma_round_trip(source: Seq<char>)
    ensures
        parsed(source) matches Ok(body) ==> {
            let tokens = lex(source)->Ok_0;
            let ends = grammar::statement_ends(tokens, 0);
            &&& lex(source) is Ok
            &&& closed_by_eof(tokens)
            &&& body.len() == ends.len()
            &&& forall|i: int|
                0 <= i < ends.len() ==> grammar::statement_start(tokens, 0, i) < #[trigger] ends[i]
                    <= tokens.len()
            &&& grammar::statement_start(tokens, 0, ends.len() as int) >= tokens.len() - 1
        },
{
    if let Ok(body) = parsed(source) {
        let tokens = lex(source)->Ok_0;
        lemma_lex_closed_by_eof(source);
        grammar::lemma_program_statements(tokens, 0, Seq::empty());
        let ends = grammar::statement_ends(tokens, 0);
        let stop = grammar::statement_start(tokens, 0, ends.len() as int);
        if stop < tokens.len() - 1 {
            assert(tokens[stop as int].token_type != TokenType::EOF);
        }
    }
}

} // verus!
