use kaulin::error::{ErrorKind, LexError, ParseError, SyntaxError};
use kaulin::frontend::ast::{
    ArrayLiteral, AssignmentExpr, BinaryExpr, BinaryOperator, Block, CallExpr, Expr, FloatLiteral,
    ForLoop, FunctionDeclaration, Identifier, IfElseExpr, MemberExpr, NumericLiteral,
    ObjectLiteral, Program, Property, Stmt, StringLiteral, UnaryExpr, VarDeclaration, WhileLoop,
};
use kaulin::frontend::lexer::{tokenize, Token, TokenType};
use kaulin::frontend::parser::{parameter_list, parse, Parser};

fn num(text: &str) -> Expr {
    Expr::NumericLiteral(NumericLiteral { value: text.to_string() })
}

fn float(text: &str) -> Expr {
    Expr::FloatLiteral(FloatLiteral { value: text.to_string() })
}

fn text(value: &str) -> Expr {
    Expr::StringLiteral(StringLiteral { value: value.to_string() })
}

fn ident(symbol: &str) -> Expr {
    Expr::Identifier(Identifier { symbol: symbol.to_string() })
}

fn bin(left: Expr, operator: BinaryOperator, right: Expr) -> Expr {
    Expr::BinaryExpr(BinaryExpr { left: Box::new(left), right: Box::new(right), operator })
}

fn assign(assignee: Expr, value: Expr) -> Expr {
    Expr::AssignmentExpr(AssignmentExpr { assignee: Box::new(assignee), value: Box::new(value) })
}

fn unary(operator: &str, operand: Expr) -> Expr {
    Expr::UnaryExpr(UnaryExpr { operator: operator.to_string(), operand: Box::new(operand) })
}

fn call(caller: Expr, args: Vec<Expr>) -> Expr {
    Expr::CallExpr(CallExpr { args, caller: Box::new(caller) })
}

fn member(object: Expr, property: Expr, computed: bool) -> Expr {
    Expr::MemberExpr(MemberExpr { object: Box::new(object), property: Box::new(property), computed })
}

fn array(elements: Vec<Expr>) -> Expr {
    Expr::ArrayLiteral(ArrayLiteral { elements: elements.into_iter().map(Box::new).collect() })
}

fn object(entries: Vec<(&str, Option<Expr>)>) -> Expr {
    Expr::ObjectLiteral(ObjectLiteral {
        properties: entries
            .into_iter()
            .map(|(key, value)| Property { key: key.to_string(), value: value.map(Box::new) })
            .collect(),
    })
}

fn block(statements: Vec<Stmt>) -> Block {
    Block { statements }
}

fn if_else(condition: Expr, if_branch: Vec<Stmt>, else_branch: Option<Vec<Stmt>>) -> Expr {
    Expr::IfElseExpr(IfElseExpr {
        condition: Box::new(condition),
        if_branch: block(if_branch),
        else_branch: else_branch.map(block),
    })
}

fn declare(constant: bool, name: &str, value: Option<Expr>) -> Stmt {
    Stmt::VarDeclaration(VarDeclaration {
        constant,
        identifier: Identifier { symbol: name.to_string() },
        value,
    })
}

fn shown<T: std::fmt::Debug>(value: &T) -> String {
    format!("{:?}", value)
}

fn body(source: &str) -> Vec<Stmt> {
    parse(source).unwrap().body
}

fn single(source: &str) -> Expr {
    let mut statements = body(source);
    assert_eq!(statements.len(), 1, "{source}");
    match statements.remove(0) {
        Stmt::Expr(expr) => expr,
        other => panic!("not an expression: {:?}", other),
    }
}

fn same(source: &str, expected: Expr) {
    assert_eq!(shown(&single(source)), shown(&expected), "{source}");
}

fn syntax_error(source: &str) -> SyntaxError {
    match parse(source) {
        Err(ParseError::Syntax(error)) => error,
        other => panic!("no syntax error: {:?}", other),
    }
}

#[test]
fn product_binds_tighter_than_sum() {
    same(
        "2 + 3 * 4",
        bin(num("2"), BinaryOperator::Add, bin(num("3"), BinaryOperator::Multiply, num("4"))),
    );
    same(
        "2 * 3 + 4",
        bin(bin(num("2"), BinaryOperator::Multiply, num("3")), BinaryOperator::Add, num("4")),
    );
}

#[test]
fn parentheses_group() {
    same(
        "(2 + 3) * 4",
        bin(bin(num("2"), BinaryOperator::Add, num("3")), BinaryOperator::Multiply, num("4")),
    );
}

#[test]
fn power_is_read_from_the_left() {
    same(
        "2 ** 3 ** 2",
        bin(bin(num("2"), BinaryOperator::Exponent, num("3")), BinaryOperator::Exponent, num("2")),
    );
}

#[test]
fn power_binds_tighter_than_product() {
    same(
        "2 * 3 ** 2",
        bin(num("2"), BinaryOperator::Multiply, bin(num("3"), BinaryOperator::Exponent, num("2"))),
    );
}

#[test]
fn sums_and_differences_are_read_from_the_left() {
    same(
        "1 - 2 - 3",
        bin(bin(num("1"), BinaryOperator::Subtract, num("2")), BinaryOperator::Subtract, num("3")),
    );
    same(
        "8 / 4 % 3",
        bin(bin(num("8"), BinaryOperator::Divide, num("4")), BinaryOperator::Modulus, num("3")),
    );
}

#[test]
fn logical_operators_bind_tighter_than_comparisons() {
    same(
        "a == b && c",
        bin(ident("a"), BinaryOperator::Equal, bin(ident("b"), BinaryOperator::And, ident("c"))),
    );
    same(
        "a || b < c",
        bin(bin(ident("a"), BinaryOperator::Or, ident("b")), BinaryOperator::LessThan, ident("c")),
    );
}

#[test]
fn every_comparison_has_its_operator() {
    for (sign, operator) in [
        ("==", BinaryOperator::Equal),
        ("!=", BinaryOperator::NotEqual),
        ("<", BinaryOperator::LessThan),
        (">", BinaryOperator::GreaterThan),
        ("<=", BinaryOperator::LessThanOrEqual),
        (">=", BinaryOperator::GreaterThanOrEqual),
    ] {
        same(&format!("a {sign} b"), bin(ident("a"), operator, ident("b")));
    }
}

#[test]
fn comparison_binds_looser_than_sum() {
    same(
        "a + 1 < b * 2",
        bin(
            bin(ident("a"), BinaryOperator::Add, num("1")),
            BinaryOperator::LessThan,
            bin(ident("b"), BinaryOperator::Multiply, num("2")),
        ),
    );
}

#[test]
fn assignment_is_read_from_the_right() {
    same("a = b = 1", assign(ident("a"), assign(ident("b"), num("1"))));
}

#[test]
fn compound_assignment_becomes_an_assignment_of_a_sum() {
    same("x += 3", assign(ident("x"), bin(ident("x"), BinaryOperator::Add, num("3"))));
    same("x -= 3", assign(ident("x"), bin(ident("x"), BinaryOperator::Subtract, num("3"))));
    assert_eq!(shown(&single("x += 3")), shown(&single("x = x + 3")));
}

#[test]
fn compound_assignment_takes_a_product_as_its_right_side() {
    same(
        "x += 2 * 3",
        assign(
            ident("x"),
            bin(ident("x"), BinaryOperator::Add, bin(num("2"), BinaryOperator::Multiply, num("3"))),
        ),
    );
}

#[test]
fn unary_signs_nest_from_the_right() {
    same("-x", unary("-", ident("x")));
    same("!x", unary("!", ident("x")));
    same("- - x", unary("-", unary("-", ident("x"))));
    same("!-x", unary("!", unary("-", ident("x"))));
    same("-x ** 2", bin(unary("-", ident("x")), BinaryOperator::Exponent, num("2")));
    same("1 - -2", bin(num("1"), BinaryOperator::Subtract, unary("-", num("2"))));
}

#[test]
fn a_quoted_sign_is_no_operator() {
    same("'-'", text("-"));
    assert_eq!(body("a '+' b").len(), 3);
}

#[test]
fn literals() {
    same("12", num("12"));
    same("1.5", float("1.5"));
    same("7.", float("7."));
    same("'hei'", text("hei"));
    same("\"\"", text(""));
    same("nimi", ident("nimi"));
}

#[test]
fn member_access_chains_from_the_left() {
    same("a.b.c", member(member(ident("a"), ident("b"), false), ident("c"), false));
    same("a[b]", member(ident("a"), ident("b"), true));
    same(
        "a[1 + 2].c",
        member(
            member(ident("a"), bin(num("1"), BinaryOperator::Add, num("2")), true),
            ident("c"),
            false,
        ),
    );
}

#[test]
fn calls_chain() {
    same("f()", call(ident("f"), vec![]));
    same("f(1, x)", call(ident("f"), vec![num("1"), ident("x")]));
    same("f()()", call(call(ident("f"), vec![]), vec![]));
    same("f(1)(2)(3)", call(call(call(ident("f"), vec![num("1")]), vec![num("2")]), vec![num("3")]));
    same("a.b(1)", call(member(ident("a"), ident("b"), false), vec![num("1")]));
    same("f(x = 1)", call(ident("f"), vec![assign(ident("x"), num("1"))]));
}

#[test]
fn array_literals() {
    same("[]", array(vec![]));
    same("[1, 'a', x]", array(vec![num("1"), text("a"), ident("x")]));
    same("[1, 2,]", array(vec![num("1"), num("2")]));
    same("[[1], []]", array(vec![array(vec![num("1")]), array(vec![])]));
}

#[test]
fn object_literals() {
    same("{}", object(vec![]));
    same("{ a: 1, b: 'x' }", object(vec![("a", Some(num("1"))), ("b", Some(text("x")))]));
    same("{ a, b }", object(vec![("a", None), ("b", None)]));
    same("{ a, b: 2, }", object(vec![("a", None), ("b", Some(num("2")))]));
    same("{ a: { b: 1 } }", object(vec![("a", Some(object(vec![("b", Some(num("1")))])))]));
    same("f({ a: 1 })", call(ident("f"), vec![object(vec![("a", Some(num("1")))])]));
    same(
        "1 + { a: 1 }.a",
        bin(
            num("1"),
            BinaryOperator::Add,
            member(object(vec![("a", Some(num("1")))]), ident("a"), false),
        ),
    );
}

#[test]
fn if_else_is_an_expression() {
    same(
        "jos x < 1 { 1 } muuten { 2 }",
        if_else(
            bin(ident("x"), BinaryOperator::LessThan, num("1")),
            vec![Stmt::Expr(num("1"))],
            Some(vec![Stmt::Expr(num("2"))]),
        ),
    );
    same("jos x { }", if_else(ident("x"), vec![], None));
    same(
        "y = jos x { 1 } muuten { 2 }",
        assign(
            ident("y"),
            if_else(ident("x"), vec![Stmt::Expr(num("1"))], Some(vec![Stmt::Expr(num("2"))])),
        ),
    );
    same(
        "f(jos x { 1 })",
        call(ident("f"), vec![if_else(ident("x"), vec![Stmt::Expr(num("1"))], None)]),
    );
    same(
        "1 + jos x { 1 } muuten { 2 }",
        bin(
            num("1"),
            BinaryOperator::Add,
            if_else(ident("x"), vec![Stmt::Expr(num("1"))], Some(vec![Stmt::Expr(num("2"))])),
        ),
    );
}

#[test]
fn declarations() {
    assert_eq!(shown(&body("olkoon x = 5;")), shown(&vec![declare(false, "x", Some(num("5")))]));
    assert_eq!(shown(&body("olkoon x;")), shown(&vec![declare(false, "x", None)]));
    assert_eq!(shown(&body("vakio y = 1;")), shown(&vec![declare(true, "y", Some(num("1")))]));
    assert_eq!(
        shown(&body("olkoon o = { a: 1 };")),
        shown(&vec![declare(false, "o", Some(object(vec![("a", Some(num("1")))])))])
    );
}

#[test]
fn a_constant_needs_a_value() {
    assert_eq!(syntax_error("vakio y;"), SyntaxError::MissingInitializer { position: 0 });
    assert_eq!(syntax_error("olkoon x; vakio y;"), SyntaxError::MissingInitializer { position: 3 });
}

#[test]
fn a_declaration_needs_a_name_and_a_semicolon() {
    assert_eq!(
        syntax_error("olkoon = 5;"),
        SyntaxError::ExpectedToken { expected: TokenType::Identifier, position: 1 }
    );
    assert_eq!(
        syntax_error("olkoon x = 5"),
        SyntaxError::ExpectedToken { expected: TokenType::SemiColon, position: 4 }
    );
}

#[test]
fn function_declarations() {
    let expected = Stmt::FunctionDeclaration(FunctionDeclaration {
        parameters: vec!["a".to_string(), "b".to_string()],
        name: "summa".to_string(),
        body: vec![Stmt::Expr(bin(ident("a"), BinaryOperator::Add, ident("b")))],
    });
    assert_eq!(shown(&body("funktio summa(a, b) { a + b }")), shown(&vec![expected]));
    let empty = Stmt::FunctionDeclaration(FunctionDeclaration {
        parameters: vec![],
        name: "f".to_string(),
        body: vec![],
    });
    assert_eq!(shown(&body("funktio f() { }")), shown(&vec![empty]));
}

#[test]
fn nested_function_declaration() {
    let inner = Stmt::FunctionDeclaration(FunctionDeclaration {
        parameters: vec!["b".to_string()],
        name: "sisa".to_string(),
        body: vec![Stmt::Expr(bin(ident("a"), BinaryOperator::Add, ident("b")))],
    });
    let outer = Stmt::FunctionDeclaration(FunctionDeclaration {
        parameters: vec!["a".to_string()],
        name: "tee".to_string(),
        body: vec![inner, Stmt::Expr(ident("sisa"))],
    });
    assert_eq!(
        shown(&body("funktio tee(a) { funktio sisa(b) { a + b } sisa }")),
        shown(&vec![outer])
    );
}

#[test]
fn function_parameters_must_be_names() {
    assert_eq!(syntax_error("funktio f(1) { }"), SyntaxError::InvalidParameter { position: 2 });
    assert_eq!(syntax_error("funktio f(a, b + 1) { }"), SyntaxError::InvalidParameter { position: 2 });
    assert_eq!(
        syntax_error("funktio (a) { }"),
        SyntaxError::ExpectedToken { expected: TokenType::Identifier, position: 1 }
    );
    assert_eq!(
        syntax_error("funktio f { }"),
        SyntaxError::ExpectedToken { expected: TokenType::OpenParen, position: 2 }
    );
    assert_eq!(
        syntax_error("funktio f() 1"),
        SyntaxError::ExpectedToken { expected: TokenType::OpenBrace, position: 4 }
    );
}

#[test]
fn parameter_list_takes_names_only() {
    assert_eq!(parameter_list(vec![ident("a"), ident("b")]), Some(vec!["a".to_string(), "b".to_string()]));
    assert_eq!(parameter_list(vec![]), Some(vec![]));
    assert_eq!(parameter_list(vec![ident("a"), num("1")]), None);
}

#[test]
fn while_loops() {
    let expected = Stmt::WhileLoop(WhileLoop {
        condition: Box::new(bin(ident("x"), BinaryOperator::LessThan, num("3"))),
        body: block(vec![Stmt::Expr(assign(
            ident("x"),
            bin(ident("x"), BinaryOperator::Add, num("1")),
        ))]),
    });
    assert_eq!(shown(&body("kun x < 3 { x += 1 }")), shown(&vec![expected]));
}

#[test]
fn for_loops_declare_their_variable() {
    let expected = Stmt::ForLoop(ForLoop {
        initializer: Box::new(declare(false, "i", Some(num("0")))),
        condition: Box::new(bin(ident("i"), BinaryOperator::LessThan, num("3"))),
        increment: Box::new(assign(ident("i"), bin(ident("i"), BinaryOperator::Add, num("1")))),
        body: block(vec![Stmt::Expr(call(ident("tulosta"), vec![ident("i")]))]),
    });
    assert_eq!(
        shown(&body("toista (i = 0; i < 3; i += 1) { tulosta(i) }")),
        shown(&vec![expected])
    );
}

#[test]
fn for_loop_needs_every_part() {
    assert_eq!(
        syntax_error("toista i = 0; i < 3; i += 1) { }"),
        SyntaxError::ExpectedToken { expected: TokenType::OpenParen, position: 1 }
    );
    assert_eq!(
        syntax_error("toista (olkoon i = 0; i < 3; i += 1) { }"),
        SyntaxError::ExpectedToken { expected: TokenType::Identifier, position: 2 }
    );
    assert_eq!(
        syntax_error("toista (i = 0, i < 3; i += 1) { }"),
        SyntaxError::ExpectedToken { expected: TokenType::SemiColon, position: 5 }
    );
    assert_eq!(
        syntax_error("toista (i = 0; i < 3; i += 1 { }"),
        SyntaxError::ExpectedToken { expected: TokenType::CloseParen, position: 13 }
    );
}

#[test]
fn a_program_has_as_many_statements_as_the_source() {
    assert_eq!(body("").len(), 0);
    assert_eq!(body("1").len(), 1);
    assert_eq!(body("olkoon x = 5; x += 3;").len(), 2);
    assert_eq!(body("olkoon x = 1; x + 2; funktio f() { 1 } f()").len(), 4);
    assert_eq!(body("jos x { 1 } muuten { 2 } kun x { } toista (i = 0; i; i) { }").len(), 3);
    assert_eq!(body("// kommentti\nx /* toinen */ y").len(), 2);
}

#[test]
fn a_semicolon_may_follow_an_expression_statement() {
    assert_eq!(shown(&body("x = 1;")), shown(&body("x = 1")));
    assert_eq!(body("f(); g();").len(), 2);
    assert_eq!(syntax_error(";"), SyntaxError::UnexpectedToken { position: 0 });
    assert_eq!(syntax_error("x;;"), SyntaxError::UnexpectedToken { position: 2 });
}

#[test]
fn a_missing_closing_brace_is_an_error() {
    assert_eq!(
        syntax_error("kun x { y"),
        SyntaxError::ExpectedToken { expected: TokenType::CloseBrace, position: 4 }
    );
    assert_eq!(
        syntax_error("funktio f() { 1"),
        SyntaxError::ExpectedToken { expected: TokenType::CloseBrace, position: 6 }
    );
    assert_eq!(
        syntax_error("jos x { 1 } muuten { 2"),
        SyntaxError::ExpectedToken { expected: TokenType::CloseBrace, position: 8 }
    );
    assert_eq!(
        syntax_error("jos x 1"),
        SyntaxError::ExpectedToken { expected: TokenType::OpenBrace, position: 2 }
    );
}

#[test]
fn a_stray_else_is_an_error() {
    assert_eq!(syntax_error("muuten { 1 }"), SyntaxError::UnexpectedToken { position: 0 });
}

#[test]
fn unbalanced_brackets_are_errors() {
    assert_eq!(
        syntax_error("(1 + 2"),
        SyntaxError::ExpectedToken { expected: TokenType::CloseParen, position: 4 }
    );
    assert_eq!(
        syntax_error("[1, 2"),
        SyntaxError::ExpectedToken { expected: TokenType::Comma, position: 4 }
    );
    assert_eq!(
        syntax_error("[1, 2,"),
        SyntaxError::ExpectedToken { expected: TokenType::CloseBracket, position: 5 }
    );
    assert_eq!(
        syntax_error("[1 2]"),
        SyntaxError::ExpectedToken { expected: TokenType::Comma, position: 2 }
    );
    assert_eq!(
        syntax_error("f(1, 2"),
        SyntaxError::ExpectedToken { expected: TokenType::CloseParen, position: 5 }
    );
    assert_eq!(
        syntax_error("a[1"),
        SyntaxError::ExpectedToken { expected: TokenType::CloseBracket, position: 3 }
    );
    assert_eq!(
        syntax_error("{ a: 1"),
        SyntaxError::ExpectedToken { expected: TokenType::Comma, position: 4 }
    );
    assert_eq!(
        syntax_error("{ a: 1,"),
        SyntaxError::ExpectedToken { expected: TokenType::CloseBrace, position: 5 }
    );
    assert_eq!(
        syntax_error("{ a 1 }"),
        SyntaxError::ExpectedToken { expected: TokenType::Colon, position: 2 }
    );
    assert_eq!(
        syntax_error("{ 1: 2 }"),
        SyntaxError::ExpectedToken { expected: TokenType::Identifier, position: 1 }
    );
}

#[test]
fn an_operator_needs_its_operand() {
    assert_eq!(syntax_error("1 +"), SyntaxError::UnexpectedToken { position: 2 });
    assert_eq!(syntax_error("* 2"), SyntaxError::UnexpectedToken { position: 0 });
    assert_eq!(syntax_error("a & b"), SyntaxError::UnexpectedToken { position: 1 });
    assert_eq!(syntax_error("x ="), SyntaxError::UnexpectedToken { position: 2 });
    assert_eq!(syntax_error(")"), SyntaxError::UnexpectedToken { position: 0 });
}

#[test]
fn the_name_behind_a_dot_must_be_a_name() {
    assert_eq!(
        syntax_error("a.1"),
        SyntaxError::ExpectedToken { expected: TokenType::Identifier, position: 2 }
    );
    assert_eq!(syntax_error("a."), SyntaxError::UnexpectedToken { position: 2 });
}

#[test]
fn lexical_errors_come_before_syntax_errors() {
    assert_eq!(
        parse("1 + # +").err(),
        Some(ParseError::Lexical(LexError::UnexpectedCharacter { character: '#', position: 4 }))
    );
    assert_eq!(parse("1 +").err(), Some(ParseError::Syntax(SyntaxError::UnexpectedToken { position: 2 })));
    assert_eq!(parse("1 + # +").unwrap_err().kind(), ErrorKind::LexicalError);
    assert_eq!(parse("1 +").unwrap_err().kind(), ErrorKind::SyntaxError);
    assert_eq!(parse("1 +").unwrap_err().message(), "Odottamaton tunnus löytyi jäsentämisen aikana");
}

#[test]
fn syntax_errors_have_kind_position_and_message() {
    let error = SyntaxError::ExpectedToken { expected: TokenType::SemiColon, position: 4 };
    assert_eq!(error.kind(), ErrorKind::SyntaxError);
    assert_eq!(error.position(), 4);
    assert_eq!(error.message(), "Odotettua tunnusta ei löytynyt");
    assert_eq!(SyntaxError::UnexpectedToken { position: 1 }.position(), 1);
    assert_eq!(SyntaxError::MissingInitializer { position: 2 }.position(), 2);
    assert_eq!(SyntaxError::InvalidParameter { position: 3 }.position(), 3);
    assert_eq!(
        SyntaxError::MissingInitializer { position: 2 }.message(),
        "Vakiolausekkeelle on annettava arvo ja arvoa ei ole annettu"
    );
}

#[test]
fn parser_walks_the_tokens() {
    let mut parser = Parser::new(tokenize("x 1").unwrap());
    assert!(parser.not_eof());
    assert_eq!(parser.at().value, "x");
    assert_eq!(parser.eat(), Token::new("x".to_string(), TokenType::Identifier));
    assert_eq!(parser.at().token_type, TokenType::Integer);
    assert_eq!(parser.expect(TokenType::Identifier), None);
    assert!(!parser.not_eof());
    assert_eq!(parser.at().token_type, TokenType::EOF);
    assert_eq!(parser.expect(TokenType::EOF), Some(Token::new("EndOfFile".to_string(), TokenType::EOF)));
    assert_eq!(parser.eat().token_type, TokenType::EOF);
    assert!(!parser.not_eof());
}

#[test]
fn parser_without_tokens_gives_an_empty_program() {
    let mut parser = Parser::new(vec![]);
    assert!(!parser.not_eof());
    assert_eq!(parser.at().token_type, TokenType::EOF);
    assert_eq!(shown(&parser.produce_ast()), shown(&Ok::<Program, SyntaxError>(Program { body: vec![] })));
}

#[test]
fn parser_skips_comment_tokens_before_an_expression() {
    let tokens = vec![
        Token::new("//".to_string(), TokenType::SingleLineComment),
        Token::new("/*".to_string(), TokenType::MultiLineComment),
        Token::new("x".to_string(), TokenType::Identifier),
        Token::new("EndOfFile".to_string(), TokenType::EOF),
    ];
    let program = Parser::new(tokens).produce_ast().unwrap();
    assert_eq!(shown(&program.body), shown(&vec![Stmt::Expr(ident("x"))]));
}

#[test]
fn parsing_from_the_middle_gives_the_rest_of_the_program() {
    let mut parser = Parser::new(tokenize("x y z").unwrap());
    parser.eat();
    let program = parser.produce_ast().unwrap();
    assert_eq!(shown(&program.body), shown(&vec![Stmt::Expr(ident("y")), Stmt::Expr(ident("z"))]));
}

#[test]
fn copies_of_trees_are_equal_to_them() {
    let program = parse("funktio f(a) { jos a { [1, { b: a.c }] } muuten { -f(a)(1.5) } } kun x { toista (i = 0; i; i) { 'x' } }").unwrap();
    let copy = program.clone();
    assert_eq!(shown(&program), shown(&copy));
    let statement = program.body[0].clone();
    assert_eq!(shown(&statement), shown(&program.body[0]));
}
