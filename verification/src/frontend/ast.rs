//! The syntax tree, and what each node is to the contracts.

use vstd::prelude::*;

verus! {

/// A statement.
#[derive(Debug)]
pub enum Stmt {
    Program(Program),
    VarDeclaration(VarDeclaration),
    FunctionDeclaration(FunctionDeclaration),
    Expr(Expr),
    WhileLoop(WhileLoop),
    ForLoop(ForLoop),
}

/// A whole program: its top-level statements in order.
#[derive(Debug)]
pub struct Program {
    pub body: Vec<Stmt>,
}

/// `olkoon name = value;` or `vakio name = value;`.
#[derive(Debug)]
pub struct VarDeclaration {
    pub constant: bool,
    pub identifier: Identifier,
    pub value: Option<Expr>,
}

/// `funktio name(parameters) { body }`.
#[derive(Debug)]
pub struct FunctionDeclaration {
    pub parameters: Vec<String>,
    pub name: String,
    pub body: Vec<Stmt>,
}

/// `kun condition { body }`.
#[derive(Debug)]
pub struct WhileLoop {
    pub condition: Box<Expr>,
    pub body: Block,
}

/// `toista (name = start; condition; increment) { body }`; the initializer
/// is the declaration of `name`.
#[derive(Debug)]
pub struct ForLoop {
    pub initializer: Box<Stmt>,
    pub condition: Box<Expr>,
    pub increment: Box<Expr>,
    pub body: Block,
}

/// An expression.
#[derive(Debug)]
pub enum Expr {
    AssignmentExpr(AssignmentExpr),
    MemberExpr(MemberExpr),
    CallExpr(CallExpr),
    IfElseExpr(IfElseExpr),
    ObjectLiteral(ObjectLiteral),
    ArrayLiteral(ArrayLiteral),
    NumericLiteral(NumericLiteral),
    StringLiteral(StringLiteral),
    FloatLiteral(FloatLiteral),
    Identifier(Identifier),
    BinaryExpr(BinaryExpr),
    UnaryExpr(UnaryExpr),
}

/// The operator of a binary expression.
#[derive(Debug, Clone, Copy, PartialEq, Eq, Structural)]
pub enum BinaryOperator {
    Add,
    Subtract,
    Multiply,
    Divide,
    Exponent,
    Modulus,
    Equal,
    NotEqual,
    LessThan,
    GreaterThan,
    LessThanOrEqual,
    GreaterThanOrEqual,
    And,
    Or,
}

#[derive(Debug)]
pub struct AssignmentExpr {
    pub assignee: Box<Expr>,
    pub value: Box<Expr>,
}

/// `jos condition { if_branch } muuten { else_branch }`.
#[derive(Debug)]
pub struct IfElseExpr {
    pub condition: Box<Expr>,
    pub if_branch: Block,
    pub else_branch: Option<Block>,
}

/// The statements between `{` and `}`.
#[derive(Debug)]
pub struct Block {
    pub statements: Vec<Stmt>,
}

/// `object.property`, or `object[property]` where `computed`.
#[derive(Debug)]
pub struct MemberExpr {
    pub object: Box<Expr>,
    pub property: Box<Expr>,
    pub computed: bool,
}

#[derive(Debug)]
pub struct CallExpr {
    pub args: Vec<Expr>,
    pub caller: Box<Expr>,
}

/// A numeric literal without a `.`; `value` holds its digits.
#[derive(Debug, Clone)]
pub struct NumericLiteral {
    pub value: String,
}

#[derive(Debug, Clone)]
pub struct StringLiteral {
    pub value: String,
}

/// A numeric literal with a `.`; `value` holds its text.
#[derive(Debug, Clone)]
pub struct FloatLiteral {
    pub value: String,
}

#[derive(Debug, Clone)]
pub struct Identifier {
    pub symbol: String,
}

/// One entry of an object literal: `key: value`, or `key` alone, which
/// stands for the variable of that name.
#[derive(Debug)]
pub struct Property {
    pub key: String,
    pub value: Option<Box<Expr>>,
}

#[derive(Debug)]
pub struct ObjectLiteral {
    pub properties: Vec<Property>,
}

#[derive(Debug)]
pub struct ArrayLiteral {
    pub elements: Vec<Box<Expr>>,
}

#[derive(Debug)]
pub struct BinaryExpr {
    pub left: Box<Expr>,
    pub right: Box<Expr>,
    pub operator: BinaryOperator,
}

/// `-operand` or `!operand`; `operator` holds the sign.
#[derive(Debug)]
pub struct UnaryExpr {
    pub operator: String,
    pub operand: Box<Expr>,
}

/// An expression as the contracts see it.
#[allow(inconsistent_fields)]
pub enum ExprView {
    Assignment { assignee: Box<ExprView>, value: Box<ExprView> },
    Member { object: Box<ExprView>, property: Box<ExprView>, computed: bool },
    Call { args: Seq<ExprView>, caller: Box<ExprView> },
    IfElse {
        condition: Box<ExprView>,
        if_branch: Seq<StmtView>,
        else_branch: Option<Seq<StmtView>>,
    },
    Object { properties: Seq<PropertyView> },
    Array { elements: Seq<ExprView> },
    Numeric { value: Seq<char> },
    Text { value: Seq<char> },
    Float { value: Seq<char> },
    Identifier { symbol: Seq<char> },
    Binary { left: Box<ExprView>, right: Box<ExprView>, operator: BinaryOperator },
    Unary { operator: Seq<char>, operand: Box<ExprView> },
}

/// An entry of an object literal as the contracts see it.
pub struct PropertyView {
    pub key: Seq<char>,
    pub value: Option<Box<ExprView>>,
}

/// A statement as the contracts see it.
pub enum StmtView {
    Program { body: Seq<StmtView> },
    VarDeclaration { constant: bool, identifier: Seq<char>, value: Option<Box<ExprView>> },
    FunctionDeclaration { parameters: Seq<Seq<char>>, name: Seq<char>, body: Seq<StmtView> },
    Expr { expr: Box<ExprView> },
    WhileLoop { condition: Box<ExprView>, body: Seq<StmtView> },
    ForLoop {
        initializer: Box<StmtView>,
        condition: Box<ExprView>,
        increment: Box<ExprView>,
        body: Seq<StmtView>,
    },
}

/// The views of a sequence of strings.
pub open spec fn string_views(strings: Seq<String>) -> Seq<Seq<char>> {
    Seq::new(strings.len(), |i: int| strings[i]@)
}

impl Expr {
    pub open spec fn view(&self) -> ExprView
        decreases self,
    {
        match self {
            Expr::AssignmentExpr(e) => ExprView::Assignment {
                assignee: Box::new(e.assignee.view()),
                value: Box::new(e.value.view()),
            },
            Expr::MemberExpr(e) => ExprView::Member {
                object: Box::new(e.object.view()),
                property: Box::new(e.property.view()),
                computed: e.computed,
            },
            Expr::CallExpr(e) => ExprView::Call {
                args: expr_views(e.args),
                caller: Box::new(e.caller.view()),
            },
            Expr::IfElseExpr(e) => ExprView::IfElse {
                condition: Box::new(e.condition.view()),
                if_branch: stmt_views(e.if_branch.statements),
                else_branch: match e.else_branch {
                    Some(block) => Some(stmt_views(block.statements)),
                    None => None,
                },
            },
            Expr::ObjectLiteral(e) => ExprView::Object {
                properties: property_views(e.properties),
            },
            Expr::ArrayLiteral(e) => ExprView::Array { elements: element_views(e.elements) },
            Expr::NumericLiteral(e) => ExprView::Numeric { value: e.value@ },
            Expr::StringLiteral(e) => ExprView::Text { value: e.value@ },
            Expr::FloatLiteral(e) => ExprView::Float { value: e.value@ },
            Expr::Identifier(e) => ExprView::Identifier { symbol: e.symbol@ },
            Expr::BinaryExpr(e) => ExprView::Binary {
                left: Box::new(e.left.view()),
                right: Box::new(e.right.view()),
                operator: e.operator,
            },
            Expr::UnaryExpr(e) => ExprView::Unary {
                operator: e.operator@,
                operand: Box::new(e.operand.view()),
            },
        }
    }
}

/// The views of a list of expressions.
pub open spec fn expr_views(exprs: Vec<Expr>) -> Seq<ExprView>
    decreases exprs,
{
    Seq::new(
        exprs.len() as nat,
        |i: int|
            if 0 <= i < exprs.len() {
                exprs[i].view()
            } else {
                arbitrary()
            },
    )
}

/// The views of the elements of an array literal.
pub open spec fn element_views(elements: Vec<Box<Expr>>) -> Seq<ExprView>
    decreases elements,
{
    Seq::new(
        elements.len() as nat,
        |i: int|
            if 0 <= i < elements.len() {
                elements[i].view()
            } else {
                arbitrary()
            },
    )
}

/// The views of the entries of an object literal.
pub open spec fn property_views(properties: Vec<Property>) -> Seq<PropertyView>
    decreases properties,
{
    Seq::new(
        properties.len() as nat,
        |i: int|
            if 0 <= i < properties.len() {
                properties[i].view()
            } else {
                arbitrary()
            },
    )
}

impl Property {
    pub open spec fn view(&self) -> PropertyView
        decreases self,
    {
        PropertyView {
            key: self.key@,
            value: match self.value {
                Some(value) => Some(Box::new(value.view())),
                None => None,
            },
        }
    }
}

/// The views of the statements of a block or body.
pub open spec fn stmt_views(statements: Vec<Stmt>) -> Seq<StmtView>
    decreases statements,
{
    Seq::new(
        statements.len() as nat,
        |i: int|
            if 0 <= i < statements.len() {
                statements[i].view()
            } else {
                arbitrary()
            },
    )
}

impl Stmt {
    pub open spec fn view(&self) -> StmtView
        decreases self,
    {
        match self {
            Stmt::Program(s) => StmtView::Program { body: stmt_views(s.body) },
            Stmt::VarDeclaration(s) => StmtView::VarDeclaration {
                constant: s.constant,
                identifier: s.identifier.symbol@,
                value: match s.value {
                    Some(value) => Some(Box::new(value.view())),
                    None => None,
                },
            },
            Stmt::FunctionDeclaration(s) => StmtView::FunctionDeclaration {
                parameters: string_views(s.parameters@),
                name: s.name@,
                body: stmt_views(s.body),
            },
            Stmt::Expr(e) => StmtView::Expr { expr: Box::new(e.view()) },
            Stmt::WhileLoop(s) => StmtView::WhileLoop {
                condition: Box::new(s.condition.view()),
                body: stmt_views(s.body.statements),
            },
            Stmt::ForLoop(s) => StmtView::ForLoop {
                initializer: Box::new(s.initializer.view()),
                condition: Box::new(s.condition.view()),
                increment: Box::new(s.increment.view()),
                body: stmt_views(s.body.statements),
            },
        }
    }
}


/// A copy of a list of strings.
pub fn clone_strings(strings: &Vec<String>) -> (copy: Vec<String>)
    ensures
        copy@ == strings@,
{
    let mut copy: Vec<String> = Vec::new();
    let mut i: usize = 0;
    while i < strings.len()
        invariant
            i <= strings.len(),
            copy@ == strings@.subrange(0, i as int),
        decreases strings.len() - i,
    {
        copy.push(strings[i].clone());
        i += 1;
        assert(copy@ =~= strings@.subrange(0, i as int));
    }
    assert(copy@ =~= strings@);
    copy
}

/// A copy of a list of statements.
pub fn clone_stmts(statements: &Vec<Stmt>) -> (copy: Vec<Stmt>)
    ensures
        stmt_views(copy) == stmt_views(*statements),
    decreases statements,
{
    let mut copy: Vec<Stmt> = Vec::new();
    let mut i: usize = 0;
    while i < statements.len()
        invariant
            i <= statements.len(),
            copy.len() == i,
            forall|k: int| 0 <= k < i ==> (#[trigger] copy[k])@ == statements[k]@,
        decreases statements.len() - i,
    {
        copy.push(clone_stmt(&statements[i]));
        i += 1;
    }
    assert(stmt_views(copy) =~= stmt_views(*statements));
    copy
}

/// A copy of a statement.
pub fn clone_stmt(stmt: &Stmt) -> (copy: Stmt)
    ensures
        copy@ == stmt@,
    decreases stmt,
{
    match stmt {
        Stmt::Program(s) => Stmt::Program(Program { body: clone_stmts(&s.body) }),
        Stmt::VarDeclaration(s) => Stmt::VarDeclaration(
            VarDeclaration {
                constant: s.constant,
                identifier: Identifier { symbol: s.identifier.symbol.clone() },
                value: match &s.value {
                    Some(value) => Some(clone_expr(value)),
                    None => None,
                },
            },
        ),
        Stmt::FunctionDeclaration(s) => Stmt::FunctionDeclaration(
            FunctionDeclaration {
                parameters: clone_strings(&s.parameters),
                name: s.name.clone(),
                body: clone_stmts(&s.body),
            },
        ),
        Stmt::Expr(e) => Stmt::Expr(clone_expr(e)),
        Stmt::WhileLoop(s) => Stmt::WhileLoop(
            WhileLoop {
                condition: Box::new(clone_expr(&s.condition)),
                body: Block { statements: clone_stmts(&s.body.statements) },
            },
        ),
        Stmt::ForLoop(s) => Stmt::ForLoop(
            ForLoop {
                initializer: Box::new(clone_stmt(&s.initializer)),
                condition: Box::new(clone_expr(&s.condition)),
                increment: Box::new(clone_expr(&s.increment)),
                body: Block { statements: clone_stmts(&s.body.statements) },
            },
        ),
    }
}

/// A copy of a list of expressions.
pub fn clone_exprs(exprs: &Vec<Expr>) -> (copy: Vec<Expr>)
    ensures
        expr_views(copy) == expr_views(*exprs),
    decreases exprs,
{
    let mut copy: Vec<Expr> = Vec::new();
    let mut i: usize = 0;
    while i < exprs.len()
        invariant
            i <= exprs.len(),
            copy.len() == i,
            forall|k: int| 0 <= k < i ==> (#[trigger] copy[k])@ == exprs[k]@,
        decreases exprs.len() - i,
    {
        copy.push(clone_expr(&exprs[i]));
        i += 1;
    }
    assert(expr_views(copy) =~= expr_views(*exprs));
    copy
}

/// A copy of the elements of an array literal.
pub fn clone_elements(elements: &Vec<Box<Expr>>) -> (copy: Vec<Box<Expr>>)
    ensures
        element_views(copy) == element_views(*elements),
    decreases elements,
{
    let mut copy: Vec<Box<Expr>> = Vec::new();
    let mut i: usize = 0;
    while i < elements.len()
        invariant
            i <= elements.len(),
            copy.len() == i,
            forall|k: int| 0 <= k < i ==> (#[trigger] copy[k])@ == elements[k]@,
        decreases elements.len() - i,
    {
        copy.push(Box::new(clone_expr(&elements[i])));
        i += 1;
    }
    assert(element_views(copy) =~= element_views(*elements));
    copy
}

/// A copy of the entries of an object literal.
pub fn clone_properties(properties: &Vec<Property>) -> (copy: Vec<Property>)
    ensures
        property_views(copy) == property_views(*properties),
    decreases properties,
{
    let mut copy: Vec<Property> = Vec::new();
    let mut i: usize = 0;
    while i < properties.len()
        invariant
            i <= properties.len(),
            copy.len() == i,
            forall|k: int| 0 <= k < i ==> (#[trigger] copy[k])@ == properties[k]@,
        decreases properties.len() - i,
    {
        let property = &properties[i];
        copy.push(
            Property {
                key: property.key.clone(),
                value: match &property.value {
                    Some(value) => Some(Box::new(clone_expr(value))),
                    None => None,
                },
            },
        );
        i += 1;
    }
    assert(property_views(copy) =~= property_views(*properties));
    copy
}

/// A copy of an expression.
pub fn clone_expr(expr: &Expr) -> (copy: Expr)
    ensures
        copy@ == expr@,
    decreases expr,
{
    let copy = match expr {
        Expr::AssignmentExpr(e) => Expr::AssignmentExpr(
            AssignmentExpr {
                assignee: Box::new(clone_expr(&e.assignee)),
                value: Box::new(clone_expr(&e.value)),
            },
        ),
        Expr::MemberExpr(e) => Expr::MemberExpr(
            MemberExpr {
                object: Box::new(clone_expr(&e.object)),
                property: Box::new(clone_expr(&e.property)),
                computed: e.computed,
            },
        ),
        Expr::CallExpr(e) => Expr::CallExpr(
            CallExpr { args: clone_exprs(&e.args), caller: Box::new(clone_expr(&e.caller)) },
        ),
        Expr::IfElseExpr(e) => Expr::IfElseExpr(
            IfElseExpr {
                condition: Box::new(clone_expr(&e.condition)),
                if_branch: Block { statements: clone_stmts(&e.if_branch.statements) },
                else_branch: match &e.else_branch {
                    Some(block) => Some(Block { statements: clone_stmts(&block.statements) }),
                    None => None,
                },
            },
        ),
        Expr::ObjectLiteral(e) => Expr::ObjectLiteral(
            ObjectLiteral { properties: clone_properties(&e.properties) },
        ),
        Expr::ArrayLiteral(e) => Expr::ArrayLiteral(
            ArrayLiteral { elements: clone_elements(&e.elements) },
        ),
        Expr::NumericLiteral(e) => Expr::NumericLiteral(NumericLiteral { value: e.value.clone() }),
        Expr::StringLiteral(e) => Expr::StringLiteral(StringLiteral { value: e.value.clone() }),
        Expr::FloatLiteral(e) => Expr::FloatLiteral(FloatLiteral { value: e.value.clone() }),
        Expr::Identifier(e) => Expr::Identifier(Identifier { symbol: e.symbol.clone() }),
        Expr::BinaryExpr(e) => Expr::BinaryExpr(
            BinaryExpr {
                left: Box::new(clone_expr(&e.left)),
                right: Box::new(clone_expr(&e.right)),
                operator: e.operator,
            },
        ),
        Expr::UnaryExpr(e) => Expr::UnaryExpr(
            UnaryExpr { operator: e.operator.clone(), operand: Box::new(clone_expr(&e.operand)) },
        ),
    };
    copy
}


impl AssignmentExpr {
    pub open spec fn view(&self) -> ExprView {
        ExprView::Assignment {
            assignee: Box::new(self.assignee.view()),
            value: Box::new(self.value.view()),
        }
    }
}

impl MemberExpr {
    pub open spec fn view(&self) -> ExprView {
        ExprView::Member {
            object: Box::new(self.object.view()),
            property: Box::new(self.property.view()),
            computed: self.computed,
        }
    }
}

impl CallExpr {
    pub open spec fn view(&self) -> ExprView {
        ExprView::Call { args: expr_views(self.args), caller: Box::new(self.caller.view()) }
    }
}

impl Block {
    pub open spec fn view(&self) -> Seq<StmtView> {
        stmt_views(self.statements)
    }
}

impl IfElseExpr {
    pub open spec fn view(&self) -> ExprView {
        ExprView::IfElse {
            condition: Box::new(self.condition.view()),
            if_branch: stmt_views(self.if_branch.statements),
            else_branch: match self.else_branch {
                Some(block) => Some(stmt_views(block.statements)),
                None => None,
            },
        }
    }
}

impl ObjectLiteral {
    pub open spec fn view(&self) -> ExprView {
        ExprView::Object { properties: property_views(self.properties) }
    }
}

impl ArrayLiteral {
    pub open spec fn view(&self) -> ExprView {
        ExprView::Array { elements: element_views(self.elements) }
    }
}

impl BinaryExpr {
    pub open spec fn view(&self) -> ExprView {
        ExprView::Binary {
            left: Box::new(self.left.view()),
            right: Box::new(self.right.view()),
            operator: self.operator,
        }
    }
}

impl UnaryExpr {
    pub open spec fn view(&self) -> ExprView {
        ExprView::Unary { operator: self.operator@, operand: Box::new(self.operand.view()) }
    }
}

impl NumericLiteral {
    pub open spec fn view(&self) -> ExprView {
        ExprView::Numeric { value: self.value@ }
    }
}

impl FloatLiteral {
    pub open spec fn view(&self) -> ExprView {
        ExprView::Float { value: self.value@ }
    }
}

impl StringLiteral {
    pub open spec fn view(&self) -> ExprView {
        ExprView::Text { value: self.value@ }
    }
}

impl Identifier {
    pub open spec fn view(&self) -> ExprView {
        ExprView::Identifier { symbol: self.symbol@ }
    }
}

impl Program {
    pub open spec fn view(&self) -> StmtView {
        StmtView::Program { body: stmt_views(self.body) }
    }
}

impl VarDeclaration {
    pub open spec fn view(&self) -> StmtView {
        StmtView::VarDeclaration {
            constant: self.constant,
            identifier: self.identifier.symbol@,
            value: match self.value {
                Some(value) => Some(Box::new(value.view())),
                None => None,
            },
        }
    }
}

impl FunctionDeclaration {
    pub open spec fn view(&self) -> StmtView {
        StmtView::FunctionDeclaration {
            parameters: string_views(self.parameters@),
            name: self.name@,
            body: stmt_views(self.body),
        }
    }
}

impl WhileLoop {
    pub open spec fn view(&self) -> StmtView {
        StmtView::WhileLoop {
            condition: Box::new(self.condition.view()),
            body: stmt_views(self.body.statements),
        }
    }
}

impl ForLoop {
    pub open spec fn view(&self) -> StmtView {
        StmtView::ForLoop {
            initializer: Box::new(self.initializer.view()),
            condition: Box::new(self.condition.view()),
            increment: Box::new(self.increment.view()),
            body: stmt_views(self.body.statements),
        }
    }
}


impl Clone for Expr {
    fn clone(&self) -> (copy: Self)
        ensures
            copy@ == self@,
    {
        clone_expr(self)
    }
}

impl Clone for Stmt {
    fn clone(&self) -> (copy: Self)
        ensures
            copy@ == self@,
    {
        clone_stmt(self)
    }
}

impl Clone for Block {
    fn clone(&self) -> (copy: Self)
        ensures
            copy@ == self@,
    {
        Block { statements: clone_stmts(&self.statements) }
    }
}

impl Clone for Program {
    fn clone(&self) -> (copy: Self)
        ensures
            copy@ == self@,
    {
        Program { body: clone_stmts(&self.body) }
    }
}

} // verus!
