//! The data that flows between the stages: tokens, types, the syntax tree,
//! symbols and value locations, each with the mathematical view that the
//! contracts of the stages are stated over.

use vstd::prelude::*;

verus! {

/// The static type of a token, an expression or a variable.
#[derive(Debug)]
pub enum Type {
    Int,
    Bool,
    /// The type of a token that carries no value of its own.
    Untyped,
    Pointer(Box<Type>),
    Array(Box<Type>, u64),
}

impl Clone for Type {
    fn clone(&self) -> (r: Self)
        ensures
            r == *self,
        decreases *self,
    {
        match self {
            Type::Int => Type::Int,
            Type::Bool => Type::Bool,
            Type::Untyped => Type::Untyped,
            Type::Pointer(inner) => Type::Pointer(Box::new((**inner).clone())),
            Type::Array(inner, length) => Type::Array(Box::new((**inner).clone()), *length),
        }
    }
}

impl PartialEq for Type {
    fn eq(&self, other: &Type) -> (r: bool)
        decreases *self,
    {
        match (self, other) {
            (Type::Int, Type::Int) => true,
            (Type::Bool, Type::Bool) => true,
            (Type::Untyped, Type::Untyped) => true,
            (Type::Pointer(a), Type::Pointer(b)) => (**a).eq(&**b),
            (Type::Array(a, n), Type::Array(b, m)) => *n == *m && (**a).eq(&**b),
            _ => false,
        }
    }
}

impl vstd::std_specs::cmp::PartialEqSpecImpl for Type {
    open spec fn obeys_eq_spec() -> bool {
        true
    }

    open spec fn eq_spec(&self, other: &Type) -> bool {
        *self == *other
    }
}

/// The lexical class of a token.
#[derive(Debug, Clone, Copy, PartialEq, Eq, Structural)]
pub enum TokenType {
    Identifier,
    Keyword,
    Literal,
    Operator,
    Assignment,
    Terminal,
}

/// One lexeme of the source with its class, its intrinsic type and the
/// 1-based line and column it starts at.
#[derive(Debug)]
pub struct Token {
    _type: Type,
    token_type: TokenType,
    lexeme: String,
    line_number: usize,
    line_index: usize,
}

/// What a token is, with its lexeme as a sequence of characters.
pub struct TokenView {
    pub ty: Type,
    pub kind: TokenType,
    pub lexeme: Seq<char>,
    pub line: usize,
    pub column: usize,
}

impl View for Token {
    type V = TokenView;

    closed spec fn view(&self) -> TokenView {
        TokenView {
            ty: self._type,
            kind: self.token_type,
            lexeme: self.lexeme@,
            line: self.line_number,
            column: self.line_index,
        }
    }
}

impl Clone for Token {
    fn clone(&self) -> (r: Self)
        ensures
            r@ == self@,
    {
        Token {
            _type: self._type.clone(),
            token_type: self.token_type,
            lexeme: self.lexeme.clone(),
            line_number: self.line_number,
            line_index: self.line_index,
        }
    }
}

impl Token {
    /// A token of the given intrinsic type and class, with its lexeme and the
    /// line and column that it starts at.
    pub fn new(
        _type: Type,
        token_type: TokenType,
        lexeme: String,
        line_number: usize,
        line_index: usize,
    ) -> (t: Self)
        ensures
            t@ == (TokenView {
                ty: _type,
                kind: token_type,
                lexeme: lexeme@,
                line: line_number,
                column: line_index,
            }),
    {
        Self { _type, token_type, lexeme, line_number, line_index }
    }

    /// The text of the token.
    pub fn lexeme(&self) -> (s: &str)
        ensures
            s@ == self@.lexeme,
    {
        self.lexeme.as_str()
    }

    /// The intrinsic type: `Int` or `Bool` for a literal, else `Untyped`.
    pub fn _type(&self) -> (t: &Type)
        ensures
            *t == self@.ty,
    {
        &self._type
    }

    /// The lexical class.
    pub fn token_type(&self) -> (k: &TokenType)
        ensures
            *k == self@.kind,
    {
        &self.token_type
    }

    /// The line that the token stands on, counted from 1.
    pub fn line_number(&self) -> (n: &usize)
        ensures
            *n == self@.line,
    {
        &self.line_number
    }

    /// The column that the token starts at, counted from 1.
    pub fn line_index(&self) -> (n: &usize)
        ensures
            *n == self@.column,
    {
        &self.line_index
    }
}

/// The views of a run of tokens, in order.
pub open spec fn token_views(tokens: Seq<Token>) -> Seq<TokenView> {
    tokens.map_values(|t: Token| t@)
}

/// Whether a statement is being parsed inside a loop body.
#[derive(Debug, Clone, Copy, PartialEq, Eq, Structural)]
pub enum Context {
    While,
    TopLevel,
}

/// A number, a boolean, a variable or a list of literals.
#[derive(Debug)]
pub enum Literal {
    Int(Token),
    Bool(Token),
    Symbol(Token),
    List(Box<List>),
}

/// A non-empty list of literals.
#[derive(Debug)]
pub enum List {
    Literal(Literal),
    List(Literal, Box<List>),
}

/// An expression: operators applied to operands, a literal, or an
/// expression in parentheses, with the tokens that it was written in.
#[derive(Debug)]
pub enum Expression {
    Binary(Box<Expression>, Token, Box<Expression>),
    Unary(Token, Box<Expression>),
    Literal(Literal),
    Group(Token, Box<Expression>, Token),
}

/// The target of an assignment: a fresh value variable, a fresh pointer
/// variable, or an existing variable that is assigned again.
#[derive(Debug)]
pub enum Assignment {
    Value(Type, String),
    Pointer(Type, String),
    Mutation(String),
}

/// A statement of the language.
#[derive(Debug)]
pub enum Statement {
    Assignment(Assignment, Expression),
    If(Expression, Box<Statement>),
    IfElse(Expression, Box<Statement>, Box<Statement>),
    Block(Box<Block>),
    While(Expression, Box<Statement>),
    Break,
}

/// A non-empty sequence of statements.
#[derive(Debug)]
pub enum Block {
    Statement(Statement),
    Block(Statement, Box<Block>),
}

/// What a literal is, with the views of its tokens.
pub enum LiteralView {
    Int(TokenView),
    Bool(TokenView),
    Symbol(TokenView),
    List(Box<ListView>),
}

/// What a list of literals is, with the views of its tokens.
pub enum ListView {
    Literal(LiteralView),
    List(LiteralView, Box<ListView>),
}

/// What an expression is, with the views of its tokens.
pub enum ExpressionView {
    Binary(Box<ExpressionView>, TokenView, Box<ExpressionView>),
    Unary(TokenView, Box<ExpressionView>),
    Literal(LiteralView),
    Group(TokenView, Box<ExpressionView>, TokenView),
}

/// What the target of an assignment is, with its name as a sequence of
/// characters.
pub enum AssignmentView {
    Value(Type, Seq<char>),
    Pointer(Type, Seq<char>),
    Mutation(Seq<char>),
}

/// What a statement is, with the views of its parts.
pub enum StatementView {
    Assignment(AssignmentView, ExpressionView),
    If(ExpressionView, Box<StatementView>),
    IfElse(ExpressionView, Box<StatementView>, Box<StatementView>),
    Block(Box<BlockView>),
    While(ExpressionView, Box<StatementView>),
    Break,
}

/// What a block is, with the views of its statements.
pub enum BlockView {
    Statement(StatementView),
    Block(StatementView, Box<BlockView>),
}

/// The view of a literal.
pub open spec fn literal_view(literal: Literal) -> LiteralView
    decreases literal,
{
    match literal {
        Literal::Int(t) => LiteralView::Int(t@),
        Literal::Bool(t) => LiteralView::Bool(t@),
        Literal::Symbol(t) => LiteralView::Symbol(t@),
        Literal::List(list) => LiteralView::List(Box::new(list_view(*list))),
    }
}

/// The view of a list of literals.
pub open spec fn list_view(list: List) -> ListView
    decreases list,
{
    match list {
        List::Literal(first) => ListView::Literal(literal_view(first)),
        List::List(first, rest) => ListView::List(
            literal_view(first),
            Box::new(list_view(*rest)),
        ),
    }
}

/// The view of an expression.
pub open spec fn expression_view(expression: Expression) -> ExpressionView
    decreases expression,
{
    match expression {
        Expression::Binary(left, op, right) => ExpressionView::Binary(
            Box::new(expression_view(*left)),
            op@,
            Box::new(expression_view(*right)),
        ),
        Expression::Unary(op, operand) => ExpressionView::Unary(
            op@,
            Box::new(expression_view(*operand)),
        ),
        Expression::Literal(literal) => ExpressionView::Literal(literal_view(literal)),
        Expression::Group(open, inner, close) => ExpressionView::Group(
            open@,
            Box::new(expression_view(*inner)),
            close@,
        ),
    }
}

/// The view of a statement.
pub open spec fn statement_view(statement: Statement) -> StatementView
    decreases statement,
{
    match statement {
        Statement::Assignment(target, value) => StatementView::Assignment(
            target@,
            expression_view(value),
        ),
        Statement::If(guard, body) => StatementView::If(
            expression_view(guard),
            Box::new(statement_view(*body)),
        ),
        Statement::IfElse(guard, body, otherwise) => StatementView::IfElse(
            expression_view(guard),
            Box::new(statement_view(*body)),
            Box::new(statement_view(*otherwise)),
        ),
        Statement::Block(block) => StatementView::Block(Box::new(block_view(*block))),
        Statement::While(guard, body) => StatementView::While(
            expression_view(guard),
            Box::new(statement_view(*body)),
        ),
        Statement::Break => StatementView::Break,
    }
}

/// The view of a block.
pub open spec fn block_view(block: Block) -> BlockView
    decreases block,
{
    match block {
        Block::Statement(first) => BlockView::Statement(statement_view(first)),
        Block::Block(first, rest) => BlockView::Block(
            statement_view(first),
            Box::new(block_view(*rest)),
        ),
    }
}

impl View for Literal {
    type V = LiteralView;

    open spec fn view(&self) -> LiteralView {
        literal_view(*self)
    }
}

impl View for List {
    type V = ListView;

    open spec fn view(&self) -> ListView {
        list_view(*self)
    }
}

impl View for Expression {
    type V = ExpressionView;

    open spec fn view(&self) -> ExpressionView {
        expression_view(*self)
    }
}

impl View for Assignment {
    type V = AssignmentView;

    open spec fn view(&self) -> AssignmentView {
        match *self {
            Assignment::Value(ty, name) => AssignmentView::Value(ty, name@),
            Assignment::Pointer(ty, name) => AssignmentView::Pointer(ty, name@),
            Assignment::Mutation(name) => AssignmentView::Mutation(name@),
        }
    }
}

impl View for Statement {
    type V = StatementView;

    open spec fn view(&self) -> StatementView {
        statement_view(*self)
    }
}

impl View for Block {
    type V = BlockView;

    open spec fn view(&self) -> BlockView {
        block_view(*self)
    }
}

fn clone_literal(literal: &Literal) -> (r: Literal)
    ensures
        r@ == literal@,
    decreases *literal,
{
    match literal {
        Literal::Int(token) => Literal::Int(token.clone()),
        Literal::Bool(token) => Literal::Bool(token.clone()),
        Literal::Symbol(token) => Literal::Symbol(token.clone()),
        Literal::List(list) => Literal::List(Box::new(clone_list(list))),
    }
}

fn clone_list(list: &List) -> (r: List)
    ensures
        r@ == list@,
    decreases *list,
{
    match list {
        List::Literal(first) => List::Literal(clone_literal(first)),
        List::List(first, rest) => List::List(clone_literal(first), Box::new(clone_list(rest))),
    }
}

fn clone_expression(expression: &Expression) -> (r: Expression)
    ensures
        r@ == expression@,
    decreases *expression,
{
    match expression {
        Expression::Binary(left, op, right) => Expression::Binary(
            Box::new(clone_expression(left)),
            op.clone(),
            Box::new(clone_expression(right)),
        ),
        Expression::Unary(op, operand) => Expression::Unary(
            op.clone(),
            Box::new(clone_expression(operand)),
        ),
        Expression::Literal(literal) => Expression::Literal(clone_literal(literal)),
        Expression::Group(open, inner, close) => Expression::Group(
            open.clone(),
            Box::new(clone_expression(inner)),
            close.clone(),
        ),
    }
}

fn clone_statement(statement: &Statement) -> (r: Statement)
    ensures
        r@ == statement@,
    decreases *statement,
{
    match statement {
        Statement::Assignment(target, value) => Statement::Assignment(
            target.clone(),
            clone_expression(value),
        ),
        Statement::If(guard, body) => Statement::If(
            clone_expression(guard),
            Box::new(clone_statement(body)),
        ),
        Statement::IfElse(guard, body, otherwise) => Statement::IfElse(
            clone_expression(guard),
            Box::new(clone_statement(body)),
            Box::new(clone_statement(otherwise)),
        ),
        Statement::Block(block) => Statement::Block(Box::new(clone_block(block))),
        Statement::While(guard, body) => Statement::While(
            clone_expression(guard),
            Box::new(clone_statement(body)),
        ),
        Statement::Break => Statement::Break,
    }
}

fn clone_block(block: &Block) -> (r: Block)
    ensures
        r@ == block@,
    decreases *block,
{
    match block {
        Block::Statement(first) => Block::Statement(clone_statement(first)),
        Block::Block(first, rest) => Block::Block(
            clone_statement(first),
            Box::new(clone_block(rest)),
        ),
    }
}

impl Clone for Literal {
    fn clone(&self) -> (r: Self)
        ensures
            r@ == self@,
    {
        clone_literal(self)
    }
}

impl Clone for List {
    fn clone(&self) -> (r: Self)
        ensures
            r@ == self@,
    {
        clone_list(self)
    }
}

impl Clone for Expression {
    fn clone(&self) -> (r: Self)
        ensures
            r@ == self@,
    {
        clone_expression(self)
    }
}

impl Clone for Assignment {
    fn clone(&self) -> (r: Self)
        ensures
            r@ == self@,
    {
        match self {
            Assignment::Value(ty, name) => Assignment::Value(ty.clone(), name.clone()),
            Assignment::Pointer(ty, name) => Assignment::Pointer(ty.clone(), name.clone()),
            Assignment::Mutation(name) => Assignment::Mutation(name.clone()),
        }
    }
}

impl Clone for Statement {
    fn clone(&self) -> (r: Self)
        ensures
            r@ == self@,
    {
        clone_statement(self)
    }
}

impl Clone for Block {
    fn clone(&self) -> (r: Self)
        ensures
            r@ == self@,
    {
        clone_block(self)
    }
}

/// The views of a run of statements, in order.
pub open spec fn statement_views(statements: Seq<Statement>) -> Seq<StatementView> {
    statements.map_values(|s: Statement| s@)
}

/// What the compiler knows of one variable.
#[derive(Debug)]
pub struct Symbol {
    /// Distance of the variable's slot below the frame base, once assigned.
    pub stack_offset: Option<u64>,
    pub _type: Type,
    pub mutable: bool,
    /// Line of the declaration.
    pub init_line: usize,
    /// Line of the latest declaration of or assignment to the variable.
    pub last_ref: usize,
}

impl Clone for Symbol {
    fn clone(&self) -> (r: Self)
        ensures
            r == *self,
    {
        Symbol {
            stack_offset: self.stack_offset,
            _type: self._type.clone(),
            mutable: self.mutable,
            init_line: self.init_line,
            last_ref: self.last_ref,
        }
    }
}

/// Where the value of an evaluated expression lives.
#[derive(Debug)]
pub enum InnerAddrType {
    /// In the named scratch register, which the holder of this value owns.
    Reg(String),
    /// On top of the evaluation stack.
    Stack,
    /// In the variable slot at this distance below the frame base.
    StackOffset(u64),
}

/// Where a value lives, with the register's name as a sequence of
/// characters.
pub enum InnerAddrView {
    Reg(Seq<char>),
    Stack,
    StackOffset(u64),
}

impl View for InnerAddrType {
    type V = InnerAddrView;

    open spec fn view(&self) -> InnerAddrView {
        match *self {
            InnerAddrType::Reg(name) => InnerAddrView::Reg(name@),
            InnerAddrType::Stack => InnerAddrView::Stack,
            InnerAddrType::StackOffset(offset) => InnerAddrView::StackOffset(offset),
        }
    }
}

impl InnerAddrType {
    /// Whether the value is a variable in memory, so that it has an address.
    pub fn is_memory(&self) -> (r: bool)
        ensures
            r == (self@ is StackOffset),
    {
        match self {
            InnerAddrType::StackOffset(_) => true,
            _ => false,
        }
    }
}

} // verus!
