//! The abstract syntax tree: one `Program` per source unit, a strict tree
//! that owns all of its nodes.
use vstd::prelude::*;

verus! {

/// The root of a program: its top-level statements in source order.
#[derive(Debug)]
pub struct Program {
    pub statements: Vec<Statement>,
}

/// Every kind of statement.
#[derive(Debug)]
pub enum Statement {
    EntityDef(EntityDef),
    FnDef(FnDef),
    SignalDef(SignalDef),
    StateMachine(StateMachine),
    VarDecl(VarDecl),
    Assignment(Assignment),
    If(IfStmt),
    While(WhileStmt),
    For(ForStmt),
    Return(Option<Expr>),
    Emit(EmitStmt),
    Expr(Expr),
}

/// An entity: one archetype that combines data and behaviour.
#[derive(Debug)]
pub struct EntityDef {
    pub name: String,
    pub components: Vec<ComponentDef>,
    pub functions: Vec<FnDef>,
    pub signals: Vec<SignalDef>,
    pub variables: Vec<VarDecl>,
}

/// A component of an entity: a name and its initialised fields.
///
/// `fields` maps a field name to its initialiser; no name occurs twice.
#[derive(Debug)]
pub struct ComponentDef {
    pub name: String,
    pub fields: Vec<(String, Expr)>,
}

/// A function definition.
#[derive(Debug)]
pub struct FnDef {
    pub name: String,
    pub is_async: bool,
    pub params: Vec<Param>,
    pub return_type: Option<TypeExpr>,
    pub body: Vec<Statement>,
}

/// A parameter of a function or a signal.
#[derive(Debug)]
pub struct Param {
    pub name: String,
    pub type_expr: TypeExpr,
}

/// A signal: the shape of an event that `emit` can raise.
#[derive(Debug)]
pub struct SignalDef {
    pub name: String,
    pub params: Vec<Param>,
}

/// A state machine: its states and, optionally, the state it starts in.
#[derive(Debug)]
pub struct StateMachine {
    pub name: String,
    pub initial_state: Option<String>,
    pub states: Vec<StateDef>,
}

/// One state of a state machine.
#[derive(Debug)]
pub struct StateDef {
    pub name: String,
    pub body: Vec<Statement>,
}

/// A variable declaration.
#[derive(Debug)]
pub struct VarDecl {
    pub name: String,
    pub type_expr: Option<TypeExpr>,
    pub value: Expr,
}

/// An assignment.
#[derive(Debug)]
pub struct Assignment {
    pub target: LValue,
    pub op: AssignOp,
    pub value: Expr,
}

/// The target of an assignment: the segments of a dotted path.
#[derive(Debug)]
pub struct LValue {
    pub parts: Vec<String>,
}

/// The assignment operators.
#[derive(Debug, Clone, Copy, PartialEq, Eq, Structural)]
pub enum AssignOp {
    Assign,
    AddAssign,
    SubAssign,
    MulAssign,
    DivAssign,
}

/// A conditional with its `elif` clauses in source order.
#[derive(Debug)]
pub struct IfStmt {
    pub condition: Expr,
    pub then_body: Vec<Statement>,
    pub elif_clauses: Vec<(Expr, Vec<Statement>)>,
    pub else_body: Option<Vec<Statement>>,
}

/// A `while` loop.
#[derive(Debug)]
pub struct WhileStmt {
    pub condition: Expr,
    pub body: Vec<Statement>,
}

/// A `for` loop over one bound variable.
#[derive(Debug)]
pub struct ForStmt {
    pub var_name: String,
    pub iterable: Expr,
    pub body: Vec<Statement>,
}

/// An `emit` statement.
#[derive(Debug)]
pub struct EmitStmt {
    pub signal_name: String,
    pub args: Vec<Expr>,
}

/// A type annotation.
#[derive(Debug)]
pub enum TypeExpr {
    Simple(String),
    Generic { name: String, params: Vec<TypeExpr> },
}

/// An expression.
///
/// A `Float` holds the decimal numeral of the literal: digits, a point,
/// digits.
#[derive(Debug)]
pub enum Expr {
    Int(i64),
    Float(String),
    String(String),
    Bool(bool),
    Vec2(Box<Expr>, Box<Expr>),
    Vec3(Box<Expr>, Box<Expr>, Box<Expr>),
    List(Vec<Expr>),
    MapLit(Vec<(String, Expr)>),
    Identifier(String),
    MemberAccess(Box<Expr>, String),
    Index(Box<Expr>, Box<Expr>),
    BinaryOp(Box<Expr>, BinaryOp, Box<Expr>),
    UnaryOp(UnaryOp, Box<Expr>),
    Call { callee: Box<Expr>, args: Vec<Arg> },
}

/// The binary operators.
#[derive(Debug, Clone, Copy, PartialEq, Eq, Structural)]
pub enum BinaryOp {
    Add,
    Sub,
    Mul,
    Div,
    Mod,
    Eq,
    Ne,
    Lt,
    Le,
    Gt,
    Ge,
    And,
    Or,
}

/// The unary operators.
#[derive(Debug, Clone, Copy, PartialEq, Eq, Structural)]
pub enum UnaryOp {
    Neg,
    Not,
}

/// An argument of a call, named or positional.
#[derive(Debug)]
pub struct Arg {
    pub name: Option<String>,
    pub value: Expr,
}

} // verus!
