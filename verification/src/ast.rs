//! A model of a parsed Python module: the statements and expressions
//! that the log-call finder and the rules read, as plain values.

use vstd::prelude::*;

verus! {

/// A byte range in the source text.
#[derive(Debug, Clone, Copy, PartialEq, Eq, Structural)]
pub struct SourceSpan {
    pub start: usize,
    pub end: usize,
}

/// A keyword argument of a call; `arg` is `None` for `**kwargs`.
pub struct KeywordArg {
    pub arg: Option<String>,
}

/// The value of a literal.
pub enum Literal {
    Str(String),
    Other,
}

/// A literal expression with its source range.
pub struct LiteralExpr {
    pub value: Literal,
    pub range: SourceSpan,
}

/// A call expression `func(args..., keywords...)`.
pub struct CallExpr {
    pub func: Box<Expression>,
    pub args: Vec<Expression>,
    pub keywords: Vec<KeywordArg>,
    pub range: SourceSpan,
}

/// A binary operator.
#[derive(Debug, Clone, Copy, PartialEq, Eq, Structural)]
pub enum BinaryOperator {
    Add,
    Sub,
    Mult,
    MatMult,
    Div,
    Mod,
    Pow,
    LShift,
    RShift,
    BitOr,
    BitXor,
    BitAnd,
    FloorDiv,
}

/// An expression.
pub enum Expression {
    Call(CallExpr),
    Attribute { value: Box<Expression>, attr: String },
    Name { id: String },
    Constant(LiteralExpr),
    JoinedStr,
    BinOp { left: Box<Expression>, op: BinaryOperator },
    Other,
}

/// One `except` clause of a `try` statement.
pub struct ExceptClause {
    pub body: Vec<Statement>,
}

/// A statement.
pub enum Statement {
    Expression(Expression),
    If { body: Vec<Statement>, orelse: Vec<Statement> },
    FunctionDef { body: Vec<Statement> },
    AsyncFunctionDef { body: Vec<Statement> },
    ClassDef { body: Vec<Statement> },
    For { body: Vec<Statement>, orelse: Vec<Statement> },
    AsyncFor { body: Vec<Statement>, orelse: Vec<Statement> },
    While { body: Vec<Statement>, orelse: Vec<Statement> },
    Try { body: Vec<Statement>, handlers: Vec<ExceptClause>, orelse: Vec<Statement>, finalbody: Vec<Statement> },
    With { body: Vec<Statement> },
    AsyncWith { body: Vec<Statement> },
    Import { names: Vec<String> },
    ImportFrom { module: Option<String> },
    Other,
}

} // verus!
