//! Parsing Python source with `rustpython_parser`, and converting its
//! syntax tree into the model of `crate::ast`.
//!
//! Parsing is the one step the library leaves to the outside crate. The
//! wrapper `parse_suite` makes the call; the `convert_*` functions below
//! are its conversion of the parser's tree, split into one function per
//! node kind because the tree is recursive. Each moves fields one for
//! one and tells the parser's enum variants apart, one arm each.

use rustpython_parser::ast as py;
use rustpython_parser::Parse;

use vstd::prelude::*;
use vstd::utf8::encode_utf8;

use crate::ast::{
    ExceptClause, Expression, CallExpr, LiteralExpr, KeywordArg, Literal, BinaryOperator, Statement, SourceSpan,
};

verus! {

/// What `rustpython_parser` makes of a module's source text under a
/// given path: its statements, in the model of `crate::ast`, or the
/// parser's error message.
pub uninterp spec fn python_parse(source: Seq<char>, source_path: Seq<char>) -> Result<Seq<Statement>, Seq<char>>;

/// Calls `<ast::Suite as rustpython_parser::Parse>::parse` and converts
/// the statements it returns. The result is a function of the source and
/// the path alone, named `python_parse`; on a syntax error it is the
/// error's `Display` text. What the parser accepts, and the tree it
/// builds, are left to `rustpython_parser`. The parser keeps source
/// positions in a `u32`, so the source's UTF-8 encoding must be shorter
/// than `u32::MAX` bytes.
#[verifier::external_body]
pub fn parse_suite(source: &str, source_path: &str) -> (r: Result<Vec<Statement>, String>)
    requires
        encode_utf8(source@).len() < u32::MAX,
    ensures
        match r {
            Ok(stmts) => python_parse(source@, source_path@) == Ok::<Seq<Statement>, Seq<char>>(stmts@),
            Err(e) => python_parse(source@, source_path@) == Err::<Seq<Statement>, Seq<char>>(e@),
        },
{
    match py::Suite::parse(source, source_path) {
        Ok(suite) => Ok(convert_suite(&suite)),
        Err(e) => Err(format!("{e}")),
    }
}

/// Converts a list of the parser's statements.
#[verifier::external_body]
fn convert_suite(stmts: &[py::Stmt]) -> Vec<Statement> {
    stmts.iter().map(convert_stmt).collect()
}

/// Converts a statement: the loop and `if` kinds here, the others below.
#[verifier::external_body]
fn convert_stmt(s: &py::Stmt) -> Statement {
    match s {
        py::Stmt::If(x) => Statement::If { body: convert_suite(&x.body), orelse: convert_suite(&x.orelse) },
        py::Stmt::For(x) => Statement::For { body: convert_suite(&x.body), orelse: convert_suite(&x.orelse) },
        py::Stmt::AsyncFor(x) => {
            Statement::AsyncFor { body: convert_suite(&x.body), orelse: convert_suite(&x.orelse) }
        },
        py::Stmt::While(x) => Statement::While { body: convert_suite(&x.body), orelse: convert_suite(&x.orelse) },
        _ => convert_scope_stmt(s),
    }
}

/// Converts a function, class or `with` statement.
#[verifier::external_body]
fn convert_scope_stmt(s: &py::Stmt) -> Statement {
    match s {
        py::Stmt::FunctionDef(x) => Statement::FunctionDef { body: convert_suite(&x.body) },
        py::Stmt::AsyncFunctionDef(x) => Statement::AsyncFunctionDef { body: convert_suite(&x.body) },
        py::Stmt::ClassDef(x) => Statement::ClassDef { body: convert_suite(&x.body) },
        py::Stmt::With(x) => Statement::With { body: convert_suite(&x.body) },
        py::Stmt::AsyncWith(x) => Statement::AsyncWith { body: convert_suite(&x.body) },
        _ => convert_simple_stmt(s),
    }
}

/// Converts an expression statement, a `try`, or an import.
#[verifier::external_body]
fn convert_simple_stmt(s: &py::Stmt) -> Statement {
    match s {
        py::Stmt::Expr(x) => Statement::Expression(convert_expr(&x.value)),
        py::Stmt::Try(x) => Statement::Try {
            body: convert_suite(&x.body),
            handlers: x.handlers.iter().map(convert_handler).collect(),
            orelse: convert_suite(&x.orelse),
            finalbody: convert_suite(&x.finalbody),
        },
        py::Stmt::Import(x) => Statement::Import { names: x.names.iter().map(|a| a.name.to_string()).collect() },
        py::Stmt::ImportFrom(x) => Statement::ImportFrom { module: x.module.as_ref().map(|m| m.to_string()) },
        _ => Statement::Other,
    }
}

/// Converts an `except` clause.
#[verifier::external_body]
fn convert_handler(h: &py::ExceptHandler) -> ExceptClause {
    match h {
        py::ExceptHandler::ExceptHandler(x) => ExceptClause { body: convert_suite(&x.body) },
    }
}

/// Converts a call, name or attribute expression; the others below.
#[verifier::external_body]
fn convert_expr(e: &py::Expr) -> Expression {
    match e {
        py::Expr::Call(x) => Expression::Call(convert_call(x)),
        py::Expr::Attribute(x) => {
            Expression::Attribute { value: Box::new(convert_expr(&x.value)), attr: x.attr.to_string() }
        },
        py::Expr::Name(x) => Expression::Name { id: x.id.to_string() },
        _ => convert_value_expr(e),
    }
}

/// Converts a literal, f-string or binary-operation expression.
#[verifier::external_body]
fn convert_value_expr(e: &py::Expr) -> Expression {
    match e {
        py::Expr::Constant(x) => Expression::Constant(LiteralExpr {
            value: convert_constant(&x.value),
            range: SourceSpan { start: u32::from(x.range.start()) as usize, end: u32::from(x.range.end()) as usize },
        }),
        py::Expr::JoinedStr(_) => Expression::JoinedStr,
        py::Expr::BinOp(x) => Expression::BinOp { left: Box::new(convert_expr(&x.left)), op: convert_operator(&x.op) },
        _ => Expression::Other,
    }
}

/// Converts a call expression.
#[verifier::external_body]
fn convert_call(c: &py::ExprCall) -> CallExpr {
    CallExpr {
        func: Box::new(convert_expr(&c.func)),
        args: c.args.iter().map(convert_expr).collect(),
        keywords: c.keywords.iter().map(convert_keyword).collect(),
        range: SourceSpan { start: u32::from(c.range.start()) as usize, end: u32::from(c.range.end()) as usize },
    }
}

/// Converts a keyword argument.
#[verifier::external_body]
fn convert_keyword(k: &py::Keyword) -> KeywordArg {
    KeywordArg { arg: k.arg.as_ref().map(|a| a.to_string()) }
}

/// Converts a literal value.
#[verifier::external_body]
fn convert_constant(c: &py::Constant) -> Literal {
    match c {
        py::Constant::Str(s) => Literal::Str(s.clone()),
        _ => Literal::Other,
    }
}

/// Converts a binary operator.
#[verifier::external_body]
fn convert_operator(op: &py::Operator) -> BinaryOperator {
    match op {
        py::Operator::Add => BinaryOperator::Add, py::Operator::Sub => BinaryOperator::Sub,
        py::Operator::Mult => BinaryOperator::Mult, py::Operator::MatMult => BinaryOperator::MatMult,
        py::Operator::Div => BinaryOperator::Div, py::Operator::Mod => BinaryOperator::Mod,
        py::Operator::Pow => BinaryOperator::Pow, py::Operator::LShift => BinaryOperator::LShift,
        py::Operator::RShift => BinaryOperator::RShift, py::Operator::BitOr => BinaryOperator::BitOr,
        py::Operator::BitXor => BinaryOperator::BitXor, py::Operator::BitAnd => BinaryOperator::BitAnd,
        py::Operator::FloorDiv => BinaryOperator::FloorDiv,
    }
}

} // verus!
