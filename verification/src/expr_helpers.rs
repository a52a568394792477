//! Shapes of the event argument that the rules look for.

use vstd::prelude::*;

use crate::ast::{Literal, Expression, BinaryOperator};
use crate::text::str_eq;

verus! {

/// A string literal (e.g. `'hello'`).
pub open spec fn spec_is_constant(e: Expression) -> bool {
    match e {
        Expression::Constant(c) => c.value is Str,
        _ => false,
    }
}

/// A bare name (e.g. `event`).
pub open spec fn spec_is_name(e: Expression) -> bool {
    e is Name
}

/// A string literal.
pub open spec fn spec_is_str_constant(e: Expression) -> bool {
    match e {
        Expression::Constant(c) => c.value is Str,
        _ => false,
    }
}

/// `%`-substitution on a string literal (e.g. `'user %s' % name`).
pub open spec fn spec_is_substitution(e: Expression) -> bool {
    match e {
        Expression::BinOp { left, op } => op == BinaryOperator::Mod && spec_is_str_constant(*left),
        _ => false,
    }
}

/// An f-string (e.g. `f'user {name}'`).
pub open spec fn spec_is_fstring(e: Expression) -> bool {
    e is JoinedStr
}

/// A call of a `.format(...)` method (e.g. `'user {}'.format(name)`).
pub open spec fn spec_is_format(e: Expression) -> bool {
    match e {
        Expression::Call(call) => match *call.func {
            Expression::Attribute { attr, .. } => attr@ == "format"@,
            _ => false,
        },
        _ => false,
    }
}

/// Returns true if the expression is a string literal (e.g. `'hello'`, `"world"`).
pub fn is_constant(expr: &Expression) -> (r: bool)
    ensures
        r == spec_is_constant(*expr),
{
    match expr {
        Expression::Constant(c) => match &c.value {
            Literal::Str(_) => true,
            _ => false,
        },
        _ => false,
    }
}

/// Returns true if the expression is a bare name reference (e.g. `event`, `var`).
pub fn is_name(expr: &Expression) -> (r: bool)
    ensures
        r == spec_is_name(*expr),
{
    matches!(expr, Expression::Name { .. })
}

/// Returns true if the expression is a `%`-based string substitution
/// (e.g. `'user %s' % username` or `'a %s b %s' % (x, y)`).
pub fn is_substitution(expr: &Expression) -> (r: bool)
    ensures
        r == spec_is_substitution(*expr),
{
    match expr {
        Expression::BinOp { left, op } => {
            let is_mod = match op {
                BinaryOperator::Mod => true,
                _ => false,
            };
            let left_is_str = match &**left {
                Expression::Constant(c) => match &c.value {
                    Literal::Str(_) => true,
                    _ => false,
                },
                _ => false,
            };
            is_mod && left_is_str
        },
        _ => false,
    }
}

/// Returns true if the expression is an f-string literal (e.g. `f'user {username}'`).
pub fn is_fstring(expr: &Expression) -> (r: bool)
    ensures
        r == spec_is_fstring(*expr),
{
    matches!(expr, Expression::JoinedStr)
}

/// Returns true if the expression calls a `.format(...)` method, on a
/// string literal (e.g. `'user {}'.format(name)`) or on any other value
/// (e.g. `template.format(name)`).
pub fn is_format(expr: &Expression) -> (r: bool)
    ensures
        r == spec_is_format(*expr),
{
    match expr {
        Expression::Call(call) => match &*call.func {
            Expression::Attribute { attr, .. } => str_eq(attr.as_str(), "format"),
            _ => false,
        },
        _ => false,
    }
}

} // verus!
