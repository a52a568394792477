//! The syntax-tree types of `rustpython_parser` that the parse wrapper
//! converts from, made known to Verus as opaque types.

use rustpython_parser::ast as py;

use vstd::prelude::*;

verus! {

#[verifier::external_type_specification]
#[verifier::external_body]
#[verifier::reject_recursive_types(R)]
pub struct ExPyStmt<R>(py::Stmt<R>);

#[verifier::external_type_specification]
#[verifier::external_body]
#[verifier::reject_recursive_types(R)]
pub struct ExPyExpr<R>(py::Expr<R>);

#[verifier::external_type_specification]
#[verifier::external_body]
#[verifier::reject_recursive_types(R)]
pub struct ExPyExprCall<R>(py::ExprCall<R>);

#[verifier::external_type_specification]
#[verifier::external_body]
#[verifier::reject_recursive_types(R)]
pub struct ExPyExceptHandler<R>(py::ExceptHandler<R>);

#[verifier::external_type_specification]
#[verifier::external_body]
#[verifier::reject_recursive_types(R)]
pub struct ExPyKeyword<R>(py::Keyword<R>);

#[verifier::external_type_specification]
#[verifier::external_body]
pub struct ExPyConstant(py::Constant);

#[verifier::external_type_specification]
#[verifier::external_body]
pub struct ExPyOperator(py::Operator);

} // verus!

verus! {

#[verifier::external_type_specification]
#[verifier::external_body]
pub struct ExPyTextRange(rustpython_parser::text_size::TextRange);

} // verus!
