//! SL005: `log.exception()` only inside `except` blocks.

use vstd::prelude::*;

use crate::ast::{CallExpr, Expression};
use crate::models::{result_view, LogCall, LogCallView, RuleResult, RuleResultView, Status};
use crate::text::str_eq;

verus! {

/// The call is a call of a method named `exception` (`X.exception(...)`).
pub open spec fn spec_is_call_exception(call: CallExpr) -> bool {
    match *call.func {
        Expression::Attribute { attr, .. } => attr@ == "exception"@,
        _ => false,
    }
}

/// Whether the call is a call of a method named `exception`.
pub fn is_call_exception(call: &CallExpr) -> (r: bool)
    ensures
        r == spec_is_call_exception(*call),
{
    match &*call.func {
        Expression::Attribute { attr, .. } => str_eq(attr.as_str(), "exception"),
        _ => false,
    }
}

/// The SL005 result for a log call: a failure when it calls
/// `exception()` and no block around it is an `except` clause.
pub open spec fn spec_check_sl005(log_call: LogCallView) -> RuleResultView {
    if spec_is_call_exception(log_call.call) && !log_call.inside_except {
        result_view(
            "SL005"@,
            Status::Fail,
            "log.exception() used outside of an except block. Use log.exception() only inside except handlers."@,
        )
    } else {
        result_view("SL005"@, Status::Pass, seq![])
    }
}

/// SL005: `log.exception()` must only be used inside an `except` block.
pub fn check_sl005(log_call: &LogCall) -> (r: RuleResult)
    ensures
        r@ == spec_check_sl005(log_call@),
        r.rule_id@ == "SL005"@,
{
    if !is_call_exception(log_call.call) {
        return RuleResult::new("SL005", Status::Pass, String::new());
    }
    if !log_call.inside_except {
        return RuleResult::new(
            "SL005",
            Status::Fail,
            "log.exception() used outside of an except block. Use log.exception() only inside except handlers.".to_owned(),
        );
    }
    RuleResult::new("SL005", Status::Pass, String::new())
}

} // verus!
