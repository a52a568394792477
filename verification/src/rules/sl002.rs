//! SL002: the event must not be an f-string.

use vstd::prelude::*;

use crate::ast::CallExpr;
use crate::expr_helpers::{is_fstring, spec_is_fstring};
use crate::models::{result_view, RuleResult, RuleResultView, Status};

verus! {

/// The SL002 result for a call.
pub open spec fn spec_check_sl002(call: CallExpr) -> RuleResultView {
    if call.args.len() > 0 && spec_is_fstring(call.args@[0]) {
        result_view(
            "SL002"@,
            Status::Fail,
            "Passing an f-string as the event argument in structlog, consider using a constant string instead"@,
        )
    } else {
        result_view("SL002"@, Status::Pass, seq![])
    }
}

/// SL002: fails when the first positional argument is an f-string.
pub fn check_sl002(call: &CallExpr) -> (r: RuleResult)
    ensures
        r@ == spec_check_sl002(*call),
        r.rule_id@ == "SL002"@,
{
    if call.args.len() > 0 && is_fstring(&call.args[0]) {
        return RuleResult::new(
            "SL002",
            Status::Fail,
            "Passing an f-string as the event argument in structlog, consider using a constant string instead".to_owned(),
        );
    }
    RuleResult::new("SL002", Status::Pass, String::new())
}

} // verus!
