//! SL003: the event must not be built with `%`-formatting.

use vstd::prelude::*;

use crate::ast::CallExpr;
use crate::expr_helpers::{is_substitution, spec_is_substitution};
use crate::models::{result_view, RuleResult, RuleResultView, Status};

verus! {

/// The SL003 result for a call.
pub open spec fn spec_check_sl003(call: CallExpr) -> RuleResultView {
    if call.args.len() > 0 && spec_is_substitution(call.args@[0]) {
        result_view(
            "SL003"@,
            Status::Fail,
            "%-formatting used in event; use a constant string and pass data as keyword arguments"@,
        )
    } else {
        result_view("SL003"@, Status::Pass, seq![])
    }
}

/// SL003: fails when the first positional argument is `'...' % value`.
pub fn check_sl003(call: &CallExpr) -> (r: RuleResult)
    ensures
        r@ == spec_check_sl003(*call),
        r.rule_id@ == "SL003"@,
{
    if call.args.len() > 0 && is_substitution(&call.args[0]) {
        return RuleResult::new(
            "SL003",
            Status::Fail,
            "%-formatting used in event; use a constant string and pass data as keyword arguments".to_owned(),
        );
    }
    RuleResult::new("SL003", Status::Pass, String::new())
}

} // verus!
