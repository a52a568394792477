//! SL004: the event must not be built with `.format()`.

use vstd::prelude::*;

use crate::expr_helpers::{is_format, spec_is_format};
use crate::models::{result_view, LogCall, LogCallView, RuleResult, RuleResultView, Status};

verus! {

/// The SL004 result for a log call.
pub open spec fn spec_check_sl004(log_call: LogCallView) -> RuleResultView {
    if log_call.call.args.len() > 0 && spec_is_format(log_call.call.args@[0]) {
        result_view(
            "SL004"@,
            Status::Fail,
            ".format() used on event; use a constant string and pass data as keyword arguments"@,
        )
    } else {
        result_view("SL004"@, Status::Pass, seq![])
    }
}

/// SL004: fails when the first positional argument is a `.format(...)` call.
pub fn check_sl004(log_call: &LogCall) -> (r: RuleResult)
    ensures
        r@ == spec_check_sl004(log_call@),
        r.rule_id@ == "SL004"@,
{
    if log_call.call.args.len() > 0 && is_format(&log_call.call.args[0]) {
        return RuleResult::new(
            "SL004",
            Status::Fail,
            ".format() used on event; use a constant string and pass data as keyword arguments".to_owned(),
        );
    }
    RuleResult::new("SL004", Status::Pass, String::new())
}

} // verus!
