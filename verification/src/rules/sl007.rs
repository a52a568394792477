//! SL007: no logging at or above the configured level inside loop bodies.

use vstd::prelude::*;
use vstd::string::StringExecFns;

use crate::models::{
    result_view, LogCall, LogCallView, LogLevel, ParentContext, RuleResult, RuleResultView, Status,
};

verus! {

/// The SL007 feedback for a minimum level.
pub open spec fn spec_sl007_feedback(min_log_level: LogLevel) -> Seq<char> {
    "logging at level `"@ + min_log_level.spec_name() + "` or above inside a loop body"@
}

/// The SL007 result for a log call.
pub open spec fn spec_check_sl007(log_call: LogCallView, min_log_level: LogLevel) -> RuleResultView {
    if log_call.level.spec_rank() >= min_log_level.spec_rank() && (log_call.context
        == ParentContext::While || log_call.context == ParentContext::For) {
        result_view("SL007"@, Status::Fail, spec_sl007_feedback(min_log_level))
    } else {
        result_view("SL007"@, Status::Pass, seq![])
    }
}

/// SL007: a log call at or above `min_log_level` directly inside a `for`
/// or `while` body.
pub fn check_sl007(log_call: &LogCall, min_log_level: LogLevel) -> (r: RuleResult)
    ensures
        r@ == spec_check_sl007(log_call@, min_log_level),
        r.rule_id@ == "SL007"@,
{
    if log_call.level.rank() < min_log_level.rank() {
        return RuleResult::new("SL007", Status::Pass, String::new());
    }
    if log_call.context == ParentContext::While || log_call.context == ParentContext::For {
        let mut feedback = "logging at level `".to_owned();
        feedback.append(min_log_level.as_str());
        feedback.append("` or above inside a loop body");
        return RuleResult::new("SL007", Status::Fail, feedback);
    }
    RuleResult::new("SL007", Status::Pass, String::new())
}

} // verus!
