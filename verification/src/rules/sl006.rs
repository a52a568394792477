//! SL006: inside `except`, prefer `log.exception()` over `log.error()`.

use vstd::prelude::*;

use crate::ast::{CallExpr, KeywordArg};
use crate::models::{
    result_view, LogCall, LogCallView, LogLevel, RuleResult, RuleResultView, Status,
};
use crate::text::str_eq;

verus! {

/// The keyword argument is `exc_info=...`.
pub open spec fn spec_keyword_is_exc_info(keyword: KeywordArg) -> bool {
    match keyword.arg {
        Some(id) => id@ == "exc_info"@,
        None => false,
    }
}

/// The call passes `exc_info=...`.
pub open spec fn spec_any_keyword_is_exc_info(call: CallExpr) -> bool {
    exists|i: int| 0 <= i < call.keywords.len() && spec_keyword_is_exc_info(#[trigger] call.keywords@[i])
}

/// The SL006 result for a log call: a failure when it logs at level
/// `error` inside an `except` clause without `exc_info=...`.
pub open spec fn spec_check_sl006(log_call: LogCallView) -> RuleResultView {
    if log_call.level == LogLevel::Error && log_call.inside_except
        && !spec_any_keyword_is_exc_info(log_call.call) {
        result_view("SL006"@, Status::Fail, seq![])
    } else {
        result_view("SL006"@, Status::Pass, seq![])
    }
}

fn keyword_is_exc_info(keyword: &KeywordArg) -> (r: bool)
    ensures
        r == spec_keyword_is_exc_info(*keyword),
{
    match &keyword.arg {
        Some(id) => str_eq(id.as_str(), "exc_info"),
        None => false,
    }
}

fn any_keyword_is_exc_info(call: &CallExpr) -> (r: bool)
    ensures
        r == spec_any_keyword_is_exc_info(*call),
{
    let n = call.keywords.len();
    let mut i: usize = 0;
    while i < n
        invariant
            n == call.keywords.len(),
            i <= n,
            forall|j: int| 0 <= j < i ==> !spec_keyword_is_exc_info(#[trigger] call.keywords@[j]),
        decreases n - i,
    {
        if keyword_is_exc_info(&call.keywords[i]) {
            return true;
        }
        i = i + 1;
    }
    false
}

/// SL006: `log.error()` inside an `except` block without `exc_info=...`.
pub fn check_sl006(log_call: &LogCall) -> (r: RuleResult)
    ensures
        r@ == spec_check_sl006(log_call@),
        r.rule_id@ == "SL006"@,
{
    if log_call.level != LogLevel::Error {
        return RuleResult::new("SL006", Status::Pass, String::new());
    }
    if log_call.inside_except {
        if any_keyword_is_exc_info(log_call.call) {
            return RuleResult::new("SL006", Status::Pass, String::new());
        }
        return RuleResult::new("SL006", Status::Fail, String::new());
    }
    RuleResult::new("SL006", Status::Pass, String::new())
}

/// SL006 is about `except` clauses: a log call that no `except` clause
/// encloses always passes it, whatever its level and keywords; and a call
/// at level `error` inside an `except` clause with no keyword arguments
/// at all fails it.
pub proof fn law_sl006_only_inside_except(log_call: LogCallView)
    ensures
        !log_call.inside_except ==> spec_check_sl006(log_call).status == Status::Pass,
        log_call.inside_except && log_call.level == LogLevel::Error && log_call.call.keywords.len() == 0
            ==> spec_check_sl006(log_call).status == Status::Fail,
{
}

} // verus!
