//! SL001: only the event string may be passed positionally.

use vstd::prelude::*;

use crate::ast::CallExpr;
use crate::models::{result_view, RuleResult, RuleResultView, Status};

verus! {

/// The SL001 result for a call.
pub open spec fn spec_check_sl001(call: CallExpr) -> RuleResultView {
    if call.args.len() > 1 {
        result_view(
            "SL001"@,
            Status::Fail,
            "too many positional arguments; expected at most one (the event string)"@,
        )
    } else {
        result_view("SL001"@, Status::Pass, seq![])
    }
}

/// SL001: fails when the call has more than one positional argument.
pub fn check_sl001(call: &CallExpr) -> (r: RuleResult)
    ensures
        r@ == spec_check_sl001(*call),
        r.rule_id@ == "SL001"@,
{
    if call.args.len() > 1 {
        return RuleResult::new(
            "SL001",
            Status::Fail,
            "too many positional arguments; expected at most one (the event string)".to_owned(),
        );
    }
    RuleResult::new("SL001", Status::Pass, String::new())
}

} // verus!
