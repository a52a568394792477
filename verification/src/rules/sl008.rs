//! SL008: the event string must follow the configured case style.

use vstd::prelude::*;
use vstd::string::StringExecFns;

use crate::ast::{Literal, Expression};
use crate::models::{Fix, FixView, LogCall, LogCallView, RuleResult, RuleResultView, Status, result_view};
use crate::rules::case_style::CaseStyle;

verus! {

/// The SL008 feedback for an event that does not follow a style.
pub open spec fn spec_sl008_feedback(event: Seq<char>, style: CaseStyle) -> Seq<char> {
    "Event string \""@ + event + "\" does not match "@ + style.spec_name() + " style, expected \""@
        + style.spec_convert(event) + "\""@
}

/// The SL008 result for a log call: when the first positional argument
/// is a string literal that does not follow the style, a failure whose
/// fix replaces the literal by the converted string in double quotes.
pub open spec fn spec_check_sl008(log_call: LogCallView, style: CaseStyle) -> RuleResultView {
    if log_call.call.args.len() > 0 {
        match log_call.call.args@[0] {
            Expression::Constant(c) => match c.value {
                Literal::Str(event) => if style.spec_is_match(event@) {
                    result_view("SL008"@, Status::Pass, seq![])
                } else {
                    RuleResultView {
                        rule_id: "SL008"@,
                        status: Status::Fail,
                        feedback: spec_sl008_feedback(event@, style),
                        fix: Some(
                            FixView {
                                replacement: "\""@ + style.spec_convert(event@) + "\""@,
                                start: c.range.start,
                                end: c.range.end,
                            },
                        ),
                    }
                },
                _ => result_view("SL008"@, Status::Pass, seq![]),
            },
            _ => result_view("SL008"@, Status::Pass, seq![]),
        }
    } else {
        result_view("SL008"@, Status::Pass, seq![])
    }
}

/// SL008: the event string literal does not follow `case_style`; the
/// result carries a fix that rewrites it.
pub fn check_sl008(log_call: &LogCall, case_style: CaseStyle) -> (r: RuleResult)
    ensures
        r@ == spec_check_sl008(log_call@, case_style),
        r.rule_id@ == "SL008"@,
{
    if log_call.call.args.len() == 0 {
        return RuleResult::new("SL008", Status::Pass, String::new());
    }
    let constant = match &log_call.call.args[0] {
        Expression::Constant(c) => c,
        _ => {
            return RuleResult::new("SL008", Status::Pass, String::new());
        },
    };
    let event = match &constant.value {
        Literal::Str(s) => s,
        _ => {
            return RuleResult::new("SL008", Status::Pass, String::new());
        },
    };
    if case_style.is_match(event.as_str()) {
        return RuleResult::new("SL008", Status::Pass, String::new());
    }
    let converted = case_style.convert(event.as_str());
    let mut replacement = "\"".to_owned();
    replacement.append(converted.as_str());
    replacement.append("\"");
    let fix = Fix { replacement, start: constant.range.start, end: constant.range.end };
    let mut feedback = "Event string \"".to_owned();
    feedback.append(event.as_str());
    feedback.append("\" does not match ");
    feedback.append(case_style.as_str());
    feedback.append(" style, expected \"");
    feedback.append(converted.as_str());
    feedback.append("\"");
    RuleResult::new("SL008", Status::Fail, feedback).with_fix(fix)
}

} // verus!
