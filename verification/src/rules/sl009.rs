//! SL009: the event string must not exceed the maximum length.

use vstd::prelude::*;
use vstd::string::{StrSliceExecFns, StringExecFns};

use crate::ast::{Literal, Expression};
use crate::models::{result_view, LogCall, LogCallView, RuleResult, RuleResultView, Status};
use crate::text::{decimal, spec_decimal};

verus! {

/// The event string of a log call: its first positional argument, when
/// that is a string literal.
pub open spec fn spec_event_string(log_call: LogCallView) -> Option<Seq<char>> {
    if log_call.call.args.len() > 0 {
        match log_call.call.args@[0] {
            Expression::Constant(c) => match c.value {
                Literal::Str(s) => Some(s@),
                _ => None,
            },
            _ => None,
        }
    } else {
        None
    }
}

/// The SL009 feedback for an event and a maximum.
pub open spec fn spec_sl009_feedback(event: Seq<char>, max: usize) -> Seq<char> {
    "event string \""@ + event + "\" exceeds maximum length of "@ + spec_decimal(max as nat)
}

/// The SL009 result for a log call: the length of the event is counted
/// in characters.
pub open spec fn spec_check_sl009(log_call: LogCallView, max: usize) -> RuleResultView {
    match spec_event_string(log_call) {
        Some(event) => if event.len() > max {
            result_view("SL009"@, Status::Fail, spec_sl009_feedback(event, max))
        } else {
            result_view("SL009"@, Status::Pass, seq![])
        },
        None => result_view("SL009"@, Status::Pass, seq![]),
    }
}

/// SL009: the event string is longer than `event_length` characters.
pub fn check_sl009(log_call: &LogCall, event_length: usize) -> (r: RuleResult)
    ensures
        r@ == spec_check_sl009(log_call@, event_length),
        r.rule_id@ == "SL009"@,
{
    if log_call.call.args.len() == 0 {
        return RuleResult::new("SL009", Status::Pass, String::new());
    }
    let event = match &log_call.call.args[0] {
        Expression::Constant(c) => match &c.value {
            Literal::Str(s) => s,
            _ => {
                return RuleResult::new("SL009", Status::Pass, String::new());
            },
        },
        _ => {
            return RuleResult::new("SL009", Status::Pass, String::new());
        },
    };
    if event.as_str().unicode_len() <= event_length {
        return RuleResult::new("SL009", Status::Pass, String::new());
    }
    let mut feedback = "event string \"".to_owned();
    feedback.append(event.as_str());
    feedback.append("\" exceeds maximum length of ");
    feedback.append(decimal(event_length).as_str());
    RuleResult::new("SL009", Status::Fail, feedback)
}

} // verus!
