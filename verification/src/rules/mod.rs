//! The rules, and running the selected ones on a log call.

pub mod sl001;
pub mod sl002;
pub mod sl003;
pub mod sl004;
pub mod sl005;
pub mod sl006;
pub mod sl007;
pub mod sl009;
pub mod case_style;
pub mod sl008;

use vstd::prelude::*;

use crate::config::Config;
use crate::models::{
    result_views, LogCall, LogCallView, RuleResult, RuleResultView, RuleSeverity, Status,
};
use crate::text::str_eq;
use self::sl001::{check_sl001, spec_check_sl001};
use self::sl002::{check_sl002, spec_check_sl002};
use self::sl003::{check_sl003, spec_check_sl003};
use self::sl004::{check_sl004, spec_check_sl004};
use self::sl005::{check_sl005, spec_check_sl005};
use self::sl006::{check_sl006, spec_check_sl006};
use self::sl007::{check_sl007, spec_check_sl007};
use self::sl008::{check_sl008, spec_check_sl008};
use self::sl009::{check_sl009, spec_check_sl009};

verus! {

/// The number of rules.
pub const RULE_COUNT: usize = 9;

/// The id of the rule at position `k` (0-based) in the order SL001..SL009.
pub open spec fn spec_rule_id(k: int) -> Seq<char> {
    if k == 0 { "SL001"@ }
    else if k == 1 { "SL002"@ }
    else if k == 2 { "SL003"@ }
    else if k == 3 { "SL004"@ }
    else if k == 4 { "SL005"@ }
    else if k == 5 { "SL006"@ }
    else if k == 6 { "SL007"@ }
    else if k == 7 { "SL008"@ }
    else { "SL009"@ }
}

/// One of the strings of `list` is `id`.
pub open spec fn list_contains(list: Seq<String>, id: Seq<char>) -> bool {
    exists|i: int| 0 <= i < list.len() && #[trigger] list[i]@ == id
}

/// The rule runs: it is selected (or no selection is given), not
/// ignored, and not switched off.
pub open spec fn spec_should_run(config: Config, id: Seq<char>) -> bool {
    &&& match config.select {
        Some(select) => list_contains(select@, id),
        None => true,
    }
    &&& match config.ignore {
        Some(ignore) => !list_contains(ignore@, id),
        None => true,
    }
    &&& config.rules@.get(id) != Some(RuleSeverity::Off)
}

/// The severity a rule reports at when none is configured: warning for
/// SL007 and SL009, error for the others.
pub open spec fn spec_default_severity(id: Seq<char>) -> RuleSeverity {
    if id == "SL007"@ || id == "SL009"@ {
        RuleSeverity::Warning
    } else {
        RuleSeverity::Error
    }
}

/// The severity a rule reports at under `config`.
pub open spec fn spec_severity(config: Config, id: Seq<char>) -> RuleSeverity {
    match config.rules@.get(id) {
        Some(s) => s,
        None => spec_default_severity(id),
    }
}

/// The status reported for a rule outcome: a pass stays a pass; any other
/// outcome is a failure at error severity and a warning at warning
/// severity.
pub open spec fn spec_reported_status(config: Config, id: Seq<char>, status: Status) -> Status {
    if status == Status::Pass {
        Status::Pass
    } else {
        match spec_severity(config, id) {
            RuleSeverity::Error => Status::Fail,
            RuleSeverity::Warning => Status::Warning,
            RuleSeverity::Off => status,
        }
    }
}

/// A rule outcome with its reported status.
pub open spec fn spec_apply_severity(config: Config, r: RuleResultView) -> RuleResultView {
    RuleResultView { status: spec_reported_status(config, r.rule_id, r.status), ..r }
}

/// The outcome of the rule at position `k` on a log call.
pub open spec fn spec_rule_outcome(k: int, log_call: LogCallView, config: Config) -> RuleResultView {
    if k == 0 { spec_check_sl001(log_call.call) }
    else if k == 1 { spec_check_sl002(log_call.call) }
    else if k == 2 { spec_check_sl003(log_call.call) }
    else if k == 3 { spec_check_sl004(log_call) }
    else if k == 4 { spec_check_sl005(log_call) }
    else if k == 5 { spec_check_sl006(log_call) }
    else if k == 6 { spec_check_sl007(log_call, config.min_loop_log_level) }
    else if k == 7 { spec_check_sl008(log_call, config.case_style) }
    else { spec_check_sl009(log_call, config.max_event_length) }
}

/// The reported results of the first `k` rules that run, in rule order.
pub open spec fn spec_check_upto(log_call: LogCallView, config: Config, k: nat) -> Seq<RuleResultView>
    decreases k,
{
    if k == 0 {
        seq![]
    } else {
        let prev = spec_check_upto(log_call, config, (k - 1) as nat);
        if spec_should_run(config, spec_rule_id(k - 1)) {
            prev.push(spec_apply_severity(config, spec_rule_outcome(k - 1, log_call, config)))
        } else {
            prev
        }
    }
}

/// The reported results of the rules that run on a log call, in the
/// order SL001..SL009.
pub open spec fn spec_check_all(log_call: LogCallView, config: Config) -> Seq<RuleResultView> {
    spec_check_upto(log_call, config, 9)
}

fn list_contains_exec(list: &Vec<String>, id: &str) -> (r: bool)
    ensures
        r == list_contains(list@, id@),
{
    let n = list.len();
    let mut i: usize = 0;
    while i < n
        invariant
            n == list@.len(),
            i <= n,
            forall|j: int| 0 <= j < i ==> #[trigger] list@[j]@ != id@,
        decreases n - i,
    {
        if str_eq(list[i].as_str(), id) {
            return true;
        }
        i = i + 1;
    }
    false
}

fn should_run(config: &Config, rule_id: &str) -> (r: bool)
    ensures
        r == spec_should_run(*config, rule_id@),
{
    if let Some(select) = &config.select {
        if !list_contains_exec(select, rule_id) {
            return false;
        }
    }
    if let Some(ignore) = &config.ignore {
        if list_contains_exec(ignore, rule_id) {
            return false;
        }
    }
    match config.rules.get(rule_id) {
        Some(RuleSeverity::Off) => false,
        _ => true,
    }
}

fn apply_severity(result: RuleResult, config: &Config) -> (r: RuleResult)
    ensures
        r@ == spec_apply_severity(*config, result@),
        r.rule_id == result.rule_id,
{
    let mut result = result;
    if result.status != Status::Pass {
        let severity = match config.rules.get(result.rule_id) {
            Some(s) => *s,
            None => if str_eq(result.rule_id, "SL007") || str_eq(result.rule_id, "SL009") {
                RuleSeverity::Warning
            } else {
                RuleSeverity::Error
            },
        };
        result.status = match severity {
            RuleSeverity::Error => Status::Fail,
            RuleSeverity::Warning => Status::Warning,
            RuleSeverity::Off => result.status,
        };
    }
    result
}

proof fn lemma_views_push(results: Seq<RuleResult>, r: RuleResult)
    ensures
        result_views(results.push(r)) == result_views(results).push(r@),
{
    assert(result_views(results.push(r)) =~= result_views(results).push(r@));
}

fn rule_id(k: usize) -> (r: &'static str)
    requires
        k < RULE_COUNT,
    ensures
        r@ == spec_rule_id(k as int),
{
    if k == 0 { "SL001" }
    else if k == 1 { "SL002" }
    else if k == 2 { "SL003" }
    else if k == 3 { "SL004" }
    else if k == 4 { "SL005" }
    else if k == 5 { "SL006" }
    else if k == 6 { "SL007" }
    else if k == 7 { "SL008" }
    else { "SL009" }
}

fn rule_outcome(k: usize, log_call: &LogCall, config: &Config) -> (r: RuleResult)
    requires
        k < RULE_COUNT,
    ensures
        r@ == spec_rule_outcome(k as int, log_call@, *config),
        r.rule_id@ == spec_rule_id(k as int),
{
    if k == 0 { check_sl001(log_call.call) }
    else if k == 1 { check_sl002(log_call.call) }
    else if k == 2 { check_sl003(log_call.call) }
    else if k == 3 { check_sl004(log_call) }
    else if k == 4 { check_sl005(log_call) }
    else if k == 5 { check_sl006(log_call) }
    else if k == 6 { check_sl007(log_call, config.min_loop_log_level) }
    else if k == 7 { check_sl008(log_call, config.case_style) }
    else { check_sl009(log_call, config.max_event_length) }
}

/// Runs the rules that `config` selects on a log call, in the order
/// SL001..SL009, each result carrying the status its severity reports.
pub fn check_all(log_call: &LogCall, config: &Config) -> (r: Vec<RuleResult>)
    ensures
        result_views(r@) == spec_check_all(log_call@, *config),
{
    let mut results: Vec<RuleResult> = Vec::new();
    assert(result_views(results@) =~= spec_check_upto(log_call@, *config, 0));
    let mut k: usize = 0;
    while k < RULE_COUNT
        invariant
            k <= RULE_COUNT,
            result_views(results@) == spec_check_upto(log_call@, *config, k as nat),
        decreases RULE_COUNT - k,
    {
        if should_run(config, rule_id(k)) {
            let r = apply_severity(rule_outcome(k, log_call, config), config);
            proof {
                lemma_views_push(results@, r);
            }
            results.push(r);
        }
        k = k + 1;
    }
    results
}

} // verus!

verus! {

/// The number of rules among the first `k` that run under `config`.
pub open spec fn spec_count_run(config: Config, k: nat) -> nat
    decreases k,
{
    if k == 0 {
        0
    } else if spec_should_run(config, spec_rule_id(k - 1)) {
        spec_count_run(config, (k - 1) as nat) + 1
    } else {
        spec_count_run(config, (k - 1) as nat)
    }
}

proof fn lemma_rule_ids_distinct(j: int, k: int)
    requires
        0 <= j < 9,
        0 <= k < 9,
        j != k,
    ensures
        spec_rule_id(j) != spec_rule_id(k),
{
    reveal_strlit("SL001");
    reveal_strlit("SL002");
    reveal_strlit("SL003");
    reveal_strlit("SL004");
    reveal_strlit("SL005");
    reveal_strlit("SL006");
    reveal_strlit("SL007");
    reveal_strlit("SL008");
    reveal_strlit("SL009");
    assert(spec_rule_id(j)[4] != spec_rule_id(k)[4]);
}

proof fn lemma_outcome_rule_id(k: int, log_call: LogCallView, config: Config)
    requires
        0 <= k < 9,
    ensures
        spec_rule_outcome(k, log_call, config).rule_id == spec_rule_id(k),
{
}

proof fn lemma_count_run_monotone(config: Config, j: nat, k: nat)
    requires
        j <= k,
    ensures
        spec_count_run(config, j) <= spec_count_run(config, k),
        spec_should_run(config, spec_rule_id(j as int)) && j < k ==> spec_count_run(config, j)
            < spec_count_run(config, k),
    decreases k,
{
    if j < k {
        lemma_count_run_monotone(config, j, (k - 1) as nat);
    }
}

/// Some rule among the first `k` runs and lands at result position `p`.
spec fn position_has_rule(config: Config, k: nat, p: int) -> bool {
    exists|j: int| 0 <= j < k && spec_should_run(config, #[trigger] spec_rule_id(j)) && spec_count_run(
        config,
        j as nat,
    ) == p
}

proof fn lemma_check_upto(log_call: LogCallView, config: Config, k: nat)
    requires
        k <= 9,
    ensures
        spec_check_upto(log_call, config, k).len() == spec_count_run(config, k),
        forall|j: int| 0 <= j < k && spec_should_run(config, #[trigger] spec_rule_id(j)) ==> spec_check_upto(
            log_call,
            config,
            k,
        )[spec_count_run(config, j as nat) as int] == spec_apply_severity(
            config,
            spec_rule_outcome(j, log_call, config),
        ),
        forall|p: int| 0 <= p < spec_count_run(config, k) ==> #[trigger] position_has_rule(config, k, p),
    decreases k,
{
    if k > 0 {
        let km = (k - 1) as nat;
        lemma_check_upto(log_call, config, km);
        assert forall|j: int| 0 <= j < k && spec_should_run(config, #[trigger] spec_rule_id(j)) implies spec_check_upto(
            log_call,
            config,
            k,
        )[spec_count_run(config, j as nat) as int] == spec_apply_severity(
            config,
            spec_rule_outcome(j, log_call, config),
        ) by {
            if j < km {
                lemma_count_run_monotone(config, j as nat, km);
            }
        }
        assert forall|p: int| 0 <= p < spec_count_run(config, k) implies #[trigger] position_has_rule(
            config,
            k,
            p,
        ) by {
            if p < spec_count_run(config, km) {
                assert(position_has_rule(config, km, p));
                let j = choose|j: int| 0 <= j < km && spec_should_run(config, #[trigger] spec_rule_id(j))
                    && spec_count_run(config, j as nat) == p;
                assert(0 <= j < k && spec_should_run(config, spec_rule_id(j)) && spec_count_run(config, j as nat) == p);
            } else {
                assert(spec_should_run(config, spec_rule_id(km as int)));
                assert(spec_count_run(config, km) == p);
            }
        }
    }
}

/// A rule reports a result on a log call exactly when it is one of
/// SL001..SL009 and it runs under the configuration: selected (or no
/// selection given), not ignored, and not switched off.
pub proof fn law_reported_iff_run(log_call: LogCallView, config: Config, id: Seq<char>)
    ensures
        (exists|i: int| 0 <= i < spec_check_all(log_call, config).len() && #[trigger] spec_check_all(
            log_call,
            config,
        )[i].rule_id == id) <==> ((exists|k: int| 0 <= k < 9 && #[trigger] spec_rule_id(k) == id)
            && spec_should_run(config, id)),
{
    let r = spec_check_all(log_call, config);
    lemma_check_upto(log_call, config, 9);
    if exists|i: int| 0 <= i < r.len() && #[trigger] r[i].rule_id == id {
        let i = choose|i: int| 0 <= i < r.len() && #[trigger] r[i].rule_id == id;
        assert(position_has_rule(config, 9, i));
        let j = choose|j: int| 0 <= j < 9 && spec_should_run(config, #[trigger] spec_rule_id(j))
            && spec_count_run(config, j as nat) == i;
        lemma_outcome_rule_id(j, log_call, config);
        assert(spec_rule_id(j) == id);
    }
    if (exists|k: int| 0 <= k < 9 && #[trigger] spec_rule_id(k) == id) && spec_should_run(config, id) {
        let k = choose|k: int| 0 <= k < 9 && #[trigger] spec_rule_id(k) == id;
        lemma_count_run_monotone(config, k as nat, 9);
        lemma_outcome_rule_id(k, log_call, config);
        let i = spec_count_run(config, k as nat) as int;
        assert(r[i].rule_id == id);
    }
}

/// The results come in the order SL001..SL009, so no rule reports twice.
pub proof fn law_results_in_rule_order(log_call: LogCallView, config: Config, i: int, j: int)
    requires
        0 <= i < j < spec_check_all(log_call, config).len(),
    ensures
        exists|a: int, b: int| 0 <= a < b < 9 && #[trigger] spec_rule_id(a) == spec_check_all(
            log_call,
            config,
        )[i].rule_id && #[trigger] spec_rule_id(b) == spec_check_all(log_call, config)[j].rule_id,
        spec_check_all(log_call, config)[i].rule_id != spec_check_all(log_call, config)[j].rule_id,
{
    let r = spec_check_all(log_call, config);
    lemma_check_upto(log_call, config, 9);
    assert(position_has_rule(config, 9, i));
    assert(position_has_rule(config, 9, j));
    let a = choose|a: int| 0 <= a < 9 && spec_should_run(config, #[trigger] spec_rule_id(a))
        && spec_count_run(config, a as nat) == i;
    let b = choose|b: int| 0 <= b < 9 && spec_should_run(config, #[trigger] spec_rule_id(b))
        && spec_count_run(config, b as nat) == j;
    if b <= a {
        lemma_count_run_monotone(config, b as nat, a as nat);
    }
    lemma_outcome_rule_id(a, log_call, config);
    lemma_outcome_rule_id(b, log_call, config);
    lemma_rule_ids_distinct(a, b);
}

/// Each reported result is the rule's own outcome with its reported
/// status: a pass stays a pass, and any other outcome is a failure when
/// the rule's severity (configured, else its default) is error and a
/// warning when it is warning.
pub proof fn law_reported_status(log_call: LogCallView, config: Config, i: int)
    requires
        0 <= i < spec_check_all(log_call, config).len(),
    ensures
        exists|k: int| 0 <= k < 9 && #[trigger] spec_rule_id(k) == spec_check_all(log_call, config)[i].rule_id && {
            let outcome = spec_rule_outcome(k, log_call, config);
            let reported = spec_check_all(log_call, config)[i];
            &&& reported.feedback == outcome.feedback
            &&& reported.fix == outcome.fix
            &&& (outcome.status == Status::Pass ==> reported.status == Status::Pass)
            &&& (outcome.status != Status::Pass && spec_severity(config, reported.rule_id)
                == RuleSeverity::Error ==> reported.status == Status::Fail)
            &&& (outcome.status != Status::Pass && spec_severity(config, reported.rule_id)
                == RuleSeverity::Warning ==> reported.status == Status::Warning)
        },
        spec_severity(config, spec_check_all(log_call, config)[i].rule_id) != RuleSeverity::Off,
{
    lemma_check_upto(log_call, config, 9);
    assert(position_has_rule(config, 9, i));
    let k = choose|k: int| 0 <= k < 9 && spec_should_run(config, #[trigger] spec_rule_id(k))
        && spec_count_run(config, k as nat) == i;
    lemma_outcome_rule_id(k, log_call, config);
}

/// The default severities: SL007 and SL009 warn; every other rule,
/// SL001 to SL006 and SL008, is an error.
pub proof fn law_default_severities(k: int)
    requires
        0 <= k < 9,
    ensures
        k == 6 || k == 8 ==> spec_default_severity(spec_rule_id(k)) == RuleSeverity::Warning,
        k != 6 && k != 8 ==> spec_default_severity(spec_rule_id(k)) == RuleSeverity::Error,
{
    if k != 6 && k != 8 {
        lemma_rule_ids_distinct(k, 6);
        lemma_rule_ids_distinct(k, 8);
    }
}

/// With no severity configured for a rule, a reported result of SL007 or
/// SL009 is never a failure, and one of any other rule is never a
/// warning: a failing outcome of SL001 to SL006 or SL008 is reported as a
/// failure.
pub proof fn law_default_reported_status(log_call: LogCallView, config: Config, i: int)
    requires
        0 <= i < spec_check_all(log_call, config).len(),
        config.rules@.get(spec_check_all(log_call, config)[i].rule_id) is None,
    ensures
        ({
            let r = spec_check_all(log_call, config)[i];
            &&& (r.rule_id == "SL007"@ || r.rule_id == "SL009"@) ==> r.status != Status::Fail
            &&& (r.rule_id != "SL007"@ && r.rule_id != "SL009"@) ==> r.status != Status::Warning
        }),
{
    law_reported_status(log_call, config, i);
    let r = spec_check_all(log_call, config)[i];
    let k = choose|k: int| 0 <= k < 9 && #[trigger] spec_rule_id(k) == r.rule_id && {
        let outcome = spec_rule_outcome(k, log_call, config);
        let reported = spec_check_all(log_call, config)[i];
        &&& reported.feedback == outcome.feedback
        &&& reported.fix == outcome.fix
        &&& (outcome.status == Status::Pass ==> reported.status == Status::Pass)
        &&& (outcome.status != Status::Pass && spec_severity(config, reported.rule_id)
            == RuleSeverity::Error ==> reported.status == Status::Fail)
        &&& (outcome.status != Status::Pass && spec_severity(config, reported.rule_id)
            == RuleSeverity::Warning ==> reported.status == Status::Warning)
    };
    law_default_severities(k);
    assert(spec_rule_id(6) == "SL007"@);
    assert(spec_rule_id(8) == "SL009"@);
}

/// A reported SL006 result for a call that no `except` clause encloses
/// is a pass.
pub proof fn law_sl006_reported_pass_outside_except(log_call: LogCallView, config: Config, i: int)
    requires
        0 <= i < spec_check_all(log_call, config).len(),
        spec_check_all(log_call, config)[i].rule_id == "SL006"@,
        !log_call.inside_except,
    ensures
        spec_check_all(log_call, config)[i].status == Status::Pass,
{
    law_reported_status(log_call, config, i);
    let r = spec_check_all(log_call, config)[i];
    let k = choose|k: int| 0 <= k < 9 && #[trigger] spec_rule_id(k) == r.rule_id && {
        let outcome = spec_rule_outcome(k, log_call, config);
        let reported = spec_check_all(log_call, config)[i];
        &&& (outcome.status == Status::Pass ==> reported.status == Status::Pass)
    };
    if k != 5 {
        lemma_rule_ids_distinct(k, 5);
    }
    assert(k == 5);
}

} // verus!
