//! Analyzing a module: every log call, with the results of the selected
//! rules, less those that a `# noqa` comment on its line suppresses.

use vstd::prelude::*;
use vstd::utf8::encode_utf8;

use crate::ast::Statement;
use crate::ast_walker::{collect_suite_into, spec_collect_suite};
use crate::config::Config;
use crate::display::{spec_line_of, LineIndex};
use crate::models::{
    log_call_views, result_views, Finding, LogCall, LogCallView, ParentContext, RuleResult,
    RuleResultView, Status,
};
use crate::noqa::{NoqaDirective, parse_noqa_comments, spec_noqa_map_has, spec_parse_line, spec_suppresses, Suppression};
use crate::rules::{check_all, spec_check_all};
use crate::text::{seq_starts_with, spec_lines, str_eq, str_starts_with};

verus! {

/// A finding as a value.
pub struct FindingView {
    pub log_call: LogCallView,
    pub results: Seq<RuleResultView>,
}

impl<'a> View for Finding<'a> {
    type V = FindingView;

    open spec fn view(&self) -> FindingView {
        FindingView { log_call: self.log_call@, results: result_views(self.results@) }
    }
}

/// The views of a sequence of findings.
pub open spec fn finding_views<'a>(findings: Seq<Finding<'a>>) -> Seq<FindingView> {
    findings.map_values(|f: Finding<'a>| f@)
}

/// The statement imports structlog: `import structlog`, or
/// `from structlog import ...`, or `from structlog.<sub> import ...`.
pub open spec fn spec_imports_structlog(stmt: Statement) -> bool {
    match stmt {
        Statement::Import { names } => exists|i: int| 0 <= i < names.len() && #[trigger] names@[i]@
            == "structlog"@,
        Statement::ImportFrom { module } => match module {
            Some(m) => m@ == "structlog"@ || seq_starts_with(m@, "structlog."@),
            None => false,
        },
        _ => false,
    }
}

/// Some top-level statement imports structlog.
pub open spec fn spec_has_structlog_import(stmts: Seq<Statement>) -> bool {
    exists|i: int| 0 <= i < stmts.len() && spec_imports_structlog(#[trigger] stmts[i])
}

/// The directive that a `# noqa` comment on 1-based `line` of `source` holds.
pub open spec fn spec_noqa_for_line(source: Seq<char>, line: int) -> Option<Suppression> {
    if spec_noqa_map_has(source, line) {
        spec_parse_line(spec_lines(source)[line - 1])
    } else {
        None
    }
}

/// A result survives a directive: with no directive every result does;
/// with one, passes and results of rules it does not name.
pub open spec fn spec_keep(d: Option<Suppression>, r: RuleResultView) -> bool {
    match d {
        None => true,
        Some(d) => r.status == Status::Pass || !spec_suppresses(d, r.rule_id),
    }
}

/// The results that survive a directive, in order.
pub open spec fn spec_filter_results(results: Seq<RuleResultView>, d: Option<Suppression>) -> Seq<
    RuleResultView,
>
    decreases results.len(),
{
    if results.len() == 0 {
        seq![]
    } else {
        let prev = spec_filter_results(results.drop_last(), d);
        if spec_keep(d, results.last()) {
            prev.push(results.last())
        } else {
            prev
        }
    }
}

/// The 1-based line of `source` that a log call starts on.
pub open spec fn spec_call_line(source: Seq<char>, log_call: LogCallView) -> int {
    spec_line_of(encode_utf8(source), log_call.call.range.start as int) as int
}

/// The finding for one log call.
pub open spec fn spec_finding(log_call: LogCallView, config: Config, source: Seq<char>) -> FindingView {
    FindingView {
        log_call,
        results: spec_filter_results(
            spec_check_all(log_call, config),
            spec_noqa_for_line(source, spec_call_line(source, log_call)),
        ),
    }
}

/// The findings of a module: none when imports are checked and the
/// module does not import structlog; otherwise one per log call, in
/// source order.
pub open spec fn spec_analyze(stmts: Seq<Statement>, config: Config, source: Seq<char>) -> Seq<FindingView> {
    if config.check_imports && !spec_has_structlog_import(stmts) {
        seq![]
    } else {
        spec_collect_suite(stmts, ParentContext::Module, false).map_values(
            |lc: LogCallView| spec_finding(lc, config, source),
        )
    }
}


proof fn lemma_filter_without_directive(results: Seq<RuleResultView>)
    ensures
        spec_filter_results(results, None) == results,
    decreases results.len(),
{
    if results.len() > 0 {
        lemma_filter_without_directive(results.drop_last());
        assert(results.drop_last().push(results.last()) =~= results);
    }
}

proof fn lemma_filter_kept(results: Seq<RuleResultView>, d: Option<Suppression>)
    ensures
        forall|i: int| 0 <= i < spec_filter_results(results, d).len() ==> spec_keep(
            d,
            #[trigger] spec_filter_results(results, d)[i],
        ),
        forall|j: int| 0 <= j < results.len() && spec_keep(d, #[trigger] results[j])
            ==> spec_filter_results(results, d).contains(results[j]),
        forall|i: int| 0 <= i < spec_filter_results(results, d).len() ==> results.contains(
            #[trigger] spec_filter_results(results, d)[i],
        ),
    decreases results.len(),
{
    if results.len() > 0 {
        let prev = results.drop_last();
        lemma_filter_kept(prev, d);
        let f = spec_filter_results(results, d);
        let fp = spec_filter_results(prev, d);
        assert forall|j: int| 0 <= j < results.len() && spec_keep(d, #[trigger] results[j])
            implies f.contains(results[j]) by {
            if j < prev.len() {
                assert(prev[j] == results[j]);
                let k = choose|k: int| 0 <= k < fp.len() && fp[k] == prev[j];
                if spec_keep(d, results.last()) {
                    assert(f[k] == fp[k]);
                } else {
                    assert(f[k] == fp[k]);
                }
            } else {
                assert(f[f.len() - 1] == results.last());
            }
        }
        assert forall|i: int| 0 <= i < f.len() implies results.contains(#[trigger] f[i]) by {
            if i < fp.len() {
                assert(f[i] == fp[i]);
                let k = choose|k: int| 0 <= k < prev.len() && prev[k] == fp[i];
                assert(results[k] == prev[k]);
            } else {
                assert(f[i] == results[results.len() - 1]);
            }
        }
    }
}

/// When imports are checked, a module that does not import structlog has
/// no findings.
pub proof fn law_unimported_module_has_no_findings(stmts: Seq<Statement>, config: Config, source: Seq<char>)
    requires
        config.check_imports,
        !spec_has_structlog_import(stmts),
    ensures
        spec_analyze(stmts, config, source).len() == 0,
{
}

/// Otherwise there is one finding per log call that the walker collects
/// from the module, in the same order.
pub proof fn law_one_finding_per_log_call(stmts: Seq<Statement>, config: Config, source: Seq<char>)
    requires
        !config.check_imports || spec_has_structlog_import(stmts),
    ensures
        spec_analyze(stmts, config, source).len() == spec_collect_suite(stmts, ParentContext::Module, false).len(),
        forall|i: int| 0 <= i < spec_analyze(stmts, config, source).len() ==> (#[trigger] spec_analyze(
            stmts,
            config,
            source,
        )[i]).log_call == spec_collect_suite(stmts, ParentContext::Module, false)[i],
{
}

/// A finding whose line holds no `# noqa` comment reports every result
/// of the rules that run on its call.
pub proof fn law_no_directive_reports_every_result(
    stmts: Seq<Statement>,
    config: Config,
    source: Seq<char>,
    i: int,
)
    requires
        0 <= i < spec_analyze(stmts, config, source).len(),
        spec_noqa_for_line(source, spec_call_line(source, spec_analyze(stmts, config, source)[i].log_call)) is None,
    ensures
        spec_analyze(stmts, config, source)[i].results == spec_check_all(
            spec_analyze(stmts, config, source)[i].log_call,
            config,
        ),
{
    let f = spec_analyze(stmts, config, source)[i];
    lemma_filter_without_directive(spec_check_all(f.log_call, config));
}

/// On a line with a `# noqa` comment, a finding reports exactly the
/// results of its rules that pass or that the comment does not name: a
/// bare `# noqa` leaves only passing results.
pub proof fn law_directive_suppresses_named_rules(
    stmts: Seq<Statement>,
    config: Config,
    source: Seq<char>,
    i: int,
    d: Suppression,
)
    requires
        0 <= i < spec_analyze(stmts, config, source).len(),
        spec_noqa_for_line(source, spec_call_line(source, spec_analyze(stmts, config, source)[i].log_call))
            == Some(d),
    ensures
        forall|j: int| 0 <= j < spec_analyze(stmts, config, source)[i].results.len() ==> {
            let r = #[trigger] spec_analyze(stmts, config, source)[i].results[j];
            &&& r.status == Status::Pass || !spec_suppresses(d, r.rule_id)
            &&& spec_check_all(spec_analyze(stmts, config, source)[i].log_call, config).contains(r)
        },
        forall|j: int| 0 <= j < spec_check_all(spec_analyze(stmts, config, source)[i].log_call, config).len()
            ==> {
            let r = #[trigger] spec_check_all(spec_analyze(stmts, config, source)[i].log_call, config)[j];
            r.status == Status::Pass || !spec_suppresses(d, r.rule_id) ==> spec_analyze(
                stmts,
                config,
                source,
            )[i].results.contains(r)
        },
{
    let f = spec_analyze(stmts, config, source)[i];
    lemma_filter_kept(spec_check_all(f.log_call, config), Some(d));
}

fn imports_structlog(stmt: &Statement) -> (r: bool)
    ensures
        r == spec_imports_structlog(*stmt),
{
    match stmt {
        Statement::Import { names } => {
            let n = names.len();
            let mut i: usize = 0;
            while i < n
                invariant
                    n == names@.len(),
                    i <= n,
                    *stmt is Import,
                    stmt->names == *names,
                    forall|j: int| 0 <= j < i ==> #[trigger] names@[j]@ != "structlog"@,
                decreases n - i,
            {
                if str_eq(names[i].as_str(), "structlog") {
                    return true;
                }
                i = i + 1;
            }
            false
        },
        Statement::ImportFrom { module } => match module {
            Some(m) => str_eq(m.as_str(), "structlog") || str_starts_with(m.as_str(), "structlog."),
            None => false,
        },
        _ => false,
    }
}

/// Whether some top-level statement imports structlog.
pub fn has_structlog_import(stmts: &[Statement]) -> (r: bool)
    ensures
        r == spec_has_structlog_import(stmts@),
{
    let n = stmts.len();
    let mut i: usize = 0;
    while i < n
        invariant
            n == stmts@.len(),
            i <= n,
            forall|j: int| 0 <= j < i ==> !spec_imports_structlog(#[trigger] stmts@[j]),
        decreases n - i,
    {
        if imports_structlog(&stmts[i]) {
            return true;
        }
        i = i + 1;
    }
    false
}

} // verus!

verus! {

/// The view of an optional directive.
pub open spec fn directive_view(d: Option<&NoqaDirective>) -> Option<Suppression> {
    match d {
        Some(d) => Some(d@),
        None => None,
    }
}

fn filter_results(results: Vec<RuleResult>, directive: Option<&NoqaDirective>) -> (r: Vec<RuleResult>)
    ensures
        result_views(r@) == spec_filter_results(result_views(results@), directive_view(directive)),
{
    let ghost all = result_views(results@);
    let mut rest = results;
    let mut kept: Vec<RuleResult> = Vec::new();
    let ghost mut done: Seq<RuleResultView> = seq![];
    assert(all =~= done + result_views(rest@));
    while rest.len() > 0
        invariant
            all == done + result_views(rest@),
            result_views(kept@) == spec_filter_results(done, directive_view(directive)),
        decreases rest.len(),
    {
        let ghost before = rest@;
        let r = rest.remove(0);
        assert(result_views(before) =~= seq![r@] + result_views(rest@));
        let keep = match directive {
            None => true,
            Some(d) => r.status == Status::Pass || !d.suppresses(r.rule_id),
        };
        proof {
            assert(done.push(r@).drop_last() =~= done);
            assert(all =~= done.push(r@) + result_views(rest@));
        }
        if keep {
            let ghost old_kept = kept@;
            kept.push(r);
            assert(result_views(kept@) =~= result_views(old_kept).push(r@));
        }
        proof {
            done = done.push(r@);
        }
    }
    assert(done =~= all);
    kept
}

/// Analyzes a module: one finding per log call, in source order, with
/// the results of the rules that run on it, less the non-passing results
/// that a `# noqa` comment on the line where the call starts suppresses.
/// When imports are checked and the module does not import structlog,
/// there are no findings.
pub fn analyze<'a>(stmts: &'a Vec<Statement>, config: &Config, source: &str) -> (r: Vec<Finding<'a>>)
    requires
        source@.len() < usize::MAX,
    ensures
        finding_views(r@) == spec_analyze(stmts@, *config, source@),
{
    broadcast use vstd::std_specs::hash::group_hash_axioms;

    if config.check_imports && !has_structlog_import(stmts.as_slice()) {
        assert(finding_views(Seq::<Finding<'a>>::empty()) =~= Seq::<FindingView>::empty());
        return Vec::new();
    }
    let noqa_map = parse_noqa_comments(source);
    let line_index = LineIndex::new(source);
    let mut calls: Vec<LogCall<'a>> = Vec::new();
    collect_suite_into(stmts, ParentContext::Module, false, &mut calls);
    assert(log_call_views(Seq::<LogCall<'a>>::empty()) =~= Seq::<LogCallView>::empty());
    assert(log_call_views(calls@) =~= spec_collect_suite(stmts@, ParentContext::Module, false));
    let ghost lcs = log_call_views(calls@);
    let n = calls.len();
    let mut findings: Vec<Finding<'a>> = Vec::new();
    let mut i: usize = 0;
    while i < n
        invariant
            n == calls@.len(),
            lcs == log_call_views(calls@),
            lcs.len() == n,
            i <= n,
            line_index.text() == encode_utf8(source@),
            forall|k: usize| #[trigger] noqa_map@.contains_key(k) <==> spec_noqa_map_has(source@, k as int),
            forall|k: usize| #[trigger] noqa_map@.contains_key(k) ==> spec_parse_line(spec_lines(source@)[k - 1])
                == Some(noqa_map@[k]@),
            finding_views(findings@) == lcs.take(i as int).map_values(
                |lc: LogCallView| spec_finding(lc, *config, source@),
            ),
        decreases n - i,
    {
        let lc = calls[i];
        let results = check_all(&lc, config);
        let (line, _column) = line_index.line_col(lc.call.range.start);
        let directive = noqa_map.get(&line);
        proof {
            assert(lcs[i as int] == lc@);
            if spec_noqa_map_has(source@, line as int) {
                assert(noqa_map@.contains_key(line));
            }
        }
        assert(directive_view(directive) == spec_noqa_for_line(source@, spec_call_line(source@, lc@)));
        let kept = filter_results(results, directive);
        let ghost old_findings = findings@;
        let f = Finding::new(lc, kept);
        findings.push(f);
        proof {
            assert(finding_views(findings@) =~= finding_views(old_findings).push(f@));
            assert(lcs.take(i + 1) =~= lcs.take(i as int).push(lcs[i as int]));
            assert(lcs.take(i + 1).map_values(|lc: LogCallView| spec_finding(lc, *config, source@))
                =~= lcs.take(i as int).map_values(|lc: LogCallView| spec_finding(lc, *config, source@)).push(
                spec_finding(lcs[i as int], *config, source@)));
        }
        i = i + 1;
    }
    assert(lcs.take(n as int) =~= lcs);
    findings
}

} // verus!
