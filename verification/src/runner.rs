//! Linting one file's source text into its report, and gathering the
//! reports of many files.

use vstd::prelude::*;
use vstd::string::{StrSliceExecFns, StringExecFns};
use vstd::utf8::encode_utf8;

use crate::analyzer::{analyze, spec_analyze, spec_has_structlog_import, FindingView};
use crate::ast::Statement;
use crate::config::Config;
use crate::display::{
    capped, render_diagnostics, spec_findings_status_count, spec_render_diagnostics, OutputFormat,
};
use crate::globs::{glob_set_matches, glob_set_patterns, set_matches};
use crate::models::Status;
use crate::text::str_eq;
use crate::python::{parse_suite, python_parse};

verus! {

/// The report on one file: its rendered diagnostics, the numbers of
/// errors and warnings among them, and the number of log statements
/// checked.
#[derive(Debug)]
pub struct FileResult {
    pub buf: Vec<u8>,
    pub errors: usize,
    pub warnings: usize,
    pub statements: usize,
}

/// The reports on the files that could be linted, and the path and
/// message of each file that could not.
pub struct LintResults {
    pub succeeded: Vec<FileResult>,
    pub failed: Vec<(String, String)>,
}

/// The report on a module with statements `stmts`, as a predicate.
pub open spec fn spec_file_report(
    r: FileResult,
    stmts: Seq<Statement>,
    source: Seq<char>,
    file_path: Seq<char>,
    config: Config,
    format: OutputFormat,
) -> bool {
    let findings = spec_analyze(stmts, config, source);
    &&& r.buf@ == encode_utf8(spec_render_diagnostics(findings, file_path, source, format))
    &&& r.errors == capped(spec_findings_status_count(findings, Status::Fail))
    &&& r.warnings == capped(spec_findings_status_count(findings, Status::Warning))
    &&& r.statements == findings.len()
}

/// When imports are checked, a module that does not import structlog
/// gets an empty report: no output, no errors or warnings, no statements.
pub proof fn law_unimported_file_reports_nothing(
    r: FileResult,
    stmts: Seq<Statement>,
    source: Seq<char>,
    file_path: Seq<char>,
    config: Config,
    format: OutputFormat,
)
    requires
        spec_file_report(r, stmts, source, file_path, config, format),
        config.check_imports,
        !spec_has_structlog_import(stmts),
    ensures
        r.buf@.len() == 0,
        r.errors == 0,
        r.warnings == 0,
        r.statements == 0,
{
    let findings = spec_analyze(stmts, config, source);
    assert(findings =~= Seq::<FindingView>::empty());
    assert(spec_render_diagnostics(findings, file_path, source, format) =~= Seq::<char>::empty());
    assert(encode_utf8(Seq::<char>::empty()) =~= Seq::<u8>::empty());
}

/// Lints a parsed module: analyzes its statements and renders the
/// diagnostics of the findings.
pub fn report_module(
    stmts: &Vec<Statement>,
    source: &str,
    file_path: &str,
    config: &Config,
    output_format: OutputFormat,
) -> (r: FileResult)
    requires
        source@.len() < usize::MAX,
    ensures
        spec_file_report(r, stmts@, source@, file_path@, *config, output_format),
{
    let findings = analyze(stmts, config, source);
    let (text, errors, warnings) = render_diagnostics(findings.as_slice(), file_path, source, output_format);
    let buf = text.as_str().as_bytes_vec();
    FileResult { buf, errors, warnings, statements: findings.len() }
}

/// Lints a file's source text: parses it as Python and reports on it. A
/// source that does not parse gives `failed to parse: ` and the parser's
/// message. The source's UTF-8 encoding must be shorter than `u32::MAX`
/// bytes, the parser's limit.
pub fn process_source(
    source: &str,
    file_path: &str,
    config: &Config,
    output_format: OutputFormat,
) -> (r: Result<FileResult, String>)
    requires
        source@.len() < usize::MAX,
        encode_utf8(source@).len() < u32::MAX,
    ensures
        match python_parse(source@, file_path@) {
            Ok(stmts) => r matches Ok(res) && spec_file_report(
                res,
                stmts,
                source@,
                file_path@,
                *config,
                output_format,
            ),
            Err(e) => r matches Err(m) && m@ == "failed to parse: "@ + e,
        },
{
    match parse_suite(source, file_path) {
        Ok(stmts) => Ok(report_module(&stmts, source, file_path, config, output_format)),
        Err(e) => {
            let mut m = "failed to parse: ".to_owned();
            m.append(e.as_str());
            Err(m)
        },
    }
}

/// The sum of the errors, of the warnings or of the statements of
/// `results`.
pub open spec fn spec_total_errors(results: Seq<FileResult>) -> nat
    decreases results.len(),
{
    if results.len() == 0 {
        0
    } else {
        spec_total_errors(results.drop_last()) + results.last().errors as nat
    }
}

/// The sum of the warnings of `results`.
pub open spec fn spec_total_warnings(results: Seq<FileResult>) -> nat
    decreases results.len(),
{
    if results.len() == 0 {
        0
    } else {
        spec_total_warnings(results.drop_last()) + results.last().warnings as nat
    }
}

/// The sum of the statements of `results`.
pub open spec fn spec_total_statements(results: Seq<FileResult>) -> nat
    decreases results.len(),
{
    if results.len() == 0 {
        0
    } else {
        spec_total_statements(results.drop_last()) + results.last().statements as nat
    }
}

/// The totals of errors, warnings and statements over the reports,
/// saturating at `usize::MAX`.
pub fn accumulate(results: &[FileResult]) -> (r: (usize, usize, usize))
    ensures
        r.0 == capped(spec_total_errors(results@)),
        r.1 == capped(spec_total_warnings(results@)),
        r.2 == capped(spec_total_statements(results@)),
{
    let mut errors: usize = 0;
    let mut warnings: usize = 0;
    let mut statements: usize = 0;
    let n = results.len();
    let mut i: usize = 0;
    while i < n
        invariant
            n == results@.len(),
            i <= n,
            errors == capped(spec_total_errors(results@.take(i as int))),
            warnings == capped(spec_total_warnings(results@.take(i as int))),
            statements == capped(spec_total_statements(results@.take(i as int))),
        decreases n - i,
    {
        assert(results@.take(i + 1).drop_last() =~= results@.take(i as int));
        errors = errors.saturating_add(results[i].errors);
        warnings = warnings.saturating_add(results[i].warnings);
        statements = statements.saturating_add(results[i].statements);
        i = i + 1;
    }
    assert(results@.take(n as int) =~= results@);
    (errors, warnings, statements)
}

/// A run fails when it found any error or warning.
pub fn has_violations(total_errors: usize, total_warnings: usize) -> (r: bool)
    ensures
        r == (total_errors > 0 || total_warnings > 0),
{
    total_errors > 0 || total_warnings > 0
}

/// Whether a directory entry is left out of the walk: the exclude set
/// matches its path relative to the start, or its file name.
pub fn entry_excluded(set: &globset::GlobSet, rel_path: &str, file_name: Option<&str>) -> (r: bool)
    ensures
        r == (glob_set_matches(glob_set_patterns(*set), rel_path@) || match file_name {
            Some(b) => glob_set_matches(glob_set_patterns(*set), b@),
            None => false,
        }),
{
    if set_matches(set, rel_path) {
        return true;
    }
    match file_name {
        Some(b) => set_matches(set, b),
        None => false,
    }
}

/// Whether a walked entry is linted: a file with extension `py`.
pub fn is_python_file(is_file: bool, extension: Option<&str>) -> (r: bool)
    ensures
        r == (is_file && match extension {
            Some(e) => e@ == "py"@,
            None => false,
        }),
{
    is_file && match extension {
        Some(e) => str_eq(e, "py"),
        None => false,
    }
}

impl LintResults {
    /// Sorts the outcomes of linting each file, in order, into the
    /// reports of the files that succeeded and the path and message of
    /// those that failed.
    pub fn from_outcomes(outcomes: Vec<(String, Result<FileResult, String>)>) -> (r: Self)
        ensures
            r.succeeded@.len() + r.failed@.len() == outcomes@.len(),
            r.succeeded@ == outcomes@.filter(|o: (String, Result<FileResult, String>)| o.1 is Ok).map_values(
                |o: (String, Result<FileResult, String>)| o.1->Ok_0,
            ),
            r.failed@ == outcomes@.filter(|o: (String, Result<FileResult, String>)| o.1 is Err).map_values(
                |o: (String, Result<FileResult, String>)| (o.0, o.1->Err_0),
            ),
    {
        let ghost all = outcomes@;
        let mut rest = outcomes;
        let mut succeeded: Vec<FileResult> = Vec::new();
        let mut failed: Vec<(String, String)> = Vec::new();
        let ghost mut done: Seq<(String, Result<FileResult, String>)> = seq![];
        assert(all =~= done + rest@);
        while rest.len() > 0
            invariant
                all == done + rest@,
                succeeded@ == done.filter(|o: (String, Result<FileResult, String>)| o.1 is Ok).map_values(
                    |o: (String, Result<FileResult, String>)| o.1->Ok_0,
                ),
                failed@ == done.filter(|o: (String, Result<FileResult, String>)| o.1 is Err).map_values(
                    |o: (String, Result<FileResult, String>)| (o.0, o.1->Err_0),
                ),
                succeeded@.len() + failed@.len() == done.len(),
            decreases rest.len(),
        {
            let ghost before = rest@;
            let o = rest.remove(0);
            proof {
                assert(before =~= seq![o] + rest@);
                assert(all =~= done.push(o) + rest@);
                assert(done.push(o).drop_last() =~= done);
            }
            let (path, outcome) = o;
            match outcome {
                Ok(res) => {
                    succeeded.push(res);
                },
                Err(msg) => {
                    failed.push((path, msg));
                },
            }
            proof {
                let ok = |x: (String, Result<FileResult, String>)| x.1 is Ok;
                let err = |x: (String, Result<FileResult, String>)| x.1 is Err;
                reveal(Seq::filter);
                assert(done.push(o).filter(ok) == if ok(o) { done.filter(ok).push(o) } else { done.filter(ok) });
                assert(done.push(o).filter(err) == if err(o) { done.filter(err).push(o) } else { done.filter(err) });
                done = done.push(o);
                assert(succeeded@ =~= done.filter(ok).map_values(
                    |o: (String, Result<FileResult, String>)| o.1->Ok_0,
                ));
                assert(failed@ =~= done.filter(err).map_values(
                    |o: (String, Result<FileResult, String>)| (o.0, o.1->Err_0),
                ));
            }
        }
        assert(done =~= all);
        LintResults { succeeded, failed }
    }
}

} // verus!
