//! Locating positions in source text, and rendering findings.

use vstd::prelude::*;
use vstd::string::{StrSliceExecFns, StringExecFns};
use vstd::utf8::encode_utf8;

use crate::analyzer::{finding_views, FindingView};
use crate::models::{result_views, Finding, RuleResult, RuleResultView, Status};
use crate::text::{decimal, push_char, source_lines, spec_decimal, spec_lines};

verus! {

/// The number of newline bytes in `b`.
pub open spec fn count_newlines(b: Seq<u8>) -> nat
    decreases b.len(),
{
    if b.len() == 0 {
        0
    } else {
        count_newlines(b.drop_last()) + if b.last() == 10u8 { 1nat } else { 0nat }
    }
}

/// The position `offset` clamped to the length of `b`.
pub open spec fn clamp(b: Seq<u8>, offset: int) -> int {
    if offset <= b.len() { offset } else { b.len() as int }
}

/// The 1-based line that byte `offset` of `b` lies on: one more than the
/// newlines before it.
pub open spec fn spec_line_of(b: Seq<u8>, offset: int) -> nat {
    1 + count_newlines(b.take(clamp(b, offset)))
}

/// The byte position at which the line holding byte position `p` starts.
pub open spec fn spec_line_start(b: Seq<u8>, p: int) -> int
    decreases p,
{
    if p <= 0 {
        0
    } else if b[p - 1] == 10u8 {
        p
    } else {
        spec_line_start(b, p - 1)
    }
}

/// The 1-based byte column of byte `offset` of `b` within its line.
pub open spec fn spec_column_of(b: Seq<u8>, offset: int) -> int {
    clamp(b, offset) - spec_line_start(b, clamp(b, offset)) + 1
}

/// Line and column lookup for byte offsets into a source text.
pub struct LineIndex {
    newlines_before: Vec<usize>,
    line_starts: Vec<usize>,
    bytes: Ghost<Seq<u8>>,
}

impl LineIndex {
    #[verifier::type_invariant]
    spec fn inv(self) -> bool {
        &&& self.newlines_before@.len() == self.bytes@.len() + 1
        &&& self.line_starts@.len() == self.bytes@.len() + 1
        &&& forall|i: int| 0 <= i <= self.bytes@.len() ==> #[trigger] self.newlines_before@[i]
            == count_newlines(self.bytes@.take(i)) && self.newlines_before@[i] <= i
        &&& forall|i: int| 0 <= i <= self.bytes@.len() ==> #[trigger] self.line_starts@[i]
            == spec_line_start(self.bytes@, i)
    }

    /// The bytes of the text this index was built for.
    pub closed spec fn text(self) -> Seq<u8> {
        self.bytes@
    }

    /// Indexes the lines of `source`.
    pub fn new(source: &str) -> (r: Self)
        ensures
            r.text() == encode_utf8(source@),
    {
        let b = source.as_bytes();
        let n = b.len();
        let mut newlines_before: Vec<usize> = Vec::new();
        let mut line_starts: Vec<usize> = Vec::new();
        let mut count: usize = 0;
        let mut start: usize = 0;
        let mut i: usize = 0;
        while i < n
            invariant
                n == b@.len(),
                i <= n,
                newlines_before@.len() == i,
                line_starts@.len() == i,
                count == count_newlines(b@.take(i as int)),
                count <= i,
                start == spec_line_start(b@, i as int),
                forall|j: int| 0 <= j < i ==> #[trigger] newlines_before@[j] == count_newlines(
                    b@.take(j),
                ) && newlines_before@[j] <= j,
                forall|j: int| 0 <= j < i ==> #[trigger] line_starts@[j] == spec_line_start(b@, j),
            decreases n - i,
        {
            newlines_before.push(count);
            line_starts.push(start);
            assert(b@.take(i + 1).drop_last() =~= b@.take(i as int));
            if b[i] == 10u8 {
                count = count + 1;
                start = i + 1;
            }
            i = i + 1;
        }
        newlines_before.push(count);
        line_starts.push(start);
        assert(b@.take(n as int) =~= b@);
        LineIndex { newlines_before, line_starts, bytes: Ghost(b@) }
    }

    /// The 1-based line and 1-based byte column of byte `offset`; an
    /// offset past the end is taken as the end.
    pub fn line_col(&self, offset: usize) -> (r: (usize, usize))
        ensures
            r.0 == spec_line_of(self.text(), offset as int),
            r.1 == spec_column_of(self.text(), offset as int),
    {
        proof {
            use_type_invariant(self);
        }
        let n = self.newlines_before.len() - 1;
        let p = if offset <= n { offset } else { n };
        let count = self.newlines_before[p];
        let start = self.line_starts[p];
        proof {
            lemma_line_start_le(self.bytes@, p as int);
        }
        (count + 1, p - start + 1)
    }
}

proof fn lemma_line_start_le(b: Seq<u8>, p: int)
    requires
        0 <= p,
    ensures
        0 <= spec_line_start(b, p) <= p,
    decreases p,
{
    if p > 0 && b[p - 1] != 10u8 {
        lemma_line_start_le(b, p - 1);
    }
}

} // verus!

verus! {

/// How diagnostics are laid out: `Full` shows the source line under each
/// diagnostic, `Concise` gives one line per diagnostic.
#[derive(Debug, Clone, Copy, PartialEq, Eq, Structural)]
pub enum OutputFormat {
    Full,
    Concise,
}

/// The word a diagnostic of each status is reported under.
pub open spec fn spec_severity_word(s: Status) -> Seq<char> {
    match s {
        Status::Fail => "error"@,
        Status::Warning => "warning"@,
        Status::Pass => "ok"@,
    }
}

/// `n` spaces.
pub open spec fn spaces(n: nat) -> Seq<char> {
    Seq::new(n, |i: int| ' ')
}

/// The first line of a diagnostic:
/// `path:line:column: severity[RULE] feedback`.
pub open spec fn spec_headline(path: Seq<char>, line: nat, col: nat, r: RuleResultView) -> Seq<char> {
    path + ":"@ + spec_decimal(line) + ":"@ + spec_decimal(col) + ": "@ + spec_severity_word(r.status)
        + "["@ + r.rule_id + "] "@ + r.feedback + "\n"@
}

/// The source line of a diagnostic, between gutter lines, then a blank line.
pub open spec fn spec_snippet(line: nat, text: Seq<char>) -> Seq<char> {
    let gutter = spaces(spec_decimal(line).len());
    gutter + " |\n"@ + spec_decimal(line) + " | "@ + text + "\n"@ + gutter + " |\n\n"@
}

/// The text of one diagnostic.
pub open spec fn spec_diagnostic(
    format: OutputFormat,
    path: Seq<char>,
    line: nat,
    col: nat,
    text: Seq<char>,
    r: RuleResultView,
) -> Seq<char> {
    match format {
        OutputFormat::Concise => spec_headline(path, line, col, r),
        OutputFormat::Full => spec_headline(path, line, col, r) + spec_snippet(line, text),
    }
}

/// The diagnostics of the results of one call, in order; passing
/// results give none.
pub open spec fn spec_result_diagnostics(
    format: OutputFormat,
    path: Seq<char>,
    line: nat,
    col: nat,
    text: Seq<char>,
    results: Seq<RuleResultView>,
) -> Seq<char>
    decreases results.len(),
{
    if results.len() == 0 {
        seq![]
    } else {
        let prev = spec_result_diagnostics(format, path, line, col, text, results.drop_last());
        if results.last().status == Status::Pass {
            prev
        } else {
            prev + spec_diagnostic(format, path, line, col, text, results.last())
        }
    }
}

/// The 1-based line on which a finding's call starts.
pub open spec fn spec_finding_line(source: Seq<char>, f: FindingView) -> nat {
    spec_line_of(encode_utf8(source), f.log_call.call.range.start as int)
}

/// The 1-based byte column at which a finding's call starts.
pub open spec fn spec_finding_column(source: Seq<char>, f: FindingView) -> nat {
    spec_column_of(encode_utf8(source), f.log_call.call.range.start as int) as nat
}

/// The text of 1-based line `line` of `source`, or nothing past the end.
pub open spec fn spec_line_text(source: Seq<char>, line: nat) -> Seq<char> {
    if 1 <= line <= spec_lines(source).len() {
        spec_lines(source)[line - 1]
    } else {
        seq![]
    }
}

/// The diagnostics of a file's findings, in order.
pub open spec fn spec_render_diagnostics(
    findings: Seq<FindingView>,
    path: Seq<char>,
    source: Seq<char>,
    format: OutputFormat,
) -> Seq<char>
    decreases findings.len(),
{
    if findings.len() == 0 {
        seq![]
    } else {
        let f = findings.last();
        let line = spec_finding_line(source, f);
        spec_render_diagnostics(findings.drop_last(), path, source, format) + spec_result_diagnostics(
            format,
            path,
            line,
            spec_finding_column(source, f),
            spec_line_text(source, line),
            f.results,
        )
    }
}

/// The number of results with status `s`.
pub open spec fn spec_status_count(results: Seq<RuleResultView>, s: Status) -> nat
    decreases results.len(),
{
    if results.len() == 0 {
        0
    } else {
        spec_status_count(results.drop_last(), s) + if results.last().status == s { 1nat } else { 0nat }
    }
}

/// The number of results with status `s` over a file's findings.
pub open spec fn spec_findings_status_count(findings: Seq<FindingView>, s: Status) -> nat
    decreases findings.len(),
{
    if findings.len() == 0 {
        0
    } else {
        spec_findings_status_count(findings.drop_last(), s) + spec_status_count(findings.last().results, s)
    }
}

/// `n`, or `usize::MAX` when it is larger: a count that saturates.
pub open spec fn capped(n: nat) -> usize {
    if n > usize::MAX { usize::MAX } else { n as usize }
}

fn severity_word(s: Status) -> (r: &'static str)
    ensures
        r@ == spec_severity_word(s),
{
    match s {
        Status::Fail => "error",
        Status::Warning => "warning",
        Status::Pass => "ok",
    }
}

fn spaces_string(n: usize) -> (r: String)
    ensures
        r@ == spaces(n as nat),
{
    let mut r = String::new();
    let mut i: usize = 0;
    while i < n
        invariant
            i <= n,
            r@ == spaces(i as nat),
        decreases n - i,
    {
        push_char(&mut r, ' ');
        assert(r@ =~= spaces((i + 1) as nat));
        i = i + 1;
    }
    r
}

fn render_result(
    out: &mut String,
    format: OutputFormat,
    path: &str,
    line: usize,
    col: usize,
    text: &str,
    r: &RuleResult,
)
    ensures
        final(out)@ == old(out)@ + spec_diagnostic(format, path@, line as nat, col as nat, text@, r@),
{
    let ghost start = out@;
    let line_str = decimal(line);
    let col_str = decimal(col);
    out.append(path);
    out.append(":");
    out.append(line_str.as_str());
    out.append(":");
    out.append(col_str.as_str());
    out.append(": ");
    out.append(severity_word(r.status));
    out.append("[");
    out.append(r.rule_id);
    out.append("] ");
    out.append(r.feedback.as_str());
    out.append("\n");
    assert(out@ =~= start + spec_headline(path@, line as nat, col as nat, r@));
    match format {
        OutputFormat::Concise => {},
        OutputFormat::Full => {
            let ghost head = out@;
            let gutter = spaces_string(line_str.as_str().unicode_len());
            out.append(gutter.as_str());
            out.append(" |\n");
            out.append(line_str.as_str());
            out.append(" | ");
            out.append(text);
            out.append("\n");
            out.append(gutter.as_str());
            out.append(" |\n\n");
            assert(out@ =~= head + spec_snippet(line as nat, text@));
        },
    }
}

/// Renders the diagnostics of a file's findings in `format`: for each
/// result that does not pass, in order, its location, severity, rule and
/// feedback, and in the full format the source line it is on. Also
/// counts the failing results (errors) and the warnings, saturating at
/// `usize::MAX`.
pub fn render_diagnostics(findings: &[Finding], file_path: &str, source: &str, format: OutputFormat) -> (r: (
    String,
    usize,
    usize,
))
    requires
        source@.len() < usize::MAX,
    ensures
        r.0@ == spec_render_diagnostics(finding_views(findings@), file_path@, source@, format),
        r.1 == capped(spec_findings_status_count(finding_views(findings@), Status::Fail)),
        r.2 == capped(spec_findings_status_count(finding_views(findings@), Status::Warning)),
{
    let ghost fv = finding_views(findings@);
    let index = LineIndex::new(source);
    let lines = source_lines(source);
    let mut out = String::new();
    let mut errors: usize = 0;
    let mut warnings: usize = 0;
    let n = findings.len();
    let mut i: usize = 0;
    while i < n
        invariant
            n == findings@.len(),
            fv == finding_views(findings@),
            i <= n,
            index.text() == encode_utf8(source@),
            lines@.len() == spec_lines(source@).len(),
            forall|k: int| 0 <= k < lines@.len() ==> #[trigger] lines@[k]@ == spec_lines(source@)[k],
            out@ == spec_render_diagnostics(fv.take(i as int), file_path@, source@, format),
            errors == capped(spec_findings_status_count(fv.take(i as int), Status::Fail)),
            warnings == capped(spec_findings_status_count(fv.take(i as int), Status::Warning)),
        decreases n - i,
    {
        let f = &findings[i];
        let ghost fview = fv[i as int];
        assert(fview == f@);
        let (line, col) = index.line_col(f.log_call.call.range.start);
        let text: &str = if line >= 1 && line - 1 < lines.len() {
            assert(lines@[line - 1]@ == spec_lines(source@)[line - 1]);
            lines[line - 1].as_str()
        } else {
            proof {
                reveal_strlit("");
            }
            ""
        };
        assert(text@ == spec_line_text(source@, line as nat));
        let ghost rv = result_views(f.results@);
        let ghost out0 = out@;
        let ghost e0 = spec_findings_status_count(fv.take(i as int), Status::Fail);
        let ghost w0 = spec_findings_status_count(fv.take(i as int), Status::Warning);
        let m = f.results.len();
        let mut j: usize = 0;
        while j < m
            invariant
                m == f.results@.len(),
                rv == result_views(f.results@),
                j <= m,
                out@ == out0 + spec_result_diagnostics(format, file_path@, line as nat, col as nat, text@, rv.take(j as int)),
                errors == capped(e0 + spec_status_count(rv.take(j as int), Status::Fail)),
                warnings == capped(w0 + spec_status_count(rv.take(j as int), Status::Warning)),
            decreases m - j,
        {
            let r = &f.results[j];
            assert(rv.take(j + 1).drop_last() =~= rv.take(j as int));
            assert(rv[j as int] == r@);
            match r.status {
                Status::Pass => {},
                Status::Warning => {
                    render_result(&mut out, format, file_path, line, col, text, r);
                    warnings = warnings.saturating_add(1);
                },
                Status::Fail => {
                    render_result(&mut out, format, file_path, line, col, text, r);
                    errors = errors.saturating_add(1);
                },
            }
            j = j + 1;
        }
        proof {
            assert(rv.take(m as int) =~= rv);
            assert(fv.take(i + 1).drop_last() =~= fv.take(i as int));
            assert(fv.take(i + 1).last() == fview);
        }
        i = i + 1;
    }
    assert(fv.take(n as int) =~= fv);
    (out, errors, warnings)
}

proof fn lemma_result_diagnostics_empty(
    format: OutputFormat,
    path: Seq<char>,
    line: nat,
    col: nat,
    text: Seq<char>,
    results: Seq<RuleResultView>,
)
    ensures
        spec_result_diagnostics(format, path, line, col, text, results).len() == 0 <==> (
        spec_status_count(results, Status::Fail) == 0 && spec_status_count(results, Status::Warning)
            == 0),
    decreases results.len(),
{
    if results.len() > 0 {
        lemma_result_diagnostics_empty(format, path, line, col, text, results.drop_last());
        let r = results.last();
        if r.status != Status::Pass {
            let d = spec_diagnostic(format, path, line, col, text, r);
            let h = spec_headline(path, line, col, r);
            assert(h.len() > 0);
            assert(d.len() >= h.len());
        }
    }
}

/// A file's diagnostics are empty exactly when none of its results is an
/// error or a warning: clean code prints nothing.
pub proof fn law_no_output_iff_no_violations(
    findings: Seq<FindingView>,
    path: Seq<char>,
    source: Seq<char>,
    format: OutputFormat,
)
    ensures
        spec_render_diagnostics(findings, path, source, format).len() == 0 <==> (
        spec_findings_status_count(findings, Status::Fail) == 0 && spec_findings_status_count(
            findings,
            Status::Warning,
        ) == 0),
    decreases findings.len(),
{
    if findings.len() > 0 {
        law_no_output_iff_no_violations(findings.drop_last(), path, source, format);
        let f = findings.last();
        let line = spec_finding_line(source, f);
        lemma_result_diagnostics_empty(
            format,
            path,
            line,
            spec_finding_column(source, f),
            spec_line_text(source, line),
            f.results,
        );
    }
}

/// The icon a result is shown with.
pub open spec fn spec_status_icon(s: Status) -> Seq<char> {
    match s {
        Status::Pass => "OK"@,
        Status::Warning => "WARN"@,
        Status::Fail => "FAIL"@,
    }
}

/// The text of a finding: for each result, in order, its icon, rule and
/// feedback.
pub open spec fn spec_finding_text(results: Seq<RuleResultView>) -> Seq<char>
    decreases results.len(),
{
    if results.len() == 0 {
        seq![]
    } else {
        let r = results.last();
        spec_finding_text(results.drop_last()) + spec_status_icon(r.status) + " "@ + r.rule_id + "  "@
            + r.feedback
    }
}

fn status_icon(s: Status) -> (r: &'static str)
    ensures
        r@ == spec_status_icon(s),
{
    match s {
        Status::Pass => "OK",
        Status::Warning => "WARN",
        Status::Fail => "FAIL",
    }
}

impl<'a> Finding<'a> {
    /// The finding as text: for each result, in order, `ICON RULE  feedback`
    /// with the icon `OK`, `WARN` or `FAIL`.
    pub fn to_string(&self) -> (r: String)
        ensures
            r@ == spec_finding_text(result_views(self.results@)),
    {
        let ghost rv = result_views(self.results@);
        let mut out = String::new();
        let n = self.results.len();
        let mut i: usize = 0;
        while i < n
            invariant
                n == self.results@.len(),
                rv == result_views(self.results@),
                i <= n,
                out@ == spec_finding_text(rv.take(i as int)),
            decreases n - i,
        {
            let r = &self.results[i];
            let ghost before = out@;
            out.append(status_icon(r.status));
            out.append(" ");
            out.append(r.rule_id);
            out.append("  ");
            out.append(r.feedback.as_str());
            proof {
                assert(rv.take(i + 1).drop_last() =~= rv.take(i as int));
                assert(rv[i as int] == r@);
                assert(out@ =~= spec_finding_text(rv.take(i + 1)));
            }
            i = i + 1;
        }
        assert(rv.take(n as int) =~= rv);
        out
    }
}

/// The closing summary line.
pub open spec fn spec_summary(errors: nat, warnings: nat, statements: nat) -> Seq<char> {
    if errors == 0 && warnings == 0 {
        "All checks passed ("@ + spec_decimal(statements) + " log statements checked).\n"@
    } else {
        "Found "@ + spec_decimal(errors) + " errors and "@ + spec_decimal(warnings) + " warnings in "@
            + spec_decimal(statements) + " log statements.\n"@
    }
}

/// Renders the closing summary: the totals of errors and warnings, and
/// how many log statements were checked.
pub fn render_summary(errors: usize, warnings: usize, statements: usize) -> (r: String)
    ensures
        r@ == spec_summary(errors as nat, warnings as nat, statements as nat),
{
    let mut out = String::new();
    if errors == 0 && warnings == 0 {
        out.append("All checks passed (");
        out.append(decimal(statements).as_str());
        out.append(" log statements checked).\n");
    } else {
        out.append("Found ");
        out.append(decimal(errors).as_str());
        out.append(" errors and ");
        out.append(decimal(warnings).as_str());
        out.append(" warnings in ");
        out.append(decimal(statements).as_str());
        out.append(" log statements.\n");
    }
    out
}

} // verus!
