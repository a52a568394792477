//! The values that the rules produce and the levels, statuses and
//! severities they are stated over.

use vstd::prelude::*;

use crate::ast::CallExpr;
use crate::text::str_eq;

verus! {

/// The outcome of one rule on one log call.
#[derive(Debug, Clone, Copy, PartialEq, Eq, Structural)]
pub enum Status {
    Pass,
    Warning,
    Fail,
}

/// A configured severity for a rule.
#[derive(Debug, Clone, Copy, PartialEq, Eq, Structural)]
pub enum RuleSeverity {
    Error,
    Warning,
    Off,
}

impl RuleSeverity {
    /// The configuration spelling of each severity.
    pub open spec fn spec_parse(s: Seq<char>) -> Option<RuleSeverity> {
        if s == "error"@ {
            Some(RuleSeverity::Error)
        } else if s == "warning"@ {
            Some(RuleSeverity::Warning)
        } else if s == "off"@ {
            Some(RuleSeverity::Off)
        } else {
            None
        }
    }

    /// Reads a severity from its configuration spelling.
    pub fn parse(s: &str) -> (r: Option<RuleSeverity>)
        ensures
            r == RuleSeverity::spec_parse(s@),
    {
        if str_eq(s, "error") {
            Some(RuleSeverity::Error)
        } else if str_eq(s, "warning") {
            Some(RuleSeverity::Warning)
        } else if str_eq(s, "off") {
            Some(RuleSeverity::Off)
        } else {
            None
        }
    }
}

} // verus!

verus! {

/// The level of a log call, from `trace` (lowest) to `exception` (highest).
#[derive(Debug, Clone, Copy, PartialEq, Eq, Structural, PartialOrd, Ord)]
pub enum LogLevel {
    Trace,
    Debug,
    Info,
    Warning,
    Error,
    Critical,
    Exception,
}

impl LogLevel {
    /// The position of a level in the order `trace < debug < ... < exception`.
    pub open spec fn spec_rank(self) -> nat {
        match self {
            LogLevel::Trace => 0,
            LogLevel::Debug => 1,
            LogLevel::Info => 2,
            LogLevel::Warning => 3,
            LogLevel::Error => 4,
            LogLevel::Critical => 5,
            LogLevel::Exception => 6,
        }
    }

    /// The position of a level in the order `trace < debug < ... < exception`.
    pub fn rank(&self) -> (r: u8)
        ensures
            r == self.spec_rank(),
    {
        match self {
            LogLevel::Trace => 0,
            LogLevel::Debug => 1,
            LogLevel::Info => 2,
            LogLevel::Warning => 3,
            LogLevel::Error => 4,
            LogLevel::Critical => 5,
            LogLevel::Exception => 6,
        }
    }

    /// The name of a level, which is also the logger method that logs at it.
    pub open spec fn spec_name(self) -> Seq<char> {
        match self {
            LogLevel::Trace => "trace"@,
            LogLevel::Debug => "debug"@,
            LogLevel::Info => "info"@,
            LogLevel::Warning => "warning"@,
            LogLevel::Error => "error"@,
            LogLevel::Critical => "critical"@,
            LogLevel::Exception => "exception"@,
        }
    }

    /// The name of a level, which is also the logger method that logs at it.
    pub fn as_str(&self) -> (r: &'static str)
        ensures
            r@ == self.spec_name(),
    {
        match self {
            LogLevel::Trace => "trace",
            LogLevel::Debug => "debug",
            LogLevel::Info => "info",
            LogLevel::Warning => "warning",
            LogLevel::Error => "error",
            LogLevel::Critical => "critical",
            LogLevel::Exception => "exception",
        }
    }

    /// The level whose name is `s`, if any.
    pub open spec fn spec_parse(s: Seq<char>) -> Option<LogLevel> {
        if s == "trace"@ {
            Some(LogLevel::Trace)
        } else if s == "debug"@ {
            Some(LogLevel::Debug)
        } else if s == "info"@ {
            Some(LogLevel::Info)
        } else if s == "warning"@ {
            Some(LogLevel::Warning)
        } else if s == "error"@ {
            Some(LogLevel::Error)
        } else if s == "critical"@ {
            Some(LogLevel::Critical)
        } else if s == "exception"@ {
            Some(LogLevel::Exception)
        } else {
            None
        }
    }

    /// Reads a level from its name.
    pub fn parse(s: &str) -> (r: Option<LogLevel>)
        ensures
            r == LogLevel::spec_parse(s@),
    {
        if str_eq(s, "trace") {
            Some(LogLevel::Trace)
        } else if str_eq(s, "debug") {
            Some(LogLevel::Debug)
        } else if str_eq(s, "info") {
            Some(LogLevel::Info)
        } else if str_eq(s, "warning") {
            Some(LogLevel::Warning)
        } else if str_eq(s, "error") {
            Some(LogLevel::Error)
        } else if str_eq(s, "critical") {
            Some(LogLevel::Critical)
        } else if str_eq(s, "exception") {
            Some(LogLevel::Exception)
        } else {
            None
        }
    }
}

/// The kind of block that immediately encloses a log call.
#[derive(Debug, Clone, Copy, PartialEq, Eq, Structural)]
pub enum ParentContext {
    Module,
    If,
    Function,
    Class,
    For,
    While,
    Except,
    With,
}

/// A log call paired with its parent context and resolved log level.
#[derive(Clone, Copy)]
pub struct LogCall<'a> {
    pub call: &'a CallExpr,
    /// The kind of the innermost block around the call.
    pub context: ParentContext,
    pub level: LogLevel,
    /// Some block around the call is an `except` clause.
    pub inside_except: bool,
}

/// A log call as a value: the call, the block around it, its level and
/// whether it stands inside an `except` clause.
pub struct LogCallView {
    pub call: CallExpr,
    pub context: ParentContext,
    pub level: LogLevel,
    pub inside_except: bool,
}

impl<'a> View for LogCall<'a> {
    type V = LogCallView;

    open spec fn view(&self) -> LogCallView {
        LogCallView {
            call: *self.call,
            context: self.context,
            level: self.level,
            inside_except: self.inside_except,
        }
    }
}

impl<'a> LogCall<'a> {
    /// A log call in a block of kind `context`, counted as inside an
    /// `except` clause when that block is one.
    pub fn new(call: &'a CallExpr, context: ParentContext, level: LogLevel) -> (r: Self)
        ensures
            r.call == call,
            r.context == context,
            r.level == level,
            r.inside_except == (context == ParentContext::Except),
    {
        LogCall { call, context, level, inside_except: context == ParentContext::Except }
    }
}

/// The views of a sequence of log calls.
pub open spec fn log_call_views<'a>(calls: Seq<LogCall<'a>>) -> Seq<LogCallView> {
    calls.map_values(|c: LogCall<'a>| c@)
}

} // verus!

verus! {

/// A replacement of the source bytes `start..end` by `replacement`.
pub struct Fix {
    pub replacement: String,
    pub start: usize,
    pub end: usize,
}

/// A fix as a value.
pub struct FixView {
    pub replacement: Seq<char>,
    pub start: usize,
    pub end: usize,
}

impl View for Fix {
    type V = FixView;

    open spec fn view(&self) -> FixView {
        FixView { replacement: self.replacement@, start: self.start, end: self.end }
    }
}

/// The outcome of one rule on one log call.
pub struct RuleResult {
    pub rule_id: &'static str,
    pub status: Status,
    pub feedback: String,
    pub fix: Option<Fix>,
}

/// A rule result as a value.
pub struct RuleResultView {
    pub rule_id: Seq<char>,
    pub status: Status,
    pub feedback: Seq<char>,
    pub fix: Option<FixView>,
}

impl View for RuleResult {
    type V = RuleResultView;

    open spec fn view(&self) -> RuleResultView {
        RuleResultView {
            rule_id: self.rule_id@,
            status: self.status,
            feedback: self.feedback@,
            fix: match self.fix {
                Some(f) => Some(f@),
                None => None,
            },
        }
    }
}

/// A result with no fix.
pub open spec fn result_view(rule_id: Seq<char>, status: Status, feedback: Seq<char>) -> RuleResultView {
    RuleResultView { rule_id, status, feedback, fix: None }
}

impl RuleResult {
    pub fn new(rule_id: &'static str, status: Status, feedback: String) -> (r: Self)
        ensures
            r@ == result_view(rule_id@, status, feedback@),
            r.rule_id == rule_id,
    {
        RuleResult { rule_id, status, feedback, fix: None }
    }

    /// The same result, carrying `fix`.
    pub fn with_fix(self, fix: Fix) -> (r: Self)
        ensures
            r@ == (RuleResultView { fix: Some(fix@), ..self@ }),
            r.rule_id == self.rule_id,
    {
        let mut this = self;
        this.fix = Some(fix);
        this
    }
}

/// The views of a sequence of rule results.
pub open spec fn result_views(results: Seq<RuleResult>) -> Seq<RuleResultView> {
    results.map_values(|r: RuleResult| r@)
}

/// A log call with the results of the rules that ran on it.
pub struct Finding<'a> {
    pub log_call: LogCall<'a>,
    pub results: Vec<RuleResult>,
}

impl<'a> Finding<'a> {
    pub fn new(log_call: LogCall<'a>, results: Vec<RuleResult>) -> (r: Self)
        ensures
            r.log_call == log_call,
            r.results == results,
    {
        Finding { log_call, results }
    }

    /// The underlying call expression.
    pub fn statement(&self) -> (r: &CallExpr)
        ensures
            r == self.log_call.call,
    {
        self.log_call.call
    }
}

} // verus!
