//! The linter's configuration and the rules that read it.

use vstd::prelude::*;
use vstd::string::StringExecFns;

use crate::models::{LogLevel, RuleSeverity};
use crate::rules::case_style::CaseStyle;
use crate::globs::{add_glob, build_glob_set, empty_glob_set, glob_set_builds, glob_builder_patterns, glob_pattern_valid, glob_set_patterns, new_glob_set_builder};
use crate::noqa::string_views;
use crate::text::str_eq;

use globset::GlobSet;

verus! {

/// The map of a list of entries whose keys are pairwise distinct.
pub open spec fn entries_map(entries: Seq<(String, RuleSeverity)>) -> Map<Seq<char>, RuleSeverity>
    decreases entries.len(),
{
    if entries.len() == 0 {
        Map::empty()
    } else {
        entries_map(entries.drop_last()).insert(entries.last().0@, entries.last().1)
    }
}

/// The keys of a list of entries are pairwise distinct.
pub open spec fn keys_distinct(entries: Seq<(String, RuleSeverity)>) -> bool {
    forall|i: int, j: int|
        0 <= i < j < entries.len() ==> #[trigger] entries[i].0@ != #[trigger] entries[j].0@
}

proof fn lemma_entries_map(entries: Seq<(String, RuleSeverity)>)
    requires
        keys_distinct(entries),
    ensures
        entries_map(entries).dom().finite(),
        entries_map(entries).dom().len() == entries.len(),
        forall|i: int| 0 <= i < entries.len() ==> entries_map(entries).contains_key(#[trigger] entries[i].0@)
            && entries_map(entries)[entries[i].0@] == entries[i].1,
        forall|k: Seq<char>| entries_map(entries).contains_key(k) ==> exists|i: int|
            0 <= i < entries.len() && #[trigger] entries[i].0@ == k,
    decreases entries.len(),
{
    if entries.len() > 0 {
        let prefix = entries.drop_last();
        assert(keys_distinct(prefix));
        lemma_entries_map(prefix);
        let k = entries.last().0@;
        if entries_map(prefix).contains_key(k) {
            let i = choose|i: int| 0 <= i < prefix.len() && #[trigger] prefix[i].0@ == k;
            assert(entries[i].0@ == entries[entries.len() - 1].0@);
        }
        assert forall|i: int| 0 <= i < entries.len() implies entries_map(entries).contains_key(
            #[trigger] entries[i].0@,
        ) && entries_map(entries)[entries[i].0@] == entries[i].1 by {
            if i < entries.len() - 1 {
                assert(prefix[i] == entries[i]);
                assert(entries[i].0@ != entries[entries.len() - 1].0@);
            }
        }
        assert forall|k: Seq<char>| entries_map(entries).contains_key(k) implies exists|i: int|
            0 <= i < entries.len() && #[trigger] entries[i].0@ == k by {
            if k != entries.last().0@ {
                let i = choose|i: int| 0 <= i < prefix.len() && #[trigger] prefix[i].0@ == k;
                assert(entries[i] == prefix[i]);
            } else {
                assert(entries[entries.len() - 1].0@ == k);
            }
        }
    }
}

/// Per-rule severity overrides, keyed by rule id.
#[derive(Debug)]
pub struct RuleSeverities {
    entries: Vec<(String, RuleSeverity)>,
}

impl View for RuleSeverities {
    type V = Map<Seq<char>, RuleSeverity>;

    closed spec fn view(&self) -> Map<Seq<char>, RuleSeverity> {
        entries_map(self.entries@)
    }
}

impl RuleSeverities {
    #[verifier::type_invariant]
    spec fn inv(self) -> bool {
        keys_distinct(self.entries@)
    }

    /// No overrides.
    pub fn new() -> (r: Self)
        ensures
            r@ == Map::<Seq<char>, RuleSeverity>::empty(),
    {
        RuleSeverities { entries: Vec::new() }
    }

    fn find(&self, key: &str) -> (r: Option<usize>)
        ensures
            match r {
                Some(i) => i < self.entries@.len() && self.entries@[i as int].0@ == key@,
                None => forall|i: int| 0 <= i < self.entries@.len() ==> #[trigger] self.entries@[i].0@ != key@,
            },
    {
        let n = self.entries.len();
        let mut i: usize = 0;
        while i < n
            invariant
                n == self.entries@.len(),
                i <= n,
                forall|j: int| 0 <= j < i ==> #[trigger] self.entries@[j].0@ != key@,
            decreases n - i,
        {
            if str_eq(self.entries[i].0.as_str(), key) {
                return Some(i);
            }
            i = i + 1;
        }
        None
    }

    /// The severity configured for `key`, if any.
    pub fn get(&self, key: &str) -> (r: Option<&RuleSeverity>)
        ensures
            match r {
                Some(v) => self@.contains_key(key@) && *v == self@[key@],
                None => !self@.contains_key(key@),
            },
    {
        proof {
            use_type_invariant(self);
            lemma_entries_map(self.entries@);
        }
        match self.find(key) {
            Some(i) => Some(&self.entries[i].1),
            None => None,
        }
    }

    /// Sets the severity of `key`, returning the one it replaces.
    pub fn insert(&mut self, key: String, value: RuleSeverity) -> (r: Option<RuleSeverity>)
        ensures
            final(self)@ == old(self)@.insert(key@, value),
            r == (if old(self)@.contains_key(key@) { Some(old(self)@[key@]) } else { None }),
    {
        proof {
            use_type_invariant(&*self);
            lemma_entries_map(self.entries@);
        }
        let ghost old_entries = self.entries@;
        match self.find(key.as_str()) {
            Some(i) => {
                let previous = self.entries[i].1;
                let entries = self.copy_entries(Some(i), value);
                assert(keys_distinct(entries@));
                proof {
                    lemma_entries_map(entries@);
                    assert(entries_map(entries@) =~= entries_map(old_entries).insert(key@, value)) by {
                        assert forall|k: Seq<char>| #[trigger] entries_map(entries@).contains_key(k)
                            <==> entries_map(old_entries).insert(key@, value).contains_key(k) by {
                            if entries_map(entries@).contains_key(k) {
                                let m = choose|m: int| 0 <= m < entries@.len() && #[trigger] entries@[m].0@ == k;
                                assert(old_entries[m].0@ == k);
                            }
                            if entries_map(old_entries).contains_key(k) {
                                let m = choose|m: int| 0 <= m < old_entries.len() && #[trigger] old_entries[m].0@ == k;
                                assert(entries@[m].0@ == k);
                            }
                        }
                        assert forall|k: Seq<char>| #[trigger] entries_map(entries@).contains_key(k)
                            implies entries_map(entries@)[k] == entries_map(old_entries).insert(key@, value)[k] by {
                            let m = choose|m: int| 0 <= m < entries@.len() && #[trigger] entries@[m].0@ == k;
                            assert(old_entries[m].0@ == k);
                            if m == i {
                            } else {
                                assert(old_entries[m].0@ != old_entries[i as int].0@);
                            }
                        }
                    }
                }
                self.entries = entries;
                Some(previous)
            },
            None => {
                let mut entries = self.copy_entries(None, value);
                entries.push((key, value));
                assert(keys_distinct(entries@));
                assert(entries@.drop_last() =~= old_entries) by {
                    assert forall|k: int| 0 <= k < old_entries.len() implies entries@.drop_last()[k]
                        == old_entries[k] by {
                        assert(entries@[k].0@ == old_entries[k].0@);
                    }
                }
                self.entries = entries;
                None
            },
        }
    }

    /// A copy of the entries, with the value at `replace` set to `value`.
    fn copy_entries(&self, replace: Option<usize>, value: RuleSeverity) -> (r: Vec<(String, RuleSeverity)>)
        ensures
            r@.len() == self.entries@.len(),
            forall|k: int| #![trigger r@[k]] 0 <= k < r@.len() ==> r@[k].0@ == self.entries@[k].0@ && r@[k].0
                == self.entries@[k].0 && r@[k].1 == (if replace == Some(k as usize) { value } else {
                self.entries@[k].1 }),
    {
        let mut entries: Vec<(String, RuleSeverity)> = Vec::new();
        let n = self.entries.len();
        let mut j: usize = 0;
        while j < n
            invariant
                n == self.entries@.len(),
                j <= n,
                entries@.len() == j,
                forall|k: int| #![trigger entries@[k]] 0 <= k < j ==> entries@[k].0@ == self.entries@[k].0@
                    && entries@[k].0 == self.entries@[k].0 && entries@[k].1 == (if replace == Some(
                    k as usize) { value } else { self.entries@[k].1 }),
            decreases n - j,
        {
            let k = self.entries[j].0.clone();
            let replaced = match replace {
                Some(r) => r == j,
                None => false,
            };
            let v = if replaced { value } else { self.entries[j].1 };
            let ghost before = entries@;
            entries.push((k, v));
            assert(forall|m: int| 0 <= m < j ==> entries@[m] == before[m]);
            j = j + 1;
        }
        entries
    }

    /// A copy of the overrides.
    pub fn duplicate(&self) -> (r: Self)
        ensures
            r@ == self@,
    {
        proof {
            use_type_invariant(self);
        }
        let entries = self.copy_entries(None, RuleSeverity::Off);
        assert forall|k: int| 0 <= k < entries@.len() implies entries@[k] == self.entries@[k] by {
            assert(entries@[k].0 == self.entries@[k].0);
        }
        assert(entries@ =~= self.entries@);
        RuleSeverities { entries }
    }

    /// The number of rules with a configured severity.
    pub fn len(&self) -> (r: usize)
        ensures
            r == self@.len(),
    {
        proof {
            use_type_invariant(self);
            lemma_entries_map(self.entries@);
        }
        self.entries.len()
    }

    /// Whether no rule has a configured severity.
    pub fn is_empty(&self) -> (r: bool)
        ensures
            r == (self@.len() == 0),
    {
        proof {
            use_type_invariant(self);
            lemma_entries_map(self.entries@);
        }
        self.entries.len() == 0
    }
}

} // verus!

verus! {

impl Clone for RuleSeverities {
    fn clone(&self) -> (r: Self)
        ensures
            r@ == self@,
    {
        self.duplicate()
    }
}

/// The linter's configuration.
#[derive(Debug, Clone)]
pub struct Config {
    /// Required case style of event strings (SL008).
    pub case_style: CaseStyle,
    /// Maximum number of characters in an event string (SL009).
    pub max_event_length: usize,
    /// Lowest level flagged inside loop bodies (SL007).
    pub min_loop_log_level: LogLevel,
    /// Only files that import structlog are checked.
    pub check_imports: bool,
    /// When present, only these rules run.
    pub select: Option<Vec<String>>,
    /// These rules do not run.
    pub ignore: Option<Vec<String>>,
    /// Per-rule severity overrides.
    pub rules: RuleSeverities,
    /// When present, these file patterns replace the default excludes.
    pub exclude: Option<Vec<String>>,
    /// File patterns excluded in addition to the default excludes.
    pub extend_exclude: Option<Vec<String>>,
    /// File patterns to check.
    pub include_patterns: Option<Vec<String>>,
}

/// The default configuration, as a predicate.
pub open spec fn is_default_config(c: Config) -> bool {
    &&& c.case_style == CaseStyle::SnakeCase
    &&& c.max_event_length == 30
    &&& c.min_loop_log_level == LogLevel::Info
    &&& c.check_imports
    &&& c.select is None
    &&& c.ignore is None
    &&& c.rules@ == Map::<Seq<char>, RuleSeverity>::empty()
    &&& c.exclude is None
    &&& c.extend_exclude is None
    &&& c.include_patterns is None
}

impl Default for Config {
    fn default() -> (r: Self)
        ensures
            is_default_config(r),
    {
        Config {
            case_style: CaseStyle::SnakeCase,
            max_event_length: 30,
            min_loop_log_level: LogLevel::Info,
            check_imports: true,
            select: None,
            ignore: None,
            rules: RuleSeverities::new(),
            exclude: None,
            extend_exclude: None,
            include_patterns: None,
        }
    }
}

} // verus!

verus! {

/// Why a configuration could not be loaded.
#[derive(Debug)]
pub enum ConfigError {
    /// The file could not be read; the text is the I/O error's message.
    Io(String),
    /// The file is not valid TOML of the expected shape; the text is the
    /// parser's message.
    Toml(String),
    /// `event-case-style` names no case style.
    InvalidCaseStyle(String),
    /// `loop-log-level` names no log level.
    InvalidLogLevel(String),
    /// A per-rule severity is not `error`, `warning` or `off`.
    InvalidRuleSeverity(String),
}

/// The message of a configuration error.
pub open spec fn spec_config_error_message(e: ConfigError) -> Seq<char> {
    match e {
        ConfigError::Io(s) => "failed to read config file: "@ + s@,
        ConfigError::Toml(s) => "failed to parse config file: "@ + s@,
        ConfigError::InvalidCaseStyle(s) => "invalid case style: "@ + s@,
        ConfigError::InvalidLogLevel(s) => "invalid log level: "@ + s@,
        ConfigError::InvalidRuleSeverity(s) => "invalid rule severity: "@ + s@,
    }
}

impl ConfigError {
    /// The message of this error, as it is shown to the user.
    pub fn message(&self) -> (r: String)
        ensures
            r@ == spec_config_error_message(*self),
    {
        let (prefix, detail) = match self {
            ConfigError::Io(s) => ("failed to read config file: ", s),
            ConfigError::Toml(s) => ("failed to parse config file: ", s),
            ConfigError::InvalidCaseStyle(s) => ("invalid case style: ", s),
            ConfigError::InvalidLogLevel(s) => ("invalid log level: ", s),
            ConfigError::InvalidRuleSeverity(s) => ("invalid rule severity: ", s),
        };
        let mut r = prefix.to_owned();
        r.append(detail.as_str());
        r
    }
}

/// The configuration as a file writes it, before its values are checked.
#[derive(Debug, Default)]
pub struct RawConfig {
    pub event_case_style: Option<String>,
    pub max_event_length: Option<usize>,
    pub loop_log_level: Option<String>,
    pub check_imports: Option<bool>,
    pub select: Option<Vec<String>>,
    pub ignore: Option<Vec<String>>,
    /// Per-rule severities, as rule id and severity name.
    pub rules: Option<Vec<(String, String)>>,
    pub exclude: Option<Vec<String>>,
    pub extend_exclude: Option<Vec<String>>,
    pub include_patterns: Option<Vec<String>>,
}

/// Every severity name in the list is valid.
pub open spec fn severities_valid(entries: Seq<(String, String)>) -> bool {
    forall|i: int| 0 <= i < entries.len() ==> (#[trigger] RuleSeverity::spec_parse(entries[i].1@)) is Some
}

/// The first invalid severity name in the list.
pub open spec fn first_invalid_severity(entries: Seq<(String, String)>) -> Seq<char>
    decreases entries.len(),
{
    if entries.len() == 0 {
        seq![]
    } else if RuleSeverity::spec_parse(entries[0].1@) is None {
        entries[0].1@
    } else {
        first_invalid_severity(entries.drop_first())
    }
}

/// The severity map of a list of valid entries; a later entry for the
/// same rule replaces an earlier one.
pub open spec fn severity_map(entries: Seq<(String, String)>) -> Map<Seq<char>, RuleSeverity>
    decreases entries.len(),
{
    if entries.len() == 0 {
        Map::empty()
    } else {
        severity_map(entries.drop_last()).insert(
            entries.last().0@,
            RuleSeverity::spec_parse(entries.last().1@).unwrap(),
        )
    }
}

/// The case style a raw configuration asks for, if it is valid.
pub open spec fn spec_raw_case_style(raw: RawConfig) -> Option<CaseStyle> {
    match raw.event_case_style {
        Some(s) => CaseStyle::spec_parse(s@),
        None => Some(CaseStyle::SnakeCase),
    }
}

/// The loop log level a raw configuration asks for, if it is valid.
pub open spec fn spec_raw_loop_level(raw: RawConfig) -> Option<LogLevel> {
    match raw.loop_log_level {
        Some(s) => LogLevel::spec_parse(s@),
        None => Some(LogLevel::Info),
    }
}

/// The per-rule severities of a raw configuration are all valid.
pub open spec fn spec_raw_rules_valid(raw: RawConfig) -> bool {
    match raw.rules {
        Some(entries) => severities_valid(entries@),
        None => true,
    }
}

proof fn lemma_first_invalid(entries: Seq<(String, String)>, k: int)
    requires
        0 <= k <= entries.len(),
        severities_valid(entries.take(k)),
    ensures
        first_invalid_severity(entries) == first_invalid_severity(entries.skip(k)),
    decreases k,
{
    if k > 0 {
        assert(entries.take(k - 1) =~= entries.take(k).take(k - 1));
        assert(severities_valid(entries.take(k - 1))) by {
            assert forall|i: int| 0 <= i < k - 1 implies (#[trigger] RuleSeverity::spec_parse(
                entries.take(k - 1)[i].1@,
            )) is Some by {
                assert(entries.take(k - 1)[i] == entries.take(k)[i]);
            }
        }
        lemma_first_invalid(entries, k - 1);
        let s = entries.skip(k - 1);
        assert(s[0] == entries.take(k)[k - 1]);
        assert(RuleSeverity::spec_parse(entries.take(k)[k - 1].1@) is Some);
        assert(s.len() > 0);
        assert(s.drop_first() =~= entries.skip(k));
        assert(first_invalid_severity(s) == first_invalid_severity(s.drop_first()));
    } else {
        assert(entries.skip(0) =~= entries);
    }
}

fn parse_severities(entries: &Vec<(String, String)>) -> (r: Result<RuleSeverities, String>)
    ensures
        match r {
            Ok(m) => severities_valid(entries@) && m@ == severity_map(entries@),
            Err(s) => !severities_valid(entries@) && s@ == first_invalid_severity(entries@),
        },
{
    let mut map = RuleSeverities::new();
    let n = entries.len();
    let mut i: usize = 0;
    assert(entries@.take(0) =~= Seq::<(String, String)>::empty());
    while i < n
        invariant
            n == entries@.len(),
            i <= n,
            severities_valid(entries@.take(i as int)),
            map@ == severity_map(entries@.take(i as int)),
        decreases n - i,
    {
        match RuleSeverity::parse(entries[i].1.as_str()) {
            Some(severity) => {
                map.insert(entries[i].0.clone(), severity);
                assert(entries@.take(i + 1).drop_last() =~= entries@.take(i as int));
                assert(severities_valid(entries@.take(i + 1))) by {
                    assert forall|j: int| 0 <= j < i + 1 implies (#[trigger] RuleSeverity::spec_parse(
                        entries@.take(i + 1)[j].1@,
                    )) is Some by {
                        if j < i {
                            assert(entries@.take(i + 1)[j] == entries@.take(i as int)[j]);
                        }
                    }
                }
            },
            None => {
                proof {
                    lemma_first_invalid(entries@, i as int);
                    assert(entries@.skip(i as int)[0] == entries@[i as int]);
                }
                return Err(entries[i].1.clone());
            },
        }
        i = i + 1;
    }
    assert(entries@.take(n as int) =~= entries@);
    Ok(map)
}

impl RawConfig {
    /// Checks the values of a raw configuration and fills in defaults:
    /// `snake_case`, 30 characters, level `info`, imports checked.
    pub fn into_config(self) -> (r: Result<Config, ConfigError>)
        ensures
            r is Ok <==> (spec_raw_case_style(self) is Some && spec_raw_loop_level(self) is Some
                && spec_raw_rules_valid(self)),
            match r {
                Ok(c) => {
                    &&& Some(c.case_style) == spec_raw_case_style(self)
                    &&& Some(c.min_loop_log_level) == spec_raw_loop_level(self)
                    &&& c.max_event_length == match self.max_event_length {
                        Some(n) => n,
                        None => 30,
                    }
                    &&& c.check_imports == match self.check_imports {
                        Some(b) => b,
                        None => true,
                    }
                    &&& c.select == self.select
                    &&& c.ignore == self.ignore
                    &&& c.rules@ == match self.rules {
                        Some(entries) => severity_map(entries@),
                        None => Map::empty(),
                    }
                    &&& c.exclude == self.exclude
                    &&& c.extend_exclude == self.extend_exclude
                    &&& c.include_patterns == self.include_patterns
                },
                Err(e) => if spec_raw_case_style(self) is None {
                    e == ConfigError::InvalidCaseStyle(self.event_case_style.unwrap())
                } else if spec_raw_loop_level(self) is None {
                    e == ConfigError::InvalidLogLevel(self.loop_log_level.unwrap())
                } else {
                    e matches ConfigError::InvalidRuleSeverity(s) && s@ == first_invalid_severity(
                        self.rules.unwrap()@,
                    )
                },
            },
    {
        let case_style = match &self.event_case_style {
            Some(s) => match CaseStyle::parse(s.as_str()) {
                Some(style) => style,
                None => {
                    return Err(ConfigError::InvalidCaseStyle(s.clone()));
                },
            },
            None => CaseStyle::SnakeCase,
        };
        let min_loop_log_level = match &self.loop_log_level {
            Some(s) => match LogLevel::parse(s.as_str()) {
                Some(level) => level,
                None => {
                    return Err(ConfigError::InvalidLogLevel(s.clone()));
                },
            },
            None => LogLevel::Info,
        };
        let rules = match &self.rules {
            Some(entries) => match parse_severities(entries) {
                Ok(m) => m,
                Err(s) => {
                    return Err(ConfigError::InvalidRuleSeverity(s));
                },
            },
            None => RuleSeverities::new(),
        };
        let max_event_length = match self.max_event_length {
            Some(n) => n,
            None => 30,
        };
        let check_imports = match self.check_imports {
            Some(b) => b,
            None => true,
        };
        Ok(Config {
            case_style,
            max_event_length,
            min_loop_log_level,
            check_imports,
            select: self.select,
            ignore: self.ignore,
            rules,
            exclude: self.exclude,
            extend_exclude: self.extend_exclude,
            include_patterns: self.include_patterns,
        })
    }
}

} // verus!

verus! {

/// The file patterns excluded when the configuration gives no `exclude`.
pub open spec fn spec_default_excludes() -> Seq<Seq<char>> {
    seq![
        "**/.venv/**"@,
        "**/venv/**"@,
        "**/node_modules/**"@,
        "**/__pycache__/**"@,
        "**/*.pyc"@,
        "**/*.pyo"@,
        "**/.git/**"@,
        "**/.tox/**"@,
        "**/.nox/**"@,
        "**/site-packages/**"@,
        "**/__pypackages__/**"@,
        "**/.eggs/**"@,
        "**/dist/**"@,
        "**/build/**"@,
        "**/.mypy_cache/**"@,
        "**/.pytest_cache/**"@,
        "**/.ruff_cache/**"@,
        "**/.direnv/**"@,
        "**/migrations/**"@,
    ]
}

/// Without an `exclude` list, the exclude patterns start with these
/// nineteen, in this order: virtual environments, dependency and cache
/// directories, compiled Python files, version-control and tool
/// directories, packaging output (`dist`, `build`, `.eggs`) and
/// migrations; `extend-exclude` only adds after them.
pub proof fn law_default_exclude_patterns(c: Config)
    requires
        c.exclude is None,
    ensures
        spec_exclude_patterns(c).len() >= 19,
        spec_exclude_patterns(c).take(19) == seq![
            "**/.venv/**"@,
            "**/venv/**"@,
            "**/node_modules/**"@,
            "**/__pycache__/**"@,
            "**/*.pyc"@,
            "**/*.pyo"@,
            "**/.git/**"@,
            "**/.tox/**"@,
            "**/.nox/**"@,
            "**/site-packages/**"@,
            "**/__pypackages__/**"@,
            "**/.eggs/**"@,
            "**/dist/**"@,
            "**/build/**"@,
            "**/.mypy_cache/**"@,
            "**/.pytest_cache/**"@,
            "**/.ruff_cache/**"@,
            "**/.direnv/**"@,
            "**/migrations/**"@,
        ],
        spec_exclude_patterns(c).contains("**/build/**"@),
{
    let p = spec_exclude_patterns(c);
    assert(spec_default_excludes().len() == 19);
    assert(p.take(19) =~= spec_default_excludes());
    assert(p[13] == "**/build/**"@);
}

/// The file patterns excluded when the configuration gives no `exclude`.
pub fn default_excludes() -> (r: Vec<String>)
    ensures
        string_views(r@) == spec_default_excludes(),
{
    let mut r: Vec<String> = Vec::new();
    r.push("**/.venv/**".to_owned());
    r.push("**/venv/**".to_owned());
    r.push("**/node_modules/**".to_owned());
    r.push("**/__pycache__/**".to_owned());
    r.push("**/*.pyc".to_owned());
    r.push("**/*.pyo".to_owned());
    r.push("**/.git/**".to_owned());
    r.push("**/.tox/**".to_owned());
    r.push("**/.nox/**".to_owned());
    r.push("**/site-packages/**".to_owned());
    r.push("**/__pypackages__/**".to_owned());
    r.push("**/.eggs/**".to_owned());
    r.push("**/dist/**".to_owned());
    r.push("**/build/**".to_owned());
    r.push("**/.mypy_cache/**".to_owned());
    r.push("**/.pytest_cache/**".to_owned());
    r.push("**/.ruff_cache/**".to_owned());
    r.push("**/.direnv/**".to_owned());
    r.push("**/migrations/**".to_owned());
    assert(string_views(r@) =~= spec_default_excludes());
    r
}

/// The exclude patterns of a configuration: its `exclude` list when it
/// gives one (an empty list excludes nothing), else the default excludes
/// followed by its `extend-exclude` list.
pub open spec fn spec_exclude_patterns(c: Config) -> Seq<Seq<char>> {
    match c.exclude {
        Some(exclude) => string_views(exclude@),
        None => spec_default_excludes() + match c.extend_exclude {
            Some(extend) => string_views(extend@),
            None => seq![],
        },
    }
}

fn copy_strings(v: &Vec<String>, out: &mut Vec<String>)
    ensures
        string_views(final(out)@) == string_views(old(out)@) + string_views(v@),
{
    let ghost start = string_views(out@);
    let n = v.len();
    let mut i: usize = 0;
    while i < n
        invariant
            n == v@.len(),
            i <= n,
            string_views(out@) == start + string_views(v@.take(i as int)),
        decreases n - i,
    {
        let ghost before = out@;
        out.push(v[i].clone());
        assert(string_views(out@) =~= string_views(before).push(v@[i as int]@));
        assert(string_views(v@.take(i + 1)) =~= string_views(v@.take(i as int)).push(v@[i as int]@));
        i = i + 1;
    }
    assert(v@.take(n as int) =~= v@);
}

impl Config {
    /// The exclude patterns of this configuration.
    pub fn exclude_patterns(&self) -> (r: Vec<String>)
        ensures
            string_views(r@) == spec_exclude_patterns(*self),
    {
        let mut r: Vec<String> = Vec::new();
        assert(string_views(r@) =~= Seq::<Seq<char>>::empty());
        match &self.exclude {
            Some(exclude) => {
                copy_strings(exclude, &mut r);
                assert(string_views(r@) =~= string_views(exclude@));
            },
            None => {
                r = default_excludes();
                match &self.extend_exclude {
                    Some(extend) => {
                        copy_strings(extend, &mut r);
                    },
                    None => {
                        assert(string_views(r@) =~= spec_default_excludes() + Seq::<Seq<char>>::empty());
                    },
                }
            },
        }
        r
    }

    /// Compiles the exclude patterns into a glob set, `*` not matching `/`.
    /// A set it returns holds exactly the exclude patterns, in order. When
    /// some pattern does not compile, the result is an error; when every
    /// pattern compiles and the set builds from them, it is a set; when
    /// the set does not build, an error. An empty `exclude` list always
    /// gives the empty set.
    pub fn build_exclude_globset(&self) -> (r: Result<GlobSet, globset::Error>)
        ensures
            (self.exclude matches Some(v) && v@.len() == 0) ==> r is Ok,
            ((forall|i: int| 0 <= i < spec_exclude_patterns(*self).len() ==> glob_pattern_valid(
                #[trigger] spec_exclude_patterns(*self)[i],
            )) && glob_set_builds(spec_exclude_patterns(*self))) ==> r is Ok,
            (!glob_set_builds(spec_exclude_patterns(*self)) && !(self.exclude matches Some(v) && v@.len()
                == 0)) ==> r is Err,
            r matches Ok(set) ==> glob_set_patterns(set) == spec_exclude_patterns(*self),
            (exists|i: int| 0 <= i < spec_exclude_patterns(*self).len() && !glob_pattern_valid(
                #[trigger] spec_exclude_patterns(*self)[i],
            )) ==> r is Err,
    {
        match &self.exclude {
            Some(v) => {
                if v.len() == 0 {
                    assert(spec_exclude_patterns(*self) =~= Seq::<Seq<char>>::empty());
                    return Ok(empty_glob_set());
                }
            },
            None => {},
        }
        let patterns = self.exclude_patterns();
        let mut builder = new_glob_set_builder();
        let n = patterns.len();
        let mut i: usize = 0;
        while i < n
            invariant
                n == patterns@.len(),
                i <= n,
                string_views(patterns@) == spec_exclude_patterns(*self),
                glob_builder_patterns(builder) == string_views(patterns@.take(i as int)),
                forall|j: int| 0 <= j < i ==> glob_pattern_valid(#[trigger] string_views(patterns@)[j]),
            decreases n - i,
        {
            let ghost before = glob_builder_patterns(builder);
            match add_glob(&mut builder, patterns[i].as_str()) {
                Ok(()) => {},
                Err(e) => {
                    assert(string_views(patterns@)[i as int] == patterns@[i as int]@);
                    assert(!glob_pattern_valid(spec_exclude_patterns(*self)[i as int]));
                    return Err(e);
                },
            }
            assert(string_views(patterns@.take(i + 1)) =~= string_views(patterns@.take(i as int)).push(
                patterns@[i as int]@,
            ));
            i = i + 1;
        }
        assert(patterns@.take(n as int) =~= patterns@);
        build_glob_set(&builder)
    }
}

} // verus!

verus! {

/// Settings given on the command line, which take precedence over the
/// configuration file.
#[derive(Debug)]
pub struct Overrides {
    pub event_case_style: Option<String>,
    pub max_event_length: Option<usize>,
    pub loop_log_level: Option<String>,
    pub select: Option<Vec<String>>,
    pub ignore: Option<Vec<String>>,
    pub exclude: Option<Vec<String>>,
    pub extend_exclude: Option<Vec<String>>,
    /// Turn import checking on.
    pub check_imports: bool,
    /// Turn import checking off, unless `check_imports` is set.
    pub no_check_imports: bool,
}

/// The configuration after the settings of `o` that come before the log
/// level (case style, then event length) are applied.
pub open spec fn spec_with_style_and_length(c: Config, o: Overrides, style: CaseStyle) -> Config {
    Config {
        case_style: style,
        max_event_length: match o.max_event_length {
            Some(n) => n,
            None => c.max_event_length,
        },
        ..c
    }
}

/// The configuration after every setting of `o` is applied, with the
/// given case style and loop log level.
pub open spec fn spec_overridden(c: Config, o: Overrides, style: CaseStyle, level: LogLevel) -> Config {
    Config {
        case_style: style,
        max_event_length: match o.max_event_length {
            Some(n) => n,
            None => c.max_event_length,
        },
        min_loop_log_level: level,
        select: if o.select is Some { o.select } else { c.select },
        ignore: if o.ignore is Some { o.ignore } else { c.ignore },
        exclude: if o.exclude is Some { o.exclude } else { c.exclude },
        extend_exclude: if o.extend_exclude is Some { o.extend_exclude } else { c.extend_exclude },
        check_imports: if o.check_imports {
            true
        } else if o.no_check_imports {
            false
        } else {
            c.check_imports
        },
        ..c
    }
}

impl Config {
    /// Applies command-line settings, in order: case style, event length,
    /// loop log level, rule selection and file excludes, import checking.
    /// An unknown case style or log level is an error, reported as
    /// `invalid case style: X` or `invalid log level: X`; the settings
    /// before it stay applied and none after it is.
    pub fn apply_overrides(&mut self, o: Overrides) -> (r: Result<(), String>)
        ensures
            match o.event_case_style {
                Some(s) => CaseStyle::spec_parse(s@) is None ==> (r matches Err(m) && m@
                    == "invalid case style: "@ + s@ && *final(self) == *old(self)),
                None => true,
            },
            ({
                let style = match o.event_case_style {
                    Some(s) => CaseStyle::spec_parse(s@),
                    None => Some(old(self).case_style),
                };
                match style {
                    Some(st) => match o.loop_log_level {
                        Some(l) => match LogLevel::spec_parse(l@) {
                            None => (r matches Err(m) && m@ == "invalid log level: "@ + l@ && *final(self)
                                == spec_with_style_and_length(*old(self), o, st)),
                            Some(lv) => r is Ok && *final(self) == spec_overridden(*old(self), o, st, lv),
                        },
                        None => r is Ok && *final(self) == spec_overridden(
                            *old(self),
                            o,
                            st,
                            old(self).min_loop_log_level,
                        ),
                    },
                    None => true,
                }
            }),
    {
        match &o.event_case_style {
            Some(s) => match CaseStyle::parse(s.as_str()) {
                Some(style) => {
                    self.case_style = style;
                },
                None => {
                    let mut m = "invalid case style: ".to_owned();
                    m.append(s.as_str());
                    return Err(m);
                },
            },
            None => {},
        }
        match o.max_event_length {
            Some(n) => {
                self.max_event_length = n;
            },
            None => {},
        }
        match &o.loop_log_level {
            Some(l) => match LogLevel::parse(l.as_str()) {
                Some(level) => {
                    self.min_loop_log_level = level;
                },
                None => {
                    let mut m = "invalid log level: ".to_owned();
                    m.append(l.as_str());
                    return Err(m);
                },
            },
            None => {},
        }
        if o.select.is_some() {
            self.select = o.select;
        }
        if o.ignore.is_some() {
            self.ignore = o.ignore;
        }
        if o.exclude.is_some() {
            self.exclude = o.exclude;
        }
        if o.extend_exclude.is_some() {
            self.extend_exclude = o.extend_exclude;
        }
        if o.check_imports {
            self.check_imports = true;
        } else if o.no_check_imports {
            self.check_imports = false;
        }
        Ok(())
    }
}

/// Where configuration discovery goes from one directory.
#[derive(Debug, Clone, Copy, PartialEq, Eq, Structural)]
pub enum DiscoveryStep {
    /// Read `structloglint.toml` in this directory.
    UseStandalone,
    /// Use the `[tool.structloglint]` table of this directory's `pyproject.toml`.
    UsePyproject,
    /// Look in the parent directory.
    GoUp,
    /// Stop, with the default configuration.
    UseDefault,
}

/// Decides the next step of configuration discovery in one directory,
/// from the start directory upwards: a `structloglint.toml` wins, then a
/// `pyproject.toml` that has a `[tool.structloglint]` table; otherwise
/// discovery goes on in the parent, and ends with the defaults at the
/// root.
pub fn discovery_step(standalone_is_file: bool, pyproject_has_table: bool, has_parent: bool) -> (r: DiscoveryStep)
    ensures
        standalone_is_file ==> r == DiscoveryStep::UseStandalone,
        !standalone_is_file && pyproject_has_table ==> r == DiscoveryStep::UsePyproject,
        !standalone_is_file && !pyproject_has_table && has_parent ==> r == DiscoveryStep::GoUp,
        !standalone_is_file && !pyproject_has_table && !has_parent ==> r == DiscoveryStep::UseDefault,
{
    if standalone_is_file {
        DiscoveryStep::UseStandalone
    } else if pyproject_has_table {
        DiscoveryStep::UsePyproject
    } else if has_parent {
        DiscoveryStep::GoUp
    } else {
        DiscoveryStep::UseDefault
    }
}

} // verus!
