//! Inline suppression: `# noqa` and `# noqa: SL001, SL002` comments.

use std::collections::HashMap;

use vstd::prelude::*;

use crate::text::{
    chars_of, find_char, first_index, lemma_first_index, lemma_lines_step, seq_starts_with, skip_whitespace,
    skip_whitespace_back, spec_lines, split_on, str_eq, string_of, to_uppercase, trim,
    trim_start, unicode_uppercase,
};

verus! {

/// What a `# noqa` comment suppresses on its line.
#[derive(Debug, Clone)]
pub enum NoqaDirective {
    /// Every rule.
    All,
    /// The rules with these (upper-cased) ids.
    Specific(Vec<String>),
}

/// A directive as a value.
pub enum Suppression {
    All,
    Rules(Seq<Seq<char>>),
}

/// The character sequences of a sequence of strings.
pub open spec fn string_views(v: Seq<String>) -> Seq<Seq<char>> {
    v.map_values(|s: String| s@)
}

impl View for NoqaDirective {
    type V = Suppression;

    open spec fn view(&self) -> Suppression {
        match self {
            NoqaDirective::All => Suppression::All,
            NoqaDirective::Specific(rules) => Suppression::Rules(string_views(rules@)),
        }
    }
}

/// A directive suppresses a rule: every rule, or one of its listed ids.
pub open spec fn spec_suppresses(d: Suppression, rule_id: Seq<char>) -> bool {
    match d {
        Suppression::All => true,
        Suppression::Rules(rules) => exists|i: int| #![trigger rules[i]] 0 <= i < rules.len() && rules[i] == rule_id,
    }
}

impl NoqaDirective {
    /// Whether this directive suppresses the rule `rule_id`.
    pub fn suppresses(&self, rule_id: &str) -> (r: bool)
        ensures
            r == spec_suppresses(self@, rule_id@),
    {
        match self {
            NoqaDirective::All => true,
            NoqaDirective::Specific(rules) => {
                assert(self@ == Suppression::Rules(string_views(rules@)));
                let n = rules.len();
                let mut i: usize = 0;
                while i < n
                    invariant
                        n == rules@.len(),
                        i <= n,
                        self@ == Suppression::Rules(string_views(rules@)),
                        forall|j: int| 0 <= j < i ==> #[trigger] rules@[j]@ != rule_id@,
                    decreases n - i,
                {
                    if str_eq(rules[i].as_str(), rule_id) {
                        let ghost sv = string_views(rules@);
                        assert(sv[i as int] == rule_id@);
                        assert(self@->Rules_0 == sv);
                        return true;
                    }
                    i = i + 1;
                }
                assert forall|j: int| 0 <= j < string_views(rules@).len() implies #[trigger] string_views(
                    rules@,
                )[j] != rule_id@ by {
                    assert(string_views(rules@)[j] == rules@[j]@);
                }
                false
            },
        }
    }
}

/// The rule ids of the pieces of a rule list: each piece trimmed and
/// upper-cased, empty pieces dropped.
pub open spec fn spec_rules_of(parts: Seq<Seq<char>>) -> Seq<Seq<char>>
    decreases parts.len(),
{
    if parts.len() == 0 {
        seq![]
    } else {
        let prev = spec_rules_of(parts.drop_last());
        let rule = unicode_uppercase(trim(parts.last()));
        if rule.len() > 0 {
            prev.push(rule)
        } else {
            prev
        }
    }
}

/// The directive of a source line. The comment starts at the first `#`;
/// its text, trimmed, must start with `noqa`. Bare `noqa` suppresses
/// every rule; otherwise a `:` must follow (after optional whitespace),
/// then a comma-separated list of rule ids, compared upper-cased. An
/// empty list also suppresses every rule.
pub open spec fn spec_parse_line(line: Seq<char>) -> Option<Suppression> {
    match first_index(line, '#') {
        None => None,
        Some(p) => {
            let trimmed = trim(line.skip(p + 1));
            if !seq_starts_with(trimmed, "noqa"@) {
                None
            } else {
                let rest = trimmed.skip("noqa"@.len() as int);
                if rest.len() == 0 {
                    Some(Suppression::All)
                } else {
                    let after = trim_start(rest);
                    if after.len() == 0 || after[0] != ':' {
                        None
                    } else {
                        let rules_part = trim(after.skip(1));
                        if rules_part.len() == 0 {
                            Some(Suppression::All)
                        } else {
                            let rules = spec_rules_of(split_on(rules_part, ','));
                            if rules.len() == 0 {
                                Some(Suppression::All)
                            } else {
                                Some(Suppression::Rules(rules))
                            }
                        }
                    }
                }
            }
        },
    }
}

/// The directives of a source text, keyed by 1-based line number: the
/// lines that hold one.
pub open spec fn spec_noqa_map_has(source: Seq<char>, line: int) -> bool {
    1 <= line <= spec_lines(source).len() && spec_parse_line(spec_lines(source)[line - 1]) is Some
}

proof fn lemma_split_step(v: Seq<char>, pos: int, e: int)
    requires
        0 <= pos <= e <= v.len(),
    ensures
        match first_index(v.subrange(pos, e), ',') {
            Some(k) => pos + k < e && split_on(v.subrange(pos, e), ',') == seq![v.subrange(pos, pos + k)]
                + split_on(v.subrange(pos + k + 1, e), ','),
            None => split_on(v.subrange(pos, e), ',') == seq![v.subrange(pos, e)],
        },
{
    let s = v.subrange(pos, e);
    lemma_first_index(s, ',');
    match first_index(s, ',') {
        Some(k) => {
            assert(s.take(k) =~= v.subrange(pos, pos + k));
            assert(s.skip(k + 1) =~= v.subrange(pos + k + 1, e));
        },
        None => {},
    }
}

fn rule_of_piece(v: &Vec<char>, lo: usize, hi: usize) -> (r: String)
    requires
        lo <= hi <= v@.len(),
    ensures
        r@ == unicode_uppercase(trim(v@.subrange(lo as int, hi as int))),
{
    let a = skip_whitespace(v, lo, hi);
    let b = skip_whitespace_back(v, a, hi);
    let piece = string_of(v, a, b);
    to_uppercase(piece.as_str())
}

fn parse_rules(v: &Vec<char>, d: usize, e: usize) -> (r: Vec<String>)
    requires
        d <= e <= v@.len(),
    ensures
        string_views(r@) == spec_rules_of(split_on(v@.subrange(d as int, e as int), ',')),
{
    let mut rules: Vec<String> = Vec::new();
    let mut pos = d;
    let ghost mut parts: Seq<Seq<char>> = seq![];
    assert(string_views(rules@) =~= spec_rules_of(parts));
    assert(split_on(v@.subrange(d as int, e as int), ',') =~= parts + split_on(
        v@.subrange(pos as int, e as int),
        ',',
    ));
    loop
        invariant_except_break
            d <= pos <= e <= v@.len(),
            split_on(v@.subrange(d as int, e as int), ',') == parts + split_on(
                v@.subrange(pos as int, e as int),
                ',',
            ),
            string_views(rules@) == spec_rules_of(parts),
        ensures
            string_views(rules@) == spec_rules_of(split_on(v@.subrange(d as int, e as int), ',')),
        decreases e - pos,
    {
        proof {
            lemma_split_step(v@, pos as int, e as int);
        }
        let found = find_char(v, pos, e, ',');
        let end = match found {
            Some(k) => {
                proof {
                    lemma_first_index(v@.subrange(pos as int, e as int), ',');
                    let fk = first_index(v@.subrange(pos as int, e as int), ',').unwrap();
                    assert(k == pos + fk);
                }
                k
            },
            None => e,
        };
        let rule = rule_of_piece(v, pos, end);
        let ghost piece = v@.subrange(pos as int, end as int);
        let ghost old_rules = rules@;
        if !rule.as_str().is_empty() {
            rules.push(rule);
        }
        proof {
            assert(parts.push(piece).drop_last() =~= parts);
            assert(rule@.len() > 0 ==> string_views(rules@) =~= string_views(old_rules).push(rule@));
            assert(rule@.len() == 0 ==> rules@ == old_rules);
            parts = parts.push(piece);
        }
        match found {
            Some(k) => {
                assert(split_on(v@.subrange(d as int, e as int), ',') =~= parts + split_on(
                    v@.subrange(k + 1, e as int),
                    ',',
                ));
                pos = k + 1;
            },
            None => {
                assert(split_on(v@.subrange(d as int, e as int), ',') =~= parts);
                break;
            },
        }
    }
    rules
}

/// Reads the directive of the line `v[lo..hi]`.
fn parse_line_range(v: &Vec<char>, lo: usize, hi: usize) -> (r: Option<NoqaDirective>)
    requires
        lo <= hi <= v@.len(),
    ensures
        match spec_parse_line(v@.subrange(lo as int, hi as int)) {
            Some(d) => r matches Some(x) && x@ == d,
            None => r is None,
        },
{
    let ghost line = v@.subrange(lo as int, hi as int);
    let p = match find_char(v, lo, hi, '#') {
        Some(p) => p,
        None => {
            return None;
        },
    };
    proof {
        lemma_first_index(line, '#');
        assert(line.skip(p - lo + 1) =~= v@.subrange(p + 1, hi as int));
        reveal_strlit("noqa");
    }
    let a = skip_whitespace(v, p + 1, hi);
    let b = skip_whitespace_back(v, a, hi);
    let ghost trimmed = v@.subrange(a as int, b as int);
    assert(trimmed == trim(line.skip(p - lo + 1)));
    if b - a < 4 || v[a] != 'n' || v[a + 1] != 'o' || v[a + 2] != 'q' || v[a + 3] != 'a' {
        proof {
            if seq_starts_with(trimmed, "noqa"@) {
                assert(trimmed.take(4)[0] == 'n');
                assert(trimmed.take(4)[1] == 'o');
                assert(trimmed.take(4)[2] == 'q');
                assert(trimmed.take(4)[3] == 'a');
            }
        }
        return None;
    }
    assert(trimmed.take(4) =~= "noqa"@);
    let r0 = a + 4;
    assert(trimmed.skip(4) =~= v@.subrange(r0 as int, b as int));
    if r0 == b {
        return Some(NoqaDirective::All);
    }
    let c = skip_whitespace(v, r0, b);
    if c == b || v[c] != ':' {
        return None;
    }
    assert(v@.subrange(c as int, b as int).skip(1) =~= v@.subrange(c + 1, b as int));
    let d = skip_whitespace(v, c + 1, b);
    let e = skip_whitespace_back(v, d, b);
    if d == e {
        return Some(NoqaDirective::All);
    }
    let rules = parse_rules(v, d, e);
    if rules.len() == 0 {
        Some(NoqaDirective::All)
    } else {
        Some(NoqaDirective::Specific(rules))
    }
}

} // verus!

verus! {

/// Reads the `# noqa` directive of one source line, if it holds one.
pub fn parse_line(line: &str) -> (r: Option<NoqaDirective>)
    ensures
        match spec_parse_line(line@) {
            Some(d) => r matches Some(x) && x@ == d,
            None => r is None,
        },
{
    let v = chars_of(line);
    assert(v@.subrange(0, v@.len() as int) =~= line@);
    parse_line_range(&v, 0, v.len())
}

/// Parse `# noqa` comments from source text.
/// Returns a mapping from 1-based line numbers to suppression directives:
/// line `k` has an entry exactly when its text holds a directive.
pub fn parse_noqa_comments(source: &str) -> (r: HashMap<usize, NoqaDirective>)
    requires
        source@.len() < usize::MAX,
    ensures
        forall|k: usize| #[trigger] r@.contains_key(k) <==> spec_noqa_map_has(source@, k as int),
        forall|k: usize| #[trigger] r@.contains_key(k) ==> spec_parse_line(spec_lines(source@)[k - 1])
            == Some(r@[k]@),
{
    broadcast use vstd::std_specs::hash::group_hash_axioms;

    let v = chars_of(source);
    let n = v.len();
    let mut map: HashMap<usize, NoqaDirective> = HashMap::new();
    let mut pos: usize = 0;
    let mut line_no: usize = 1;
    let ghost mut done: Seq<Seq<char>> = seq![];
    assert(v@.subrange(0, n as int) =~= source@);
    while pos < n
        invariant
            n == v@.len(),
            v@ == source@,
            n < usize::MAX,
            pos <= n,
            line_no == done.len() + 1,
            line_no <= pos + 1,
            spec_lines(source@) == done + spec_lines(v@.subrange(pos as int, n as int)),
            forall|k: usize| #[trigger] map@.contains_key(k) <==> (1 <= k < line_no && spec_parse_line(
                done[k - 1],
            ) is Some),
            forall|k: usize| #[trigger] map@.contains_key(k) ==> spec_parse_line(done[k - 1]) == Some(
                map@[k]@,
            ),
        decreases n - pos,
    {
        proof {
            lemma_lines_step(v@, pos as int, n as int);
            lemma_first_index(v@.subrange(pos as int, n as int), '\n');
        }
        let found = find_char(&v, pos, n, '\n');
        let (end, next) = match found {
            Some(k) => {
                if k > pos && v[k - 1] == '\r' {
                    assert(v@.subrange(pos as int, k - 1) =~= v@.subrange(pos as int, k as int).drop_last());
                    (k - 1, k + 1)
                } else {
                    (k, k + 1)
                }
            },
            None => (n, n),
        };
        let ghost line = v@.subrange(pos as int, end as int);
        let ghost old_done = done;
        assert(spec_lines(v@.subrange(pos as int, n as int)) =~= seq![line] + spec_lines(
            v@.subrange(next as int, n as int),
        ));
        let directive = parse_line_range(&v, pos, end);
        match directive {
            Some(d) => {
                map.insert(line_no, d);
            },
            None => {},
        }
        proof {
            done = done.push(line);
            assert(done[line_no - 1] == line);
            assert forall|k: usize| 1 <= k < line_no implies #[trigger] done[k - 1] == old_done[k - 1] by {}
            assert(spec_lines(source@) =~= done + spec_lines(v@.subrange(next as int, n as int)));
        }
        pos = next;
        line_no = line_no + 1;
    }
    proof {
        assert(v@.subrange(n as int, n as int) =~= Seq::<char>::empty());
        assert(spec_lines(source@) =~= done);
    }
    map
}

} // verus!
