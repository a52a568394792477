//! Character-level helpers over the `Seq<char>` view of strings.

use vstd::prelude::*;
use vstd::string::StringExecFns;

verus! {

/// `s` begins with `prefix`.
pub open spec fn seq_starts_with(s: Seq<char>, prefix: Seq<char>) -> bool {
    prefix.len() <= s.len() && s.take(prefix.len() as int) == prefix
}

/// `s` ends with `suffix`.
pub open spec fn seq_ends_with(s: Seq<char>, suffix: Seq<char>) -> bool {
    suffix.len() <= s.len() && s.skip(s.len() - suffix.len()) == suffix
}

/// The characters of a string, in order.
pub fn chars_of(s: &str) -> (v: Vec<char>)
    ensures
        v@ == s@,
{
    broadcast use vstd::string::axiom_spec_iter;

    let mut v: Vec<char> = Vec::new();
    for c in it: s.chars()
        invariant
            v@.len() == it.index(),
            forall|i: int| 0 <= i < v@.len() ==> v@[i] == it.seq()[i],
            it.seq() == s@,
    {
        v.push(c);
    }
    assert(v@ =~= s@);
    v
}

/// Whether two strings hold the same characters.
pub fn str_eq(a: &str, b: &str) -> (r: bool)
    ensures
        r == (a@ == b@),
{
    let x = chars_of(a);
    let y = chars_of(b);
    if x.len() != y.len() {
        return false;
    }
    let n = x.len();
    let mut i: usize = 0;
    while i < n
        invariant
            x@ == a@,
            y@ == b@,
            n == x@.len(),
            n == y@.len(),
            i <= n,
            forall|j: int| 0 <= j < i ==> x@[j] == y@[j],
        decreases n - i,
    {
        if x[i] != y[i] {
            assert(a@[i as int] != b@[i as int]);
            return false;
        }
        i = i + 1;
    }
    assert(x@ =~= y@);
    true
}

} // verus!

verus! {

/// Whether `s` begins with `prefix`.
pub fn str_starts_with(s: &str, prefix: &str) -> (r: bool)
    ensures
        r == seq_starts_with(s@, prefix@),
{
    let x = chars_of(s);
    let p = chars_of(prefix);
    let n = x.len();
    let m = p.len();
    if m > n {
        return false;
    }
    let mut i: usize = 0;
    while i < m
        invariant
            x@ == s@,
            p@ == prefix@,
            n == x@.len(),
            m == p@.len(),
            m <= n,
            i <= m,
            forall|j: int| 0 <= j < i ==> x@[j] == p@[j],
        decreases m - i,
    {
        if x[i] != p[i] {
            assert(s@.take(m as int)[i as int] != prefix@[i as int]);
            return false;
        }
        i = i + 1;
    }
    assert(x@.take(m as int) =~= p@);
    true
}

/// Whether `s` ends with `suffix`.
pub fn str_ends_with(s: &str, suffix: &str) -> (r: bool)
    ensures
        r == seq_ends_with(s@, suffix@),
{
    let x = chars_of(s);
    let p = chars_of(suffix);
    let n = x.len();
    let m = p.len();
    if m > n {
        return false;
    }
    let off = n - m;
    let mut i: usize = 0;
    while i < m
        invariant
            x@ == s@,
            p@ == suffix@,
            n == x@.len(),
            m == p@.len(),
            m <= n,
            off == n - m,
            i <= m,
            forall|j: int| 0 <= j < i ==> x@[off + j] == p@[j],
        decreases m - i,
    {
        if x[off + i] != p[i] {
            assert(s@.skip(off as int)[i as int] != suffix@[i as int]);
            return false;
        }
        i = i + 1;
    }
    assert(x@.skip(off as int) =~= p@);
    true
}

} // verus!

verus! {

/// The decimal digit for `d < 10`.
pub open spec fn spec_digit(d: nat) -> char {
    if d == 0 { '0' }
    else if d == 1 { '1' }
    else if d == 2 { '2' }
    else if d == 3 { '3' }
    else if d == 4 { '4' }
    else if d == 5 { '5' }
    else if d == 6 { '6' }
    else if d == 7 { '7' }
    else if d == 8 { '8' }
    else { '9' }
}

/// The decimal notation of a number, without leading zeros.
pub open spec fn spec_decimal(n: nat) -> Seq<char>
    decreases n,
{
    if n < 10 {
        seq![spec_digit(n)]
    } else {
        spec_decimal(n / 10).push(spec_digit(n % 10))
    }
}

fn digit_str(d: usize) -> (r: &'static str)
    requires
        d < 10,
    ensures
        r@ == seq![spec_digit(d as nat)],
{
    if d == 0 {
        proof { reveal_strlit("0"); }
        "0"
    } else if d == 1 {
        proof { reveal_strlit("1"); }
        "1"
    } else if d == 2 {
        proof { reveal_strlit("2"); }
        "2"
    } else if d == 3 {
        proof { reveal_strlit("3"); }
        "3"
    } else if d == 4 {
        proof { reveal_strlit("4"); }
        "4"
    } else if d == 5 {
        proof { reveal_strlit("5"); }
        "5"
    } else if d == 6 {
        proof { reveal_strlit("6"); }
        "6"
    } else if d == 7 {
        proof { reveal_strlit("7"); }
        "7"
    } else if d == 8 {
        proof { reveal_strlit("8"); }
        "8"
    } else {
        proof { reveal_strlit("9"); }
        "9"
    }
}

/// The decimal notation of a number, as `usize`'s `Display` writes it.
pub fn decimal(n: usize) -> (r: String)
    ensures
        r@ == spec_decimal(n as nat),
    decreases n,
{
    if n < 10 {
        digit_str(n).to_owned()
    } else {
        let mut s = decimal(n / 10);
        s.append(digit_str(n % 10));
        s
    }
}

} // verus!

verus! {

/// The characters with the Unicode `White_Space` property, which is what
/// `char::is_whitespace` tests and what `str::trim` removes.
pub open spec fn is_whitespace(c: char) -> bool {
    ||| ('\t' <= c && c <= '\r')
    ||| c == ' '
    ||| c == '\u{85}'
    ||| c == '\u{A0}'
    ||| c == '\u{1680}'
    ||| ('\u{2000}' <= c && c <= '\u{200A}')
    ||| c == '\u{2028}'
    ||| c == '\u{2029}'
    ||| c == '\u{202F}'
    ||| c == '\u{205F}'
    ||| c == '\u{3000}'
}

/// Whether `c` is whitespace.
pub fn is_whitespace_char(c: char) -> (r: bool)
    ensures
        r == is_whitespace(c),
{
    ('\t' <= c && c <= '\r') || c == ' ' || c == '\u{85}' || c == '\u{A0}' || c == '\u{1680}' || (
    '\u{2000}' <= c && c <= '\u{200A}') || c == '\u{2028}' || c == '\u{2029}' || c == '\u{202F}'
        || c == '\u{205F}' || c == '\u{3000}'
}

/// `s` without its leading whitespace.
pub open spec fn trim_start(s: Seq<char>) -> Seq<char>
    decreases s.len(),
{
    if s.len() > 0 && is_whitespace(s[0]) {
        trim_start(s.drop_first())
    } else {
        s
    }
}

/// `s` without its trailing whitespace.
pub open spec fn trim_end(s: Seq<char>) -> Seq<char>
    decreases s.len(),
{
    if s.len() > 0 && is_whitespace(s.last()) {
        trim_end(s.drop_last())
    } else {
        s
    }
}

/// `s` without its leading and trailing whitespace.
pub open spec fn trim(s: Seq<char>) -> Seq<char> {
    trim_end(trim_start(s))
}

/// The position of the first `c` in `s`.
pub open spec fn first_index(s: Seq<char>, c: char) -> Option<int>
    decreases s.len(),
{
    if s.len() == 0 {
        None
    } else if s[0] == c {
        Some(0)
    } else {
        match first_index(s.drop_first(), c) {
            Some(k) => Some(k + 1),
            None => None,
        }
    }
}

/// What `first_index` returns: the least position holding `c`.
pub proof fn lemma_first_index(s: Seq<char>, c: char)
    ensures
        match first_index(s, c) {
            Some(k) => 0 <= k < s.len() && s[k] == c && forall|j: int| 0 <= j < k ==> s[j] != c,
            None => forall|j: int| 0 <= j < s.len() ==> s[j] != c,
        },
    decreases s.len(),
{
    if s.len() > 0 && s[0] != c {
        lemma_first_index(s.drop_first(), c);
        assert forall|j: int| 1 <= j < s.len() implies s[j] == s.drop_first()[j - 1] by {}
    }
}

/// The pieces of `s` between occurrences of `c`, as `str::split` with a
/// character pattern returns them.
pub open spec fn split_on(s: Seq<char>, c: char) -> Seq<Seq<char>>
    decreases s.len(),
{
    match first_index(s, c) {
        Some(k) => {
            proof {
                lemma_first_index(s, c);
            }
            seq![s.take(k)] + split_on(s.skip(k + 1), c)
        },
        None => seq![s],
    }
}

/// `l` without a final carriage return.
pub open spec fn strip_cr(l: Seq<char>) -> Seq<char> {
    if l.len() > 0 && l.last() == '\r' {
        l.drop_last()
    } else {
        l
    }
}

/// The lines of `s`, as `str::lines` returns them: split at `\n`, a `\r`
/// before the `\n` removed, and no empty line after a final `\n`.
pub open spec fn spec_lines(s: Seq<char>) -> Seq<Seq<char>>
    decreases s.len(),
{
    if s.len() == 0 {
        seq![]
    } else {
        match first_index(s, '\n') {
            Some(k) => {
                proof {
                    lemma_first_index(s, '\n');
                }
                seq![strip_cr(s.take(k))] + spec_lines(s.skip(k + 1))
            },
            None => seq![s],
        }
    }
}

/// The position of the first `c` in `v[lo..hi]`, counted from the start of `v`.
pub fn find_char(v: &Vec<char>, lo: usize, hi: usize, c: char) -> (r: Option<usize>)
    requires
        lo <= hi <= v@.len(),
    ensures
        match first_index(v@.subrange(lo as int, hi as int), c) {
            Some(k) => r == Some((lo + k) as usize),
            None => r is None,
        },
{
    let ghost s = v@.subrange(lo as int, hi as int);
    proof {
        lemma_first_index(s, c);
    }
    let mut i = lo;
    while i < hi
        invariant
            lo <= i <= hi <= v@.len(),
            s == v@.subrange(lo as int, hi as int),
            forall|j: int| lo <= j < i ==> v@[j] != c,
        decreases hi - i,
    {
        if v[i] == c {
            proof {
                lemma_first_index(s, c);
                assert(s[i - lo] == c);
                assert(forall|j: int| 0 <= j < i - lo ==> s[j] == v@[lo + j]);
                match first_index(s, c) {
                    Some(k) => {
                        if k < i - lo {
                            assert(s[k] == v@[lo + k]);
                        }
                        assert(k == i - lo);
                    },
                    None => {
                        assert(s[i - lo] != c);
                    },
                }
            }
            return Some(i);
        }
        i = i + 1;
    }
    assert(forall|j: int| 0 <= j < s.len() ==> s[j] == v@[lo + j]);
    None
}

/// The start of `v[lo..hi]` with leading whitespace skipped.
pub fn skip_whitespace(v: &Vec<char>, lo: usize, hi: usize) -> (r: usize)
    requires
        lo <= hi <= v@.len(),
    ensures
        lo <= r <= hi,
        v@.subrange(r as int, hi as int) == trim_start(v@.subrange(lo as int, hi as int)),
{
    let mut i = lo;
    while i < hi && is_whitespace_char(v[i])
        invariant
            lo <= i <= hi <= v@.len(),
            trim_start(v@.subrange(i as int, hi as int)) == trim_start(v@.subrange(lo as int, hi as int)),
        decreases hi - i,
    {
        assert(v@.subrange(i as int, hi as int).drop_first() =~= v@.subrange(i + 1, hi as int));
        i = i + 1;
    }
    i
}

/// The end of `v[lo..hi]` with trailing whitespace dropped.
pub fn skip_whitespace_back(v: &Vec<char>, lo: usize, hi: usize) -> (r: usize)
    requires
        lo <= hi <= v@.len(),
    ensures
        lo <= r <= hi,
        v@.subrange(lo as int, r as int) == trim_end(v@.subrange(lo as int, hi as int)),
{
    let mut i = hi;
    while i > lo && is_whitespace_char(v[i - 1])
        invariant
            lo <= i <= hi <= v@.len(),
            trim_end(v@.subrange(lo as int, i as int)) == trim_end(v@.subrange(lo as int, hi as int)),
        decreases i - lo,
    {
        assert(v@.subrange(lo as int, i as int).drop_last() =~= v@.subrange(lo as int, i - 1));
        i = i - 1;
    }
    i
}

/// The string `v[lo..hi]`.
pub fn string_of(v: &Vec<char>, lo: usize, hi: usize) -> (r: String)
    requires
        lo <= hi <= v@.len(),
    ensures
        r@ == v@.subrange(lo as int, hi as int),
{
    let mut r = String::new();
    let mut i = lo;
    while i < hi
        invariant
            lo <= i <= hi <= v@.len(),
            r@ == v@.subrange(lo as int, i as int),
        decreases hi - i,
    {
        push_char(&mut r, v[i]);
        assert(r@ =~= v@.subrange(lo as int, i + 1));
        i = i + 1;
    }
    r
}

/// One step of reading the lines of `v[pos..n]`: the first line and the rest.
pub proof fn lemma_lines_step(v: Seq<char>, pos: int, n: int)
    requires
        0 <= pos < n <= v.len(),
    ensures
        match first_index(v.subrange(pos, n), '\n') {
            Some(k) => pos + k < n && spec_lines(v.subrange(pos, n)) == seq![
                strip_cr(v.subrange(pos, pos + k)),
            ] + spec_lines(v.subrange(pos + k + 1, n)),
            None => spec_lines(v.subrange(pos, n)) == seq![v.subrange(pos, n)],
        },
{
    let s = v.subrange(pos, n);
    lemma_first_index(s, '\n');
    match first_index(s, '\n') {
        Some(k) => {
            assert(s.take(k) =~= v.subrange(pos, pos + k));
            assert(s.skip(k + 1) =~= v.subrange(pos + k + 1, n));
        },
        None => {},
    }
}

/// The lines of `source`, as `str::lines` returns them.
pub fn source_lines(source: &str) -> (r: Vec<String>)
    requires
        source@.len() < usize::MAX,
    ensures
        r@.len() == spec_lines(source@).len(),
        forall|i: int| 0 <= i < r@.len() ==> #[trigger] r@[i]@ == spec_lines(source@)[i],
{
    let v = chars_of(source);
    let n = v.len();
    let mut out: Vec<String> = Vec::new();
    let mut pos: usize = 0;
    let ghost mut done: Seq<Seq<char>> = seq![];
    assert(v@.subrange(0, n as int) =~= source@);
    while pos < n
        invariant
            n == v@.len(),
            v@ == source@,
            n < usize::MAX,
            pos <= n,
            out@.len() == done.len(),
            forall|i: int| 0 <= i < out@.len() ==> #[trigger] out@[i]@ == done[i],
            spec_lines(source@) == done + spec_lines(v@.subrange(pos as int, n as int)),
        decreases n - pos,
    {
        proof {
            lemma_lines_step(v@, pos as int, n as int);
            lemma_first_index(v@.subrange(pos as int, n as int), '\n');
        }
        let found = find_char(&v, pos, n, '\n');
        let (end, next) = match found {
            Some(k) => {
                if k > pos && v[k - 1] == '\r' {
                    assert(v@.subrange(pos as int, k - 1) =~= v@.subrange(pos as int, k as int).drop_last());
                    (k - 1, k + 1)
                } else {
                    (k, k + 1)
                }
            },
            None => (n, n),
        };
        let ghost line = v@.subrange(pos as int, end as int);
        assert(spec_lines(v@.subrange(pos as int, n as int)) =~= seq![line] + spec_lines(
            v@.subrange(next as int, n as int),
        ));
        let text = string_of(&v, pos, end);
        out.push(text);
        proof {
            done = done.push(line);
            assert(spec_lines(source@) =~= done + spec_lines(v@.subrange(next as int, n as int)));
        }
        pos = next;
    }
    proof {
        assert(v@.subrange(n as int, n as int) =~= Seq::<char>::empty());
        assert(spec_lines(source@) =~= done);
    }
    out
}

/// Calls `String::push`, which appends one character.
#[verifier::external_body]
pub fn push_char(s: &mut String, c: char)
    ensures
        final(s)@ == old(s)@.push(c),
{
    s.push(c);
}

/// The uppercase form of a string, per Unicode, as `str::to_uppercase`
/// returns it.
pub uninterp spec fn unicode_uppercase(s: Seq<char>) -> Seq<char>;

/// The uppercase form of an ASCII character.
pub open spec fn ascii_upper(c: char) -> char {
    if 'a' <= c && c <= 'z' {
        ((c as int) - 32) as char
    } else {
        c
    }
}

/// Calls `str::to_uppercase`. Its result is a function of the string
/// alone, named `unicode_uppercase`; on ASCII text it maps `a`..`z` to
/// `A`..`Z` and keeps every other character. The Unicode case mapping of
/// other characters is left unstated.
#[verifier::external_body]
pub fn to_uppercase(s: &str) -> (r: String)
    ensures
        r@ == unicode_uppercase(s@),
        (forall|i: int| 0 <= i < s@.len() ==> (s@[i] as int) < 128) ==> r@ == s@.map_values(
            |c: char| ascii_upper(c),
        ),
{
    s.to_uppercase()
}

} // verus!
