//! Text processing for the diagnostic readers: splitting logs into
//! lines, trimming, extracting recent project paths, filtering sound
//! files, and redacting API keys from exported configuration text.

use vstd::prelude::*;

use crate::codec::{
    json_parse, json_pretty, json_printable, lemma_printable_lookup, lemma_printable_str_arr,
    parse_json, to_pretty_checked,
};
use crate::json::{field_views, json_get, lemma_arr_view, lemma_obj_view, views_of, Json, JsonV};
use crate::text::{has_substring, matches_at, str_views};
use crate::LibError;

verus! {

/// The index of the first occurrence of `c` in `s`, or a negative
/// number when there is none.
pub open spec fn find_char(s: Seq<char>, c: char) -> int
    decreases s.len(),
{
    if s.len() == 0 {
        -1
    } else if s[0] == c {
        0
    } else {
        let r = find_char(s.drop_first(), c);
        if r < 0 {
            -1
        } else {
            r + 1
        }
    }
}

proof fn lemma_find_char_at(s: Seq<char>, c: char, i: int)
    requires
        0 <= i < s.len(),
        s[i] == c,
        forall|j: int| 0 <= j < i ==> s[j] != c,
    ensures
        find_char(s, c) == i,
    decreases i,
{
    if i > 0 {
        assert(s[0] != c);
        assert(s.drop_first()[i - 1] == s[i]);
        assert(forall|j: int| 0 <= j < i - 1 ==> s.drop_first()[j] == s[j + 1]);
        lemma_find_char_at(s.drop_first(), c, i - 1);
    }
}

proof fn lemma_find_char_none(s: Seq<char>, c: char)
    requires
        forall|j: int| 0 <= j < s.len() ==> s[j] != c,
    ensures
        find_char(s, c) < 0,
    decreases s.len(),
{
    if s.len() > 0 {
        assert(forall|j: int| 0 <= j < s.drop_first().len() ==> s.drop_first()[j] == s[j + 1]);
        lemma_find_char_none(s.drop_first(), c);
    }
}

proof fn lemma_find_char_found(s: Seq<char>, c: char)
    ensures
        find_char(s, c) >= 0 ==> 0 <= find_char(s, c) < s.len() && s[find_char(s, c)] == c,
    decreases s.len(),
{
    if s.len() > 0 && s[0] != c {
        lemma_find_char_found(s.drop_first(), c);
        assert(find_char(s, c) >= 0 ==> s.drop_first()[find_char(s.drop_first(), c)]
            == s[find_char(s.drop_first(), c) + 1]);
    }
}

/// A line with one trailing carriage return removed.
pub open spec fn strip_cr(p: Seq<char>) -> Seq<char> {
    if p.len() > 0 && p.last() == '\r' {
        p.drop_last()
    } else {
        p
    }
}

/// The lines of a text, as `str::lines` yields them: separated by
/// newlines, each without a trailing carriage return, with no empty
/// line for a trailing newline.
pub open spec fn lines_spec(s: Seq<char>) -> Seq<Seq<char>>
    decreases s.len(),
{
    if s.len() == 0 {
        Seq::empty()
    } else {
        let i = find_char(s, '\n');
        if 0 <= i < s.len() {
            seq![strip_cr(s.take(i))] + lines_spec(s.skip(i + 1))
        } else {
            seq![strip_cr(s)]
        }
    }
}

/// Split a text into its lines.
#[verifier::rlimit(100)]
#[verifier::loop_isolation(false)]
pub fn split_lines(s: &str) -> (r: Vec<String>)
    ensures
        str_views(r@) == lines_spec(s@),
{
    let n = s.unicode_len();
    let mut out: Vec<String> = Vec::new();
    let mut start: usize = 0;
    let mut i: usize = 0;
    proof {
        assert(s@.skip(0) =~= s@);
        assert(str_views(out@) + lines_spec(s@.skip(0)) =~= lines_spec(s@));
    }
    while i < n
        invariant
            0 <= start <= i <= n,
            n == s@.len(),
            str_views(out@) + lines_spec(s@.skip(start as int)) =~= lines_spec(s@),
            forall|j: int| start <= j < i ==> s@[j] != '\n',
        decreases n - i,
    {
        if s.get_char(i) == '\n' {
            let line: &str = if i > start && s.get_char(i - 1) == '\r' {
                s.substring_char(start, i - 1)
            } else {
                s.substring_char(start, i)
            };
            out.push(line.to_owned());
            proof {
                let rest = s@.skip(start as int);
                assert(forall|j: int| 0 <= j < i - start ==> rest[j] == s@[j + start]);
                lemma_find_char_at(rest, '\n', i - start);
                assert(rest.take(i - start) =~= s@.subrange(start as int, i as int));
                if i > start && s@[i - 1] == '\r' {
                    assert(strip_cr(rest.take(i - start)) =~= s@.subrange(
                        start as int,
                        i - 1,
                    ));
                } else {
                    assert(strip_cr(rest.take(i - start)) =~= s@.subrange(
                        start as int,
                        i as int,
                    ));
                }
                assert(rest.skip(i - start + 1) =~= s@.skip(i + 1));
                assert(str_views(out@) =~= str_views(out@.drop_last()).push(
                    out@.last()@,
                ));
                assert(str_views(out@) + lines_spec(s@.skip(i + 1)) =~= lines_spec(s@));
            }
            start = i + 1;
        }
        i = i + 1;
    }
    if start < n {
        let line: &str = if s.get_char(n - 1) == '\r' {
            s.substring_char(start, n - 1)
        } else {
            s.substring_char(start, n)
        };
        out.push(line.to_owned());
        proof {
            let rest = s@.skip(start as int);
            assert(forall|j: int| 0 <= j < rest.len() ==> rest[j] == s@[j + start]);
            lemma_find_char_none(rest, '\n');
            if s@[n - 1] == '\r' {
                assert(strip_cr(rest) =~= s@.subrange(start as int, n - 1));
            } else {
                assert(strip_cr(rest) =~= s@.subrange(start as int, n as int));
            }
            assert(lines_spec(rest) == seq![strip_cr(rest)]);
            assert(str_views(out@) =~= str_views(out@.drop_last()).push(out@.last()@));
            assert(str_views(out@) =~= lines_spec(s@));
        }
    } else {
        proof {
            assert(s@.skip(start as int) =~= Seq::<char>::empty());
            assert(str_views(out@) =~= lines_spec(s@));
        }
    }
    out
}

// ---------------------------------------------------------------------
// Trimming and marker extraction.
// ---------------------------------------------------------------------

/// An ASCII whitespace character.
pub open spec fn is_space(c: char) -> bool {
    c == ' ' || c == '\t' || c == '\r' || c == '\n'
}

/// The text without leading whitespace.
pub open spec fn trim_start_spec(s: Seq<char>) -> Seq<char>
    decreases s.len(),
{
    if s.len() > 0 && is_space(s[0]) {
        trim_start_spec(s.drop_first())
    } else {
        s
    }
}

/// The text without trailing whitespace.
pub open spec fn trim_end_spec(s: Seq<char>) -> Seq<char>
    decreases s.len(),
{
    if s.len() > 0 && is_space(s.last()) {
        trim_end_spec(s.drop_last())
    } else {
        s
    }
}

/// The text without surrounding whitespace.
pub open spec fn trim_spec(s: Seq<char>) -> Seq<char> {
    trim_end_spec(trim_start_spec(s))
}

proof fn lemma_trim_start_at(s: Seq<char>, a: int)
    requires
        0 <= a <= s.len(),
        forall|j: int| 0 <= j < a ==> is_space(s[j]),
        a < s.len() ==> !is_space(s[a]),
    ensures
        trim_start_spec(s) =~= s.skip(a),
    decreases a,
{
    if a == 0 {
        assert(s.skip(0) =~= s);
    } else {
        assert(is_space(s[0]));
        assert(forall|j: int| 0 <= j < s.drop_first().len() ==> s.drop_first()[j] == s[j + 1]);
        lemma_trim_start_at(s.drop_first(), a - 1);
        assert(s.drop_first().skip(a - 1) =~= s.skip(a));
    }
}

proof fn lemma_trim_end_at(s: Seq<char>, b: int)
    requires
        0 <= b <= s.len(),
        forall|j: int| b <= j < s.len() ==> is_space(s[j]),
        b > 0 ==> !is_space(s[b - 1]),
    ensures
        trim_end_spec(s) =~= s.take(b),
    decreases s.len() - b,
{
    if b == s.len() {
        assert(s.take(b) =~= s);
    } else {
        assert(is_space(s.last()));
        assert(forall|j: int| 0 <= j < s.drop_last().len() ==> s.drop_last()[j] == s[j]);
        lemma_trim_end_at(s.drop_last(), b);
        assert(s.drop_last().take(b) =~= s.take(b));
    }
}

fn is_space_exec(c: char) -> (r: bool)
    ensures
        r == is_space(c),
{
    c == ' ' || c == '\t' || c == '\r' || c == '\n'
}

/// Remove surrounding whitespace.
#[verifier::loop_isolation(false)]
pub fn trim(s: &str) -> (r: String)
    ensures
        r@ == trim_spec(s@),
{
    let n = s.unicode_len();
    let mut a: usize = 0;
    while a < n && is_space_exec(s.get_char(a))
        invariant
            0 <= a <= n,
            n == s@.len(),
            forall|j: int| 0 <= j < a ==> is_space(s@[j]),
        decreases n - a,
    {
        a = a + 1;
    }
    let mut b: usize = n;
    while b > a && is_space_exec(s.get_char(b - 1))
        invariant
            a <= b <= n,
            forall|j: int| b <= j < n ==> is_space(s@[j]),
        decreases b,
    {
        b = b - 1;
    }
    let r = s.substring_char(a, b).to_owned();
    proof {
        lemma_trim_start_at(s@, a as int);
        if b == a {
            assert(forall|j: int| 0 <= j < s@.skip(a as int).len() ==> s@.skip(a as int)[j]
                == s@[j + a]);
            lemma_trim_end_at(s@.skip(a as int), 0);
        } else {
            assert(!is_space(s@[b - 1]));
            assert(forall|j: int| 0 <= j < s@.skip(a as int).len() ==> s@.skip(a as int)[j]
                == s@[j + a]);
            lemma_trim_end_at(s@.skip(a as int), b - a);
        }
        assert(s@.skip(a as int).take(b - a) =~= s@.subrange(a as int, b as int));
        assert(r@ =~= trim_spec(s@));
    }
    r
}

/// The index of the first occurrence of `pat` in `s`, or a negative
/// number when there is none.
pub open spec fn first_match(s: Seq<char>, pat: Seq<char>) -> int
    decreases s.len(),
{
    if pat.len() == 0 {
        0
    } else if s.len() < pat.len() {
        -1
    } else if s.take(pat.len() as int) == pat {
        0
    } else {
        let r = first_match(s.drop_first(), pat);
        if r < 0 {
            -1
        } else {
            r + 1
        }
    }
}

proof fn lemma_first_match_at(s: Seq<char>, pat: Seq<char>, i: int)
    requires
        pat.len() > 0,
        matches_at(s, pat, i),
        forall|j: int| 0 <= j < i ==> !matches_at(s, pat, j),
    ensures
        first_match(s, pat) == i,
    decreases i,
{
    assert(s.take(pat.len() as int) == pat ==> matches_at(s, pat, 0)) by {
        if s.take(pat.len() as int) == pat {
            assert(s.subrange(0, pat.len() as int) =~= s.take(pat.len() as int));
        }
    }
    if i == 0 {
        assert(s.take(pat.len() as int) =~= s.subrange(0, pat.len() as int));
    } else {
        assert(!matches_at(s, pat, 0));
        assert(s.take(pat.len() as int) != pat);
        let d = s.drop_first();
        assert(forall|j: int| 0 <= j < d.len() ==> d[j] == s[j + 1]);
        assert(d.subrange(i - 1, i - 1 + pat.len() as int) =~= s.subrange(
            i,
            i + pat.len() as int,
        ));
        assert(matches_at(d, pat, i - 1));
        assert(forall|j: int| 0 <= j < i - 1 ==> !matches_at(d, pat, j)) by {
            assert forall|j: int| 0 <= j < i - 1 implies !matches_at(d, pat, j) by {
                assert(d.subrange(j, j + pat.len() as int) =~= s.subrange(
                    j + 1,
                    j + 1 + pat.len() as int,
                ));
                assert(!matches_at(s, pat, j + 1));
            }
        }
        lemma_first_match_at(d, pat, i - 1);
    }
}

proof fn lemma_first_match_none(s: Seq<char>, pat: Seq<char>)
    requires
        pat.len() > 0,
        !has_substring(s, pat),
    ensures
        first_match(s, pat) < 0,
    decreases s.len(),
{
    if s.len() >= pat.len() {
        assert(s.take(pat.len() as int) == pat ==> matches_at(s, pat, 0)) by {
            if s.take(pat.len() as int) == pat {
                assert(s.subrange(0, pat.len() as int) =~= s.take(pat.len() as int));
            }
        }
        let d = s.drop_first();
        assert(forall|k: int| 0 <= k < d.len() ==> d[k] == s[k + 1]);
        assert(!has_substring(d, pat)) by {
            assert forall|j: int| !matches_at(d, pat, j) by {
                if 0 <= j && j + pat.len() <= d.len() {
                    assert(d.subrange(j, j + pat.len() as int) =~= s.subrange(
                        j + 1,
                        j + 1 + pat.len() as int,
                    ));
                    assert(!matches_at(s, pat, j + 1));
                }
            }
        }
        lemma_first_match_none(d, pat);
    }
}

proof fn lemma_first_match_exists(s: Seq<char>, pat: Seq<char>)
    requires
        pat.len() > 0,
        has_substring(s, pat),
    ensures
        first_match(s, pat) >= 0,
    decreases s.len(),
{
    let i = choose|i: int| matches_at(s, pat, i);
    assert(s.len() >= pat.len());
    if s.take(pat.len() as int) == pat {
    } else {
        assert(i > 0) by {
            if i == 0 {
                assert(s.take(pat.len() as int) =~= s.subrange(0, pat.len() as int));
            }
        }
        let d = s.drop_first();
        assert(forall|k: int| 0 <= k < d.len() ==> d[k] == s[k + 1]);
        assert(d.subrange(i - 1, i - 1 + pat.len() as int) =~= s.subrange(
            i,
            i + pat.len() as int,
        ));
        assert(matches_at(d, pat, i - 1));
        lemma_first_match_exists(d, pat);
    }
}

/// The index of the first occurrence of `pat`, scanning forward.
#[verifier::loop_isolation(false)]
fn find_sub(s: &str, pat: &str) -> (r: Option<usize>)
    requires
        pat@.len() > 0,
    ensures
        match r {
            Some(i) => first_match(s@, pat@) == i,
            None => first_match(s@, pat@) < 0,
        },
{
    let n = s.unicode_len();
    let m = pat.unicode_len();
    if m > n {
        proof {
            assert(forall|j: int| !matches_at(s@, pat@, j));
            lemma_first_match_none(s@, pat@);
        }
        return None;
    }
    let mut i: usize = 0;
    while i <= n - m
        invariant
            n == s@.len(),
            m == pat@.len(),
            0 < m <= n,
            0 <= i <= n - m + 1,
            forall|j: int| 0 <= j < i ==> !matches_at(s@, pat@, j),
        decreases n - m - i + 1,
    {
        if crate::text::matches_at_exec(s, pat, i, n, m) {
            proof {
                lemma_first_match_at(s@, pat@, i as int);
            }
            return Some(i);
        }
        i = i + 1;
    }
    proof {
        assert(forall|j: int| matches_at(s@, pat@, j) ==> 0 <= j <= n - m);
        assert(!has_substring(s@, pat@));
        lemma_first_match_none(s@, pat@);
    }
    None
}

/// The segment between the first occurrence of `pat` and the next one
/// (or the end), as `split` yields it; empty where `pat` does not
/// occur.
pub open spec fn after_first(s: Seq<char>, pat: Seq<char>) -> Seq<char> {
    let i = first_match(s, pat);
    if i < 0 {
        Seq::empty()
    } else {
        let rest = s.skip(i + pat.len() as int);
        let j = first_match(rest, pat);
        if j < 0 {
            rest
        } else {
            rest.take(j)
        }
    }
}

/// The segment after the first occurrence of `pat`, up to the next
/// occurrence.
#[verifier::loop_isolation(false)]
fn split_after(s: &str, pat: &str) -> (r: Option<String>)
    requires
        pat@.len() > 0,
    ensures
        match r {
            Some(seg) => first_match(s@, pat@) >= 0 && seg@ == after_first(s@, pat@),
            None => first_match(s@, pat@) < 0,
        },
{
    let n = s.unicode_len();
    let m = pat.unicode_len();
    match find_sub(s, pat) {
        Some(i) => {
            proof {
                assert(matches_at(s@, pat@, first_match(s@, pat@))) by {
                    lemma_first_match_found(s@, pat@);
                }
            }
            let rest = s.substring_char(i + m, n);
            proof {
                lemma_first_match_found(rest@, pat@);
            }
            let seg = match find_sub(rest, pat) {
                Some(j) => rest.substring_char(0, j),
                None => rest,
            };
            proof {
                assert(rest@ == s@.skip(i + m));
                assert(rest@.take(first_match(rest@, pat@)) =~= rest@.subrange(
                    0,
                    first_match(rest@, pat@),
                ));
            }
            Some(seg.to_owned())
        },
        None => None,
    }
}

proof fn lemma_first_match_found(s: Seq<char>, pat: Seq<char>)
    requires
        pat.len() > 0,
    ensures
        first_match(s, pat) >= 0 ==> matches_at(s, pat, first_match(s, pat)),
    decreases s.len(),
{
    if s.len() >= pat.len() {
        if s.take(pat.len() as int) == pat {
            assert(s.subrange(0, pat.len() as int) =~= s.take(pat.len() as int));
        } else {
            let d = s.drop_first();
            assert(forall|k: int| 0 <= k < d.len() ==> d[k] == s[k + 1]);
            lemma_first_match_found(d, pat);
            let r = first_match(d, pat);
            if r >= 0 {
                assert(d.subrange(r, r + pat.len() as int) =~= s.subrange(
                    r + 1,
                    r + 1 + pat.len() as int,
                ));
            }
        }
    }
}

// ---------------------------------------------------------------------
// Recent projects.
// ---------------------------------------------------------------------

/// The project path a log line yields, if any: the text after a
/// "Working directory:" marker, or a line that is itself a path under
/// a development tree.
pub open spec fn project_of_line(l: Seq<char>) -> Option<Seq<char>> {
    if has_substring(l, "Working directory:"@) {
        Some(trim_spec(after_first(l, "Working directory:"@)))
    } else if l.len() > 0 && l[0] == '/' && has_substring(l, "Development"@) {
        Some(trim_spec(l))
    } else {
        None
    }
}

/// The project paths of a line sequence, in order.
pub open spec fn projects_of_lines(ls: Seq<Seq<char>>) -> Seq<Seq<char>>
    decreases ls.len(),
{
    if ls.len() == 0 {
        Seq::empty()
    } else {
        projects_of_lines(ls.drop_last()) + (match project_of_line(ls.last()) {
            Some(p) => seq![p],
            None => Seq::empty(),
        })
    }
}

/// The sequence with consecutive duplicates removed.
pub open spec fn dedup_spec(xs: Seq<Seq<char>>) -> Seq<Seq<char>>
    decreases xs.len(),
{
    if xs.len() <= 1 {
        xs
    } else if xs.last() == xs[xs.len() - 2] {
        dedup_spec(xs.drop_last())
    } else {
        dedup_spec(xs.drop_last()) + seq![xs.last()]
    }
}

/// At most the first `n` items.
pub open spec fn take_up_to(xs: Seq<Seq<char>>, n: int) -> Seq<Seq<char>> {
    if xs.len() <= n {
        xs
    } else {
        xs.take(n)
    }
}

proof fn lemma_dedup_last(xs: Seq<Seq<char>>)
    requires
        xs.len() > 0,
    ensures
        dedup_spec(xs).len() > 0,
        dedup_spec(xs).last() == xs.last(),
    decreases xs.len(),
{
    if xs.len() > 1 {
        lemma_dedup_last(xs.drop_last());
        if xs.last() == xs[xs.len() - 2] {
            assert(xs.drop_last().last() == xs[xs.len() - 2]);
        }
    }
}

/// The recent project paths a log text names: parsed line by line,
/// consecutive duplicates removed, at most ten.
#[verifier::loop_isolation(false)]
pub fn get_recent_projects(contents: &str) -> (r: Vec<String>)
    ensures
        str_views(r@) == take_up_to(
            dedup_spec(projects_of_lines(lines_spec(contents@))),
            10,
        ),
{
    let lines = split_lines(contents);
    let mut projects: Vec<String> = Vec::new();
    let mut i: usize = 0;
    proof {
        assert(lines_spec(contents@).take(0) =~= Seq::<Seq<char>>::empty());
        assert(str_views(projects@) =~= projects_of_lines(lines_spec(contents@).take(0)));
    }
    while i < lines.len()
        invariant
            0 <= i <= lines@.len(),
            str_views(lines@) == lines_spec(contents@),
            str_views(projects@) == projects_of_lines(lines_spec(contents@).take(i as int)),
        decreases lines@.len() - i,
    {
        let line = lines[i].as_str();
        proof {
            assert(line@ == lines_spec(contents@)[i as int]);
        }
        if crate::text::contains_sub(line, "Working directory:") {
            proof {
                reveal_strlit("Working directory:");
                assert("Working directory:"@.len() == 18);
            }
            match split_after(line, "Working directory:") {
                Some(seg) => {
                    let t = trim(seg.as_str());
                    projects.push(t);
                },
                None => {
                    proof {
                        lemma_first_match_exists(line@, "Working directory:"@);
                    }
                },
            }
        } else if line.unicode_len() > 0 && line.get_char(0) == '/' && crate::text::contains_sub(
            line,
            "Development",
        ) {
            let t = trim(line);
            projects.push(t);
        }
        i = i + 1;
        proof {
            let ls = lines_spec(contents@);
            assert(ls.take(i as int).drop_last() =~= ls.take(i - 1));
            assert(ls.take(i as int).last() == ls[i - 1]);
            assert(str_views(projects@) =~= projects_of_lines(ls.take(i as int)));
        }
    }
    proof {
        assert(lines_spec(contents@).take(lines@.len() as int) =~= lines_spec(contents@));
    }
    let mut deduped: Vec<String> = Vec::new();
    let mut k: usize = 0;
    proof {
        assert(str_views(projects@).take(0) =~= Seq::<Seq<char>>::empty());
        assert(str_views(deduped@) =~= dedup_spec(str_views(projects@).take(0)));
    }
    while k < projects.len()
        invariant
            0 <= k <= projects@.len(),
            str_views(deduped@) == dedup_spec(str_views(projects@).take(k as int)),
            k > 0 ==> deduped@.len() > 0 && deduped@.last()@ == projects@[k - 1]@,
        decreases projects@.len() - k,
    {
        let is_dup = k > 0 && crate::text::str_eq(
            deduped[deduped.len() - 1].as_str(),
            projects[k].as_str(),
        );
        if !is_dup {
            deduped.push(projects[k].clone());
        }
        k = k + 1;
        proof {
            let pv = str_views(projects@);
            assert(pv.take(k as int).drop_last() =~= pv.take(k - 1));
            assert(pv.take(k as int).last() == pv[k - 1]);
            if k > 1 {
                assert(pv.take(k as int)[k - 2] == pv[k - 2]);
            }
            assert(str_views(deduped@) =~= dedup_spec(pv.take(k as int)));
        }
    }
    proof {
        assert(str_views(projects@).take(projects@.len() as int) =~= str_views(projects@));
    }
    deduped.truncate(10);
    proof {
        if str_views(projects@).len() > 0 {
        }
        assert(str_views(deduped@) =~= take_up_to(
            dedup_spec(projects_of_lines(lines_spec(contents@))),
            10,
        ));
    }
    deduped
}

// ---------------------------------------------------------------------
// Sound file filtering.
// ---------------------------------------------------------------------

/// The index of the last occurrence of `c`, or a negative number.
pub open spec fn rfind_char(s: Seq<char>, c: char) -> int
    decreases s.len(),
{
    if s.len() == 0 {
        -1
    } else if s.last() == c {
        s.len() - 1
    } else {
        rfind_char(s.drop_last(), c)
    }
}

proof fn lemma_rfind_char_at(s: Seq<char>, c: char, i: int)
    requires
        0 <= i < s.len(),
        s[i] == c,
        forall|j: int| i < j < s.len() ==> s[j] != c,
    ensures
        rfind_char(s, c) == i,
    decreases s.len(),
{
    if i < s.len() - 1 {
        assert(s.last() != c);
        assert(forall|j: int| 0 <= j < s.drop_last().len() ==> s.drop_last()[j] == s[j]);
        lemma_rfind_char_at(s.drop_last(), c, i);
    }
}

proof fn lemma_rfind_char_none(s: Seq<char>, c: char)
    requires
        forall|j: int| 0 <= j < s.len() ==> s[j] != c,
    ensures
        rfind_char(s, c) < 0,
    decreases s.len(),
{
    if s.len() > 0 {
        assert(forall|j: int| 0 <= j < s.drop_last().len() ==> s.drop_last()[j] == s[j]);
        lemma_rfind_char_none(s.drop_last(), c);
    }
}

/// The index of the last occurrence of `c`.
#[verifier::loop_isolation(false)]
fn rfind_char_exec(s: &str, c: char) -> (r: Option<usize>)
    ensures
        match r {
            Some(i) => rfind_char(s@, c) == i && i < s@.len(),
            None => rfind_char(s@, c) < 0,
        },
{
    let n = s.unicode_len();
    let mut i: usize = n;
    while i > 0
        invariant
            0 <= i <= n,
            n == s@.len(),
            forall|j: int| i <= j < n ==> s@[j] != c,
        decreases i,
    {
        i = i - 1;
        if s.get_char(i) == c {
            proof {
                lemma_rfind_char_at(s@, c, i as int);
            }
            return Some(i);
        }
    }
    proof {
        lemma_rfind_char_none(s@, c);
    }
    None
}

/// The extension of a path's file name: the text after the last dot,
/// unless the dot starts the name.
pub open spec fn ext_of(path: Seq<char>) -> Option<Seq<char>> {
    let name = if rfind_char(path, '/') < 0 {
        path
    } else {
        path.skip(rfind_char(path, '/') + 1)
    };
    let d = rfind_char(name, '.');
    if d <= 0 {
        None
    } else {
        Some(name.skip(d + 1))
    }
}

/// Whether a path names a sound file this tool lists.
pub open spec fn sound_kept(path: Seq<char>) -> bool {
    match ext_of(path) {
        Some(e) => e == "aiff"@ || e == "wav"@ || e == "mp3"@,
        None => false,
    }
}

/// Whether the path's extension marks a sound file.
fn sound_kept_exec(path: &str) -> (r: bool)
    ensures
        r == sound_kept(path@),
{
    let n = path.unicode_len();
    let start: usize = match rfind_char_exec(path, '/') {
        Some(i) => i + 1,
        None => 0,
    };
    let name = path.substring_char(start, n);
    proof {
        if rfind_char(path@, '/') < 0 {
            assert(name@ =~= path@);
        } else {
            assert(name@ =~= path@.skip(rfind_char(path@, '/') + 1));
        }
    }
    match rfind_char_exec(name, '.') {
        Some(d) => {
            if d == 0 {
                false
            } else {
                let e = name.substring_char(d + 1, name.unicode_len());
                proof {
                    assert(e@ =~= name@.skip(d + 1));
                }
                crate::text::str_eq(e, "aiff") || crate::text::str_eq(e, "wav")
                    || crate::text::str_eq(e, "mp3")
            }
        },
        None => false,
    }
}

/// The entries of the custom sounds directory that are sound files,
/// in their listed order.
#[verifier::loop_isolation(false)]
pub fn list_custom_sounds(paths: &Vec<String>) -> (r: Vec<String>)
    ensures
        str_views(r@) == str_views(paths@).filter(|p: Seq<char>| sound_kept(p)),
{
    let mut out: Vec<String> = Vec::new();
    let mut i: usize = 0;
    proof {
        reveal_with_fuel(Seq::filter, 1);
        assert(str_views(paths@).take(0) =~= Seq::<Seq<char>>::empty());
        assert(str_views(out@) =~= str_views(paths@).take(0).filter(
            |p: Seq<char>| sound_kept(p),
        ));
    }
    while i < paths.len()
        invariant
            0 <= i <= paths@.len(),
            str_views(out@) == str_views(paths@).take(i as int).filter(
                |p: Seq<char>| sound_kept(p),
            ),
        decreases paths@.len() - i,
    {
        if sound_kept_exec(paths[i].as_str()) {
            out.push(paths[i].clone());
        }
        i = i + 1;
        proof {
            reveal_with_fuel(Seq::filter, 1);
            let pv = str_views(paths@);
            assert(pv.take(i as int).drop_last() =~= pv.take(i - 1));
            assert(pv.take(i as int).last() == pv[i - 1]);
            assert(pv[i - 1] == paths@[i - 1]@);
            assert(str_views(out@) =~= pv.take(i as int).filter(
                |p: Seq<char>| sound_kept(p),
            ));
        }
    }
    proof {
        assert(str_views(paths@).take(paths@.len() as int) =~= str_views(paths@));
    }
    out
}

/// The path without its trailing slashes.
pub open spec fn stripped_end(s: Seq<char>) -> Seq<char>
    decreases s.len(),
{
    if s.len() > 0 && s.last() == '/' {
        stripped_end(s.drop_last())
    } else {
        s
    }
}

proof fn lemma_stripped_end_at(s: Seq<char>, e: int)
    requires
        0 <= e <= s.len(),
        forall|j: int| e <= j < s.len() ==> s[j] == '/',
        e > 0 ==> s[e - 1] != '/',
    ensures
        stripped_end(s) =~= s.take(e),
    decreases s.len() - e,
{
    if e == s.len() {
        assert(s.take(e) =~= s);
    } else {
        assert(s.last() == '/');
        assert(forall|j: int| 0 <= j < s.drop_last().len() ==> s.drop_last()[j] == s[j]);
        lemma_stripped_end_at(s.drop_last(), e);
        assert(s.drop_last().take(e) =~= s.take(e));
    }
}

/// The file name of a path, as the original's path handling read it:
/// the segment after the last slash, trailing slashes ignored.
pub open spec fn file_name_of(path: Seq<char>) -> Seq<char> {
    let t = stripped_end(path);
    if rfind_char(t, '/') < 0 {
        t
    } else {
        t.skip(rfind_char(t, '/') + 1)
    }
}

/// Where an uploaded sound lands: the source's file name under the
/// custom sounds directory; nothing where the source path has no file
/// name (a bare root, or a parent-directory reference).
pub fn upload_sound_dest(home: &str, source_path: &str) -> (r: Option<String>)
    ensures
        match r {
            Some(p) => file_name_of(source_path@).len() > 0 && file_name_of(source_path@)
                != ".."@ && p@ == home@ + "/.assist/sounds/"@ + file_name_of(source_path@),
            None => file_name_of(source_path@).len() == 0 || file_name_of(source_path@)
                == ".."@,
        },
{
    let n = source_path.unicode_len();
    let mut e: usize = n;
    while e > 0 && source_path.get_char(e - 1) == '/'
        invariant
            0 <= e <= n,
            n == source_path@.len(),
            forall|j: int| e <= j < n ==> source_path@[j] == '/',
        decreases e,
    {
        e = e - 1;
    }
    proof {
        lemma_stripped_end_at(source_path@, e as int);
    }
    let mut start: usize = e;
    while start > 0 && source_path.get_char(start - 1) != '/'
        invariant
            0 <= start <= e,
            e <= n == source_path@.len(),
            forall|j: int| start <= j < e ==> source_path@[j] != '/',
        decreases start,
    {
        start = start - 1;
    }
    proof {
        let t = source_path@.take(e as int);
        assert(forall|j: int| 0 <= j < t.len() ==> t[j] == source_path@[j]);
        if start == 0 {
            lemma_rfind_char_none(t, '/');
            assert(file_name_of(source_path@) =~= t);
        } else {
            lemma_rfind_char_at(t, '/', start - 1);
            assert(file_name_of(source_path@) =~= t.skip(start as int));
        }
        assert(file_name_of(source_path@) =~= source_path@.subrange(start as int, e as int));
    }
    if start == e {
        return None;
    }
    let name = source_path.substring_char(start, e);
    if crate::text::str_eq(name, "..") {
        return None;
    }
    let p = home.to_owned().concat("/.assist/sounds/").concat(name);
    Some(p)
}

// ---------------------------------------------------------------------
// Exported configuration redaction and log tails.
// ---------------------------------------------------------------------

/// A configuration line with any API key value blanked out.
pub open spec fn sanitize_line(l: Seq<char>) -> Seq<char> {
    if has_substring(l, "api_key:"@) && find_char(l, ':') >= 0 {
        l.take(find_char(l, ':')) + ":  [REDACTED]"@
    } else {
        l
    }
}

/// Lines joined back with newlines.
pub open spec fn join_nl(ls: Seq<Seq<char>>) -> Seq<char>
    decreases ls.len(),
{
    if ls.len() == 0 {
        Seq::empty()
    } else if ls.len() == 1 {
        ls[0]
    } else {
        join_nl(ls.drop_last()) + "\n"@ + ls.last()
    }
}

/// Every line sanitized.
pub open spec fn sanitized_lines(ls: Seq<Seq<char>>) -> Seq<Seq<char>> {
    Seq::new(ls.len(), |i: int| sanitize_line(ls[i]))
}

/// The first `:` of the line.
#[verifier::loop_isolation(false)]
fn find_colon(s: &str) -> (r: Option<usize>)
    ensures
        match r {
            Some(i) => find_char(s@, ':') == i && i <= s@.len(),
            None => find_char(s@, ':') < 0,
        },
{
    let n = s.unicode_len();
    let mut i: usize = 0;
    while i < n
        invariant
            0 <= i <= n,
            n == s@.len(),
            forall|j: int| 0 <= j < i ==> s@[j] != ':',
        decreases n - i,
    {
        if s.get_char(i) == ':' {
            proof {
                lemma_find_char_at(s@, ':', i as int);
            }
            return Some(i);
        }
        i = i + 1;
    }
    proof {
        lemma_find_char_none(s@, ':');
    }
    None
}

/// Exported configuration text with API key values blanked out, line
/// by line.
#[verifier::loop_isolation(false)]
pub fn sanitize_config(contents: &str) -> (r: String)
    ensures
        r@ == join_nl(sanitized_lines(lines_spec(contents@))),
{
    let lines = split_lines(contents);
    let mut out = String::new();
    let mut i: usize = 0;
    proof {
        assert(sanitized_lines(str_views(lines@)).take(0) =~= Seq::<Seq<char>>::empty());
        assert(out@ =~= join_nl(sanitized_lines(str_views(lines@)).take(0)));
    }
    while i < lines.len()
        invariant
            0 <= i <= lines@.len(),
            str_views(lines@) == lines_spec(contents@),
            out@ == join_nl(sanitized_lines(str_views(lines@)).take(i as int)),
        decreases lines@.len() - i,
    {
        if i > 0 {
            out.append("\n");
        }
        let line = lines[i].as_str();
        if crate::text::contains_sub(line, "api_key:") {
            match find_colon(line) {
                Some(p) => {
                    let prefix = line.substring_char(0, p);
                    out.append(prefix);
                    out.append(":  [REDACTED]");
                    proof {
                        assert(prefix@ =~= line@.take(p as int));
                    }
                },
                None => {
                    out.append(line);
                },
            }
        } else {
            out.append(line);
        }
        i = i + 1;
        proof {
            let sl = sanitized_lines(str_views(lines@));
            assert(sl.take(i as int).drop_last() =~= sl.take(i - 1));
            assert(sl.take(i as int).last() == sl[i - 1]);
            assert(sl[i - 1] == sanitize_line(lines@[i - 1]@));
            assert(out@ =~= join_nl(sl.take(i as int)));
        }
    }
    proof {
        let sl = sanitized_lines(str_views(lines@));
        assert(sl.take(lines@.len() as int) =~= sl);
    }
    out
}

/// At most the last `n` items, in order.
pub open spec fn last_n(ls: Seq<Seq<char>>, n: int) -> Seq<Seq<char>> {
    if ls.len() <= n {
        ls
    } else {
        ls.skip(ls.len() - n)
    }
}

/// The last `n` lines of a log, in order.
#[verifier::loop_isolation(false)]
pub fn log_tail(contents: &str, n: usize) -> (r: Vec<String>)
    ensures
        str_views(r@) == last_n(lines_spec(contents@), n as int),
{
    let lines = split_lines(contents);
    let start: usize = if lines.len() > n {
        lines.len() - n
    } else {
        0
    };
    let mut out: Vec<String> = Vec::new();
    let mut i: usize = start;
    while i < lines.len()
        invariant
            start <= i <= lines@.len(),
            str_views(lines@) == lines_spec(contents@),
            out@.len() == i - start,
            forall|k: int| 0 <= k < out@.len() ==> out@[k]@ == lines@[start + k]@,
        decreases lines@.len() - i,
    {
        out.push(lines[i].clone());
        i = i + 1;
    }
    proof {
        assert(str_views(out@) =~= last_n(lines_spec(contents@), n as int));
    }
    out
}

// ---------------------------------------------------------------------
// The activity log.
// ---------------------------------------------------------------------

/// One entry of the activity log.
#[derive(Debug, Clone)]
pub struct ActivityEvent {
    pub timestamp: String,
    pub event: String,
    pub audio: bool,
    pub visual: bool,
    pub message: Option<String>,
    pub full_message: Option<String>,
    pub project: Option<String>,
}

/// An optional string field carries `o`: absent and `null` both mean
/// none.
pub open spec fn opt_str_matches(v: Option<JsonV>, o: Option<String>) -> bool {
    match v {
        None => o is None,
        Some(JsonV::Null) => o is None,
        Some(JsonV::Str(t)) => match o {
            Some(x) => x@ == t,
            None => false,
        },
        _ => false,
    }
}

/// An optional string field is absent, null or a string.
pub open spec fn opt_str_wf(v: Option<JsonV>) -> bool {
    match v {
        None => true,
        Some(JsonV::Null) => true,
        Some(JsonV::Str(_)) => true,
        _ => false,
    }
}

/// The event `e` carries the same data as the document `j`.
pub open spec fn event_matches(j: JsonV, e: ActivityEvent) -> bool {
    &&& json_get(j, "timestamp"@) == Some(JsonV::Str(e.timestamp@))
    &&& json_get(j, "event"@) == Some(JsonV::Str(e.event@))
    &&& json_get(j, "audio"@) == Some(JsonV::Bool(e.audio))
    &&& json_get(j, "visual"@) == Some(JsonV::Bool(e.visual))
    &&& opt_str_matches(json_get(j, "message"@), e.message)
    &&& opt_str_matches(json_get(j, "full_message"@), e.full_message)
    &&& opt_str_matches(json_get(j, "project"@), e.project)
}

/// The document has the shape of an activity entry.
pub open spec fn event_wf(j: JsonV) -> bool {
    &&& json_get(j, "timestamp"@) matches Some(JsonV::Str(_))
    &&& json_get(j, "event"@) matches Some(JsonV::Str(_))
    &&& json_get(j, "audio"@) matches Some(JsonV::Bool(_))
    &&& json_get(j, "visual"@) matches Some(JsonV::Bool(_))
    &&& opt_str_wf(json_get(j, "message"@))
    &&& opt_str_wf(json_get(j, "full_message"@))
    &&& opt_str_wf(json_get(j, "project"@))
}

fn get_opt_str(j: &Json, key: &str) -> (r: Result<Option<String>, ()>)
    ensures
        match r {
            Ok(o) => opt_str_matches(json_get(j@, key@), o),
            Err(_) => !opt_str_wf(json_get(j@, key@)),
        },
{
    match j.get(key) {
        None => Ok(None),
        Some(v) => match v {
            Json::Null => Ok(None),
            Json::Str(t) => Ok(Some(t.clone())),
            _ => Err(()),
        },
    }
}

fn json_to_event(j: &Json) -> (r: Option<ActivityEvent>)
    ensures
        match r {
            Some(e) => event_matches(j@, e),
            None => !event_wf(j@),
        },
{
    let timestamp = match j.get("timestamp") {
        Some(v) => match v {
            Json::Str(t) => t.clone(),
            _ => {
                return None;
            },
        },
        None => {
            return None;
        },
    };
    let event = match j.get("event") {
        Some(v) => match v {
            Json::Str(t) => t.clone(),
            _ => {
                return None;
            },
        },
        None => {
            return None;
        },
    };
    let audio = match j.get("audio") {
        Some(v) => match v {
            Json::Bool(b) => *b,
            _ => {
                return None;
            },
        },
        None => {
            return None;
        },
    };
    let visual = match j.get("visual") {
        Some(v) => match v {
            Json::Bool(b) => *b,
            _ => {
                return None;
            },
        },
        None => {
            return None;
        },
    };
    let message = match get_opt_str(j, "message") {
        Ok(o) => o,
        Err(_) => {
            return None;
        },
    };
    let full_message = match get_opt_str(j, "full_message") {
        Ok(o) => o,
        Err(_) => {
            return None;
        },
    };
    let project = match get_opt_str(j, "project") {
        Ok(o) => o,
        Err(_) => {
            return None;
        },
    };
    Some(ActivityEvent { timestamp, event, audio, visual, message, full_message, project })
}

/// Read the activity log: most recent entries first. A missing log is
/// an empty log; a log that is not a JSON array of entries is a parse
/// error.
#[verifier::loop_isolation(false)]
pub fn get_activity_log(content: Option<&str>) -> (r: Result<Vec<ActivityEvent>, LibError>)
    ensures
        content is None ==> (r matches Ok(v) && v@.len() == 0),
        content matches Some(text) ==> match json_parse(text@) {
            Some(doc) => if doc is Arr && (forall|k: int|
                0 <= k < doc->Arr_0.len() ==> event_wf(#[trigger] doc->Arr_0[k])) {
                (r matches Ok(v) && v@.len() == doc->Arr_0.len() && (forall|k: int|
                    0 <= k < v@.len() ==> event_matches(
                        doc->Arr_0[doc->Arr_0.len() - 1 - k],
                        #[trigger] v@[k],
                    )))
            } else {
                r == Err::<Vec<ActivityEvent>, LibError>(LibError::ParseError)
            },
            None => r == Err::<Vec<ActivityEvent>, LibError>(LibError::ParseError),
        },
{
    let text = match content {
        Some(t) => t,
        None => {
            return Ok(Vec::new());
        },
    };
    let doc = match parse_json(text) {
        Some(d) => d,
        None => {
            return Err(LibError::ParseError);
        },
    };
    match &doc {
        Json::Arr(items) => {
            proof {
                lemma_arr_view(*items);
            }
            let n = items.len();
            let mut out: Vec<ActivityEvent> = Vec::new();
            let mut k: usize = 0;
            while k < n
                invariant
                    0 <= k <= n,
                    n == items@.len(),
                    out@.len() == k,
                    forall|x: int| 0 <= x < k ==> event_wf(#[trigger] items@[n - 1 - x]@),
                    forall|x: int| 0 <= x < k ==> event_matches(
                        items@[n - 1 - x]@,
                        #[trigger] out@[x],
                    ),
                decreases n - k,
            {
                match json_to_event(&items[n - 1 - k]) {
                    Some(e) => {
                        out.push(e);
                    },
                    None => {
                        proof {
                            assert(!event_wf(doc@->Arr_0[n - 1 - k]));
                        }
                        return Err(LibError::ParseError);
                    },
                }
                k = k + 1;
            }
            proof {
                assert(forall|x: int| 0 <= x < n ==> doc@->Arr_0[x] == #[trigger] items@[x]@);
                assert forall|x: int| 0 <= x < n implies event_wf(#[trigger] doc@->Arr_0[x]) by {
                    let y = n - 1 - x;
                    assert(event_wf(items@[n - 1 - y]@));
                }
                assert forall|x: int| 0 <= x < n implies event_matches(
                    doc@->Arr_0[n - 1 - x],
                    #[trigger] out@[x],
                ) by {
                    assert(event_matches(items@[n - 1 - x]@, out@[x]));
                }
            }
            Ok(out)
        },
        _ => Err(LibError::ParseError),
    }
}

// ---------------------------------------------------------------------
// Diagnostics export.
// ---------------------------------------------------------------------

/// The last `n` elements of a value sequence, most recent first.
pub open spec fn rev_take(xs: Seq<JsonV>, n: int) -> Seq<JsonV> {
    Seq::new(if xs.len() <= n { xs.len() } else { n as nat }, |i: int| xs[xs.len() - 1 - i])
}

/// JSON string nodes for each text.
pub open spec fn seq_str_nodes(xs: Seq<Seq<char>>) -> Seq<JsonV> {
    Seq::new(xs.len(), |i: int| JsonV::Str(xs[i]))
}

/// The version and timestamp fields of the diagnostics report.
pub open spec fn diag_head(collected_at: Seq<char>) -> Seq<(Seq<char>, JsonV)> {
    seq![("app_version"@, JsonV::Str("1.0.0"@)), ("collected_at"@, JsonV::Str(collected_at))]
}

/// The system-version field, where the version could be read.
pub open spec fn diag_mac(macos_version: Option<Seq<char>>) -> Seq<(Seq<char>, JsonV)> {
    match macos_version {
        Some(v) => seq![("macos_version"@, JsonV::Str(trim_spec(v)))],
        None => Seq::empty(),
    }
}

/// The script and helper state fields.
pub open spec fn diag_state(
    smart_notify_exists: bool,
    smart_notify_executable: bool,
    system_tn_installed: bool,
    bundled_tn_exists: bool,
) -> Seq<(Seq<char>, JsonV)> {
    seq![
        (
            "scripts_installed"@,
            JsonV::Obj(
                seq![
                    ("smart_notify_exists"@, JsonV::Bool(smart_notify_exists)),
                    ("smart_notify_executable"@, JsonV::Bool(smart_notify_executable)),
                ],
            ),
        ),
        (
            "terminal_notifier"@,
            JsonV::Obj(
                seq![
                    ("system_installed"@, JsonV::Bool(system_tn_installed)),
                    ("bundled_exists"@, JsonV::Bool(bundled_tn_exists)),
                ],
            ),
        ),
    ]
}

/// The hook configuration field, where the settings file was readable.
pub open spec fn diag_settings(settings_content: Option<Seq<char>>) -> Seq<(Seq<char>, JsonV)> {
    match settings_content {
        Some(t) => match json_parse(t) {
            Some(doc) => seq![
                (
                    "hooks_configured"@,
                    match json_get(doc, "hooks"@) {
                        Some(h) => h,
                        None => JsonV::Obj(Seq::empty()),
                    },
                ),
            ],
            None => Seq::empty(),
        },
        None => Seq::empty(),
    }
}

/// The recent-activity field, where the activity log was a readable
/// array: its last ten entries, most recent first.
pub open spec fn diag_activity(activity_content: Option<Seq<char>>) -> Seq<(Seq<char>, JsonV)> {
    match activity_content {
        Some(t) => match json_parse(t) {
            Some(JsonV::Arr(xs)) => seq![("recent_activity"@, JsonV::Arr(rev_take(xs, 10)))],
            _ => Seq::empty(),
        },
        None => Seq::empty(),
    }
}

/// The hook-log tail field, where the log exists.
pub open spec fn diag_log(hook_log_content: Option<Seq<char>>) -> Seq<(Seq<char>, JsonV)> {
    match hook_log_content {
        Some(t) => seq![
            ("hook_execution_log"@, JsonV::Arr(seq_str_nodes(last_n(lines_spec(t), 50)))),
        ],
        None => Seq::empty(),
    }
}

/// The redacted configuration field, where the file exists.
pub open spec fn diag_config(config_content: Option<Seq<char>>) -> Seq<(Seq<char>, JsonV)> {
    match config_content {
        Some(t) => seq![("config_yaml"@, JsonV::Str(join_nl(sanitized_lines(lines_spec(t)))))],
        None => Seq::empty(),
    }
}

/// The diagnostics document: version and timestamp, script and helper
/// state, and — where the files are present and readable — the hook
/// configuration, recent activity, the hook log tail and the redacted
/// configuration text.
pub open spec fn diagnostics_spec(
    collected_at: Seq<char>,
    macos_version: Option<Seq<char>>,
    smart_notify_exists: bool,
    smart_notify_executable: bool,
    system_tn_installed: bool,
    bundled_tn_exists: bool,
    settings_content: Option<Seq<char>>,
    activity_content: Option<Seq<char>>,
    hook_log_content: Option<Seq<char>>,
    config_content: Option<Seq<char>>,
) -> JsonV {
    JsonV::Obj(
        diag_head(collected_at) + diag_mac(macos_version) + diag_state(
            smart_notify_exists,
            smart_notify_executable,
            system_tn_installed,
            bundled_tn_exists,
        ) + diag_settings(settings_content) + diag_activity(activity_content) + diag_log(
            hook_log_content,
        ) + diag_config(config_content),
    )
}

/// Object field groups with printable values concatenate to a
/// printable field list.
proof fn lemma_printable_fields_concat(
    a: Seq<(Seq<char>, JsonV)>,
    b: Seq<(Seq<char>, JsonV)>,
)
    requires
        forall|i: int| 0 <= i < a.len() ==> json_printable((#[trigger] a[i]).1),
        forall|i: int| 0 <= i < b.len() ==> json_printable((#[trigger] b[i]).1),
    ensures
        forall|i: int| 0 <= i < (a + b).len() ==> json_printable((#[trigger] (a + b)[i]).1),
{
    assert forall|i: int| 0 <= i < (a + b).len() implies json_printable(
        (#[trigger] (a + b)[i]).1,
    ) by {
        if i < a.len() {
            assert((a + b)[i] == a[i]);
        } else {
            assert((a + b)[i] == b[i - a.len()]);
        }
    }
}

proof fn lemma_diag_head_printable(collected_at: Seq<char>)
    ensures
        forall|i: int|
            0 <= i < diag_head(collected_at).len() ==> json_printable(
                (#[trigger] diag_head(collected_at)[i]).1,
            ),
{
}

proof fn lemma_diag_mac_printable(macos_version: Option<Seq<char>>)
    ensures
        forall|i: int|
            0 <= i < diag_mac(macos_version).len() ==> json_printable(
                (#[trigger] diag_mac(macos_version)[i]).1,
            ),
{
}

proof fn lemma_diag_state_printable(e1: bool, e2: bool, e3: bool, e4: bool)
    ensures
        forall|i: int|
            0 <= i < diag_state(e1, e2, e3, e4).len() ==> json_printable(
                (#[trigger] diag_state(e1, e2, e3, e4)[i]).1,
            ),
{
    assert forall|i: int| 0 <= i < diag_state(e1, e2, e3, e4).len() implies json_printable(
        (#[trigger] diag_state(e1, e2, e3, e4)[i]).1,
    ) by {
        let v = diag_state(e1, e2, e3, e4)[i].1;
        assert(forall|n: int|
            0 <= n < v->Obj_0.len() ==> json_printable((#[trigger] v->Obj_0[n]).1));
    }
}

proof fn lemma_diag_settings_printable(settings_content: Option<Seq<char>>)
    requires
        settings_content matches Some(t) ==> match json_parse(t) {
            Some(d) => json_printable(d),
            None => true,
        },
    ensures
        forall|i: int|
            0 <= i < diag_settings(settings_content).len() ==> json_printable(
                (#[trigger] diag_settings(settings_content)[i]).1,
            ),
{
    assert forall|i: int| 0 <= i < diag_settings(settings_content).len() implies json_printable(
        (#[trigger] diag_settings(settings_content)[i]).1,
    ) by {
        match settings_content {
            Some(t) => match json_parse(t) {
                Some(d) => {
                    if json_get(d, "hooks"@) is Some {
                        lemma_printable_lookup(d, "hooks"@);
                    }
                },
                None => {},
            },
            None => {},
        }
    }
}

proof fn lemma_diag_activity_printable(activity_content: Option<Seq<char>>)
    requires
        activity_content matches Some(t) ==> match json_parse(t) {
            Some(d) => json_printable(d),
            None => true,
        },
    ensures
        forall|i: int|
            0 <= i < diag_activity(activity_content).len() ==> json_printable(
                (#[trigger] diag_activity(activity_content)[i]).1,
            ),
{
    assert forall|i: int| 0 <= i < diag_activity(activity_content).len() implies json_printable(
        (#[trigger] diag_activity(activity_content)[i]).1,
    ) by {
        match activity_content {
            Some(t) => match json_parse(t) {
                Some(d) => match d {
                    JsonV::Arr(src) => {
                        assert forall|n: int|
                            0 <= n < rev_take(src, 10).len() implies json_printable(
                            #[trigger] rev_take(src, 10)[n],
                        ) by {
                            assert(rev_take(src, 10)[n] == src[src.len() - 1 - n]);
                        }
                    },
                    _ => {},
                },
                None => {},
            },
            None => {},
        }
    }
}

proof fn lemma_diag_log_printable(hook_log_content: Option<Seq<char>>)
    ensures
        forall|i: int|
            0 <= i < diag_log(hook_log_content).len() ==> json_printable(
                (#[trigger] diag_log(hook_log_content)[i]).1,
            ),
{
    assert forall|i: int| 0 <= i < diag_log(hook_log_content).len() implies json_printable(
        (#[trigger] diag_log(hook_log_content)[i]).1,
    ) by {
        match hook_log_content {
            Some(t) => {
                let nodes = seq_str_nodes(last_n(lines_spec(t), 50));
                assert(forall|n: int| 0 <= n < nodes.len() ==> (#[trigger] nodes[n]) is Str);
                lemma_printable_str_arr(nodes);
            },
            None => {},
        }
    }
}

proof fn lemma_diag_config_printable(config_content: Option<Seq<char>>)
    ensures
        forall|i: int|
            0 <= i < diag_config(config_content).len() ==> json_printable(
                (#[trigger] diag_config(config_content)[i]).1,
            ),
{
}

/// A diagnostics document is serializable: its own nodes are strings,
/// booleans and objects of those, and what it copies from parsed files
/// is printable because the parser only yields printable trees.
proof fn lemma_diagnostics_printable(
    collected_at: Seq<char>,
    macos_version: Option<Seq<char>>,
    smart_notify_exists: bool,
    smart_notify_executable: bool,
    system_tn_installed: bool,
    bundled_tn_exists: bool,
    settings_content: Option<Seq<char>>,
    activity_content: Option<Seq<char>>,
    hook_log_content: Option<Seq<char>>,
    config_content: Option<Seq<char>>,
)
    requires
        settings_content matches Some(t) ==> match json_parse(t) {
            Some(d) => json_printable(d),
            None => true,
        },
        activity_content matches Some(t) ==> match json_parse(t) {
            Some(d) => json_printable(d),
            None => true,
        },
    ensures
        json_printable(
            diagnostics_spec(
                collected_at,
                macos_version,
                smart_notify_exists,
                smart_notify_executable,
                system_tn_installed,
                bundled_tn_exists,
                settings_content,
                activity_content,
                hook_log_content,
                config_content,
            ),
        ),
{
    let s1 = diag_head(collected_at);
    let s2 = diag_mac(macos_version);
    let s3 = diag_state(
        smart_notify_exists,
        smart_notify_executable,
        system_tn_installed,
        bundled_tn_exists,
    );
    let s4 = diag_settings(settings_content);
    let s5 = diag_activity(activity_content);
    let s6 = diag_log(hook_log_content);
    let s7 = diag_config(config_content);
    lemma_diag_head_printable(collected_at);
    lemma_diag_mac_printable(macos_version);
    lemma_diag_state_printable(
        smart_notify_exists,
        smart_notify_executable,
        system_tn_installed,
        bundled_tn_exists,
    );
    lemma_diag_settings_printable(settings_content);
    lemma_diag_activity_printable(activity_content);
    lemma_diag_log_printable(hook_log_content);
    lemma_diag_config_printable(config_content);
    lemma_printable_fields_concat(s1, s2);
    lemma_printable_fields_concat(s1 + s2, s3);
    lemma_printable_fields_concat(s1 + s2 + s3, s4);
    lemma_printable_fields_concat(s1 + s2 + s3 + s4, s5);
    lemma_printable_fields_concat(s1 + s2 + s3 + s4 + s5, s6);
    lemma_printable_fields_concat(s1 + s2 + s3 + s4 + s5 + s6, s7);
}

/// Assemble the diagnostics report's fields from what the caller
/// gathered.
#[verifier::loop_isolation(false)]
#[verifier::rlimit(100)]
fn build_diagnostics_fields(
    collected_at: &str,
    macos_version: Option<&String>,
    smart_notify_exists: bool,
    smart_notify_executable: bool,
    system_tn_installed: bool,
    bundled_tn_exists: bool,
    settings_content: Option<&String>,
    activity_content: Option<&String>,
    hook_log_content: Option<&String>,
    config_content: Option<&String>,
) -> (r: Vec<(String, Json)>)
    ensures
        field_views(r@) == diagnostics_spec(
            collected_at@,
            match macos_version {
                Some(v) => Some(v@),
                None => None,
            },
            smart_notify_exists,
            smart_notify_executable,
            system_tn_installed,
            bundled_tn_exists,
            match settings_content {
                Some(t) => Some(t@),
                None => None,
            },
            match activity_content {
                Some(t) => Some(t@),
                None => None,
            },
            match hook_log_content {
                Some(t) => Some(t@),
                None => None,
            },
            match config_content {
                Some(t) => Some(t@),
                None => None,
            },
        )->Obj_0,
        settings_content matches Some(t) ==> match json_parse(t@) {
            Some(d) => json_printable(d),
            None => true,
        },
        activity_content matches Some(t) ==> match json_parse(t@) {
            Some(d) => json_printable(d),
            None => true,
        },
{
    let mut fields: Vec<(String, Json)> = Vec::new();
    fields.push(("app_version".to_owned(), Json::Str("1.0.0".to_owned())));
    fields.push(("collected_at".to_owned(), Json::Str(collected_at.to_owned())));
    let ghost seg_head = diag_head(collected_at@);
    proof {
        assert(field_views(fields@) =~= seg_head);
    }
    match macos_version {
        Some(v) => {
            let t = trim(v.as_str());
            fields.push(("macos_version".to_owned(), Json::Str(t)));
        },
        None => {},
    }
    let ghost seg_mac = seg_head + diag_mac(
        match macos_version {
            Some(v) => Some(v@),
            None => None,
        },
    );
    proof {
        assert(field_views(fields@) =~= seg_mac);
    }
    let mut scripts: Vec<(String, Json)> = Vec::new();
    scripts.push(("smart_notify_exists".to_owned(), Json::Bool(smart_notify_exists)));
    scripts.push(("smart_notify_executable".to_owned(), Json::Bool(smart_notify_executable)));
    proof {
        lemma_obj_view(scripts);
        assert(field_views(scripts@) =~= seq![
            ("smart_notify_exists"@, JsonV::Bool(smart_notify_exists)),
            ("smart_notify_executable"@, JsonV::Bool(smart_notify_executable)),
        ]);
    }
    fields.push(("scripts_installed".to_owned(), Json::Obj(scripts)));
    let mut tn: Vec<(String, Json)> = Vec::new();
    tn.push(("system_installed".to_owned(), Json::Bool(system_tn_installed)));
    tn.push(("bundled_exists".to_owned(), Json::Bool(bundled_tn_exists)));
    proof {
        lemma_obj_view(tn);
        assert(field_views(tn@) =~= seq![
            ("system_installed"@, JsonV::Bool(system_tn_installed)),
            ("bundled_exists"@, JsonV::Bool(bundled_tn_exists)),
        ]);
    }
    fields.push(("terminal_notifier".to_owned(), Json::Obj(tn)));
    let ghost seg_state = seg_mac + diag_state(
        smart_notify_exists,
        smart_notify_executable,
        system_tn_installed,
        bundled_tn_exists,
    );
    proof {
        assert(field_views(fields@) =~= seg_state);
    }
    match settings_content {
        Some(t) => match parse_json(t.as_str()) {
            Some(doc) => {
                let hooks: Json = match doc.get("hooks") {
                    Some(h) => h.deep_clone(),
                    None => {
                        let empty: Vec<(String, Json)> = Vec::new();
                        proof {
                            lemma_obj_view(empty);
                            assert(field_views(empty@) =~= Seq::<(Seq<char>, JsonV)>::empty());
                        }
                        Json::Obj(empty)
                    },
                };
                fields.push(("hooks_configured".to_owned(), hooks));
            },
            None => {},
        },
        None => {},
    }
    let ghost seg_settings = seg_state + diag_settings(
        match settings_content {
            Some(t) => Some(t@),
            None => None,
        },
    );
    proof {
        assert(field_views(fields@) =~= seg_settings);
    }
    match activity_content {
        Some(t) => match parse_json(t.as_str()) {
            Some(doc) => match &doc {
                Json::Arr(items) => {
                    proof {
                        lemma_arr_view(*items);
                    }
                    let n = items.len();
                    let count = if n > 10 {
                        10
                    } else {
                        n
                    };
                    let mut recent: Vec<Json> = Vec::new();
                    let mut k: usize = 0;
                    while k < count
                        invariant
                            0 <= k <= count,
                            count == if items@.len() > 10 { 10int } else { items@.len() as int },
                            n == items@.len(),
                            recent@.len() == k,
                            forall|x: int| 0 <= x < k ==> recent@[x]@ == items@[n - 1 - x]@,
                        decreases count - k,
                    {
                        recent.push(items[n - 1 - k].deep_clone());
                        k = k + 1;
                    }
                    proof {
                        lemma_arr_view(recent);
                        assert(views_of(recent@) =~= rev_take(views_of(items@), 10));
                    }
                    fields.push(("recent_activity".to_owned(), Json::Arr(recent)));
                },
                _ => {},
            },
            None => {},
        },
        None => {},
    }
    let ghost seg_activity = seg_settings + diag_activity(
        match activity_content {
            Some(t) => Some(t@),
            None => None,
        },
    );
    proof {
        assert(field_views(fields@) =~= seg_activity);
    }
    match hook_log_content {
        Some(t) => {
            let tail = log_tail(t.as_str(), 50);
            let mut nodes: Vec<Json> = Vec::new();
            let mut k: usize = 0;
            while k < tail.len()
                invariant
                    0 <= k <= tail@.len(),
                    nodes@.len() == k,
                    forall|x: int| 0 <= x < k ==> nodes@[x]@ == JsonV::Str(tail@[x]@),
                decreases tail@.len() - k,
            {
                nodes.push(Json::Str(tail[k].clone()));
                k = k + 1;
            }
            proof {
                lemma_arr_view(nodes);
                assert(views_of(nodes@) =~= seq_str_nodes(str_views(tail@)));
            }
            fields.push(("hook_execution_log".to_owned(), Json::Arr(nodes)));
        },
        None => {},
    }
    let ghost seg_log = seg_activity + diag_log(
        match hook_log_content {
            Some(t) => Some(t@),
            None => None,
        },
    );
    proof {
        assert(field_views(fields@) =~= seg_log);
    }
    match config_content {
        Some(t) => {
            let sanitized = sanitize_config(t.as_str());
            fields.push(("config_yaml".to_owned(), Json::Str(sanitized)));
        },
        None => {},
    }
    let ghost seg_cfg = seg_log + diag_config(
        match config_content {
            Some(t) => Some(t@),
            None => None,
        },
    );
    proof {
        assert(field_views(fields@) =~= seg_cfg);
    }
    fields
}

/// Assemble and serialize the diagnostics report from what the caller
/// gathered: the collection timestamp, the system version, the state
/// of the installed scripts and helper, and the raw contents of the
/// settings, activity log, hook log and configuration files where they
/// exist.
pub fn export_diagnostics(
    collected_at: &str,
    macos_version: Option<&String>,
    smart_notify_exists: bool,
    smart_notify_executable: bool,
    system_tn_installed: bool,
    bundled_tn_exists: bool,
    settings_content: Option<&String>,
    activity_content: Option<&String>,
    hook_log_content: Option<&String>,
    config_content: Option<&String>,
) -> (r: Result<String, LibError>)
    ensures
        r matches Ok(s) ==> s@ == json_pretty(
            diagnostics_spec(
                collected_at@,
                match macos_version {
                    Some(v) => Some(v@),
                    None => None,
                },
                smart_notify_exists,
                smart_notify_executable,
                system_tn_installed,
                bundled_tn_exists,
                match settings_content {
                    Some(t) => Some(t@),
                    None => None,
                },
                match activity_content {
                    Some(t) => Some(t@),
                    None => None,
                },
                match hook_log_content {
                    Some(t) => Some(t@),
                    None => None,
                },
                match config_content {
                    Some(t) => Some(t@),
                    None => None,
                },
            ),
        ),
        r is Ok,
{
    let fields = build_diagnostics_fields(
        collected_at,
        macos_version,
        smart_notify_exists,
        smart_notify_executable,
        system_tn_installed,
        bundled_tn_exists,
        settings_content,
        activity_content,
        hook_log_content,
        config_content,
    );
    proof {
        lemma_obj_view(fields);
        lemma_diagnostics_printable(
            collected_at@,
            match macos_version {
                Some(v) => Some(v@),
                None => None,
            },
            smart_notify_exists,
            smart_notify_executable,
            system_tn_installed,
            bundled_tn_exists,
            match settings_content {
                Some(t) => Some(t@),
                None => None,
            },
            match activity_content {
                Some(t) => Some(t@),
                None => None,
            },
            match hook_log_content {
                Some(t) => Some(t@),
                None => None,
            },
            match config_content {
                Some(t) => Some(t@),
                None => None,
            },
        );
    }
    let doc = Json::Obj(fields);
    Ok(to_pretty_checked(&doc))
}

} // verus!
