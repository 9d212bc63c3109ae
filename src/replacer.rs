//! Substituting a replacement for every occurrence of a query.

use vstd::prelude::*;

use crate::config::Config;
use crate::matcher::{matches_at, occurs, occurs_at, occurs_at_exec};
use crate::text::{append_chars, chars_of, lower_of, lowercase, string_of};

verus! {

/// Output of a left-to-right scan of `t` from position `i`, where `marks[j]`
/// says that an occurrence of length `m` starts at `j`: each occurrence met
/// is replaced by `r` and the scan resumes after it; every other char is
/// copied.
pub open spec fn replaced_from(t: Seq<char>, m: nat, r: Seq<char>, marks: Seq<bool>, i: nat) -> Seq<
    char,
>
    decreases t.len() - i,
{
    if i >= t.len() {
        Seq::empty()
    } else if 0 < m && i + m <= t.len() && marks[i as int] {
        r + replaced_from(t, m, r, marks, i + m)
    } else {
        seq![t[i as int]] + replaced_from(t, m, r, marks, i + 1)
    }
}

/// How many occurrences the scan of `replaced_from` replaces.
pub open spec fn count_from(t: Seq<char>, m: nat, marks: Seq<bool>, i: nat) -> nat
    decreases t.len() - i,
{
    if i >= t.len() {
        0
    } else if 0 < m && i + m <= t.len() && marks[i as int] {
        1 + count_from(t, m, marks, i + m)
    } else {
        count_from(t, m, marks, i + 1)
    }
}

/// The positions of `t` at which `q` starts under the case policy.
pub open spec fn match_marks(t: Seq<char>, q: Seq<char>, ignore_case: bool) -> Seq<bool> {
    Seq::new(t.len(), |j: int| matches_at(t, q, j, ignore_case))
}

/// `t` with every occurrence of `q`, found left to right without overlap in
/// the original text, replaced by `r`.
pub open spec fn replaced(t: Seq<char>, q: Seq<char>, r: Seq<char>, ignore_case: bool) -> Seq<char> {
    replaced_from(t, q.len(), r, match_marks(t, q, ignore_case), 0)
}

/// The number of occurrences that `replaced` substitutes.
pub open spec fn occurrences(t: Seq<char>, q: Seq<char>, ignore_case: bool) -> nat {
    count_from(t, q.len(), match_marks(t, q, ignore_case), 0)
}

/// Replaces, scanning `t` left to right, each marked occurrence of length
/// `m` by `r`, and counts them.
pub fn replace_marked(t: &Vec<char>, m: usize, r: &Vec<char>, marks: &Vec<bool>) -> (res: (
    usize,
    Vec<char>,
))
    requires
        marks@.len() == t@.len(),
    ensures
        res.0 == count_from(t@, m as nat, marks@, 0),
        res.1@ == replaced_from(t@, m as nat, r@, marks@, 0),
{
    let n: usize = t.len();
    let mut out: Vec<char> = Vec::new();
    let mut count: usize = 0;
    let mut i: usize = 0;
    while i < n
        invariant
            n == t@.len(),
            marks@.len() == n,
            i <= n,
            count <= i,
            out@ + replaced_from(t@, m as nat, r@, marks@, i as nat) == replaced_from(
                t@,
                m as nat,
                r@,
                marks@,
                0,
            ),
            count + count_from(t@, m as nat, marks@, i as nat) == count_from(t@, m as nat, marks@, 0),
        decreases n - i,
    {
        let ghost prev = out@;
        if 0 < m && m <= n - i && marks[i] {
            append_chars(&mut out, r);
            assert(prev + replaced_from(t@, m as nat, r@, marks@, i as nat) =~= out@
                + replaced_from(t@, m as nat, r@, marks@, (i + m) as nat));
            count = count + 1;
            i = i + m;
        } else {
            out.push(t[i]);
            assert(prev + replaced_from(t@, m as nat, r@, marks@, i as nat) =~= out@
                + replaced_from(t@, m as nat, r@, marks@, (i + 1) as nat));
            i = i + 1;
        }
    }
    assert(out@ + replaced_from(t@, m as nat, r@, marks@, i as nat) =~= out@);
    (count, out)
}

/// A scan replaces something exactly when some occurrence lies ahead of it.
proof fn lemma_count_positive(t: Seq<char>, m: nat, marks: Seq<bool>, i: nat)
    requires
        marks.len() == t.len(),
    ensures
        count_from(t, m, marks, i) > 0 <==> exists|j: int|
            i <= j && j + m <= t.len() && 0 < m && #[trigger] marks[j],
    decreases t.len() - i,
{
    if i >= t.len() {
        if exists|j: int| i <= j && j + m <= t.len() && 0 < m && #[trigger] marks[j] {
            let j = choose|j: int| i <= j && j + m <= t.len() && 0 < m && #[trigger] marks[j];
            assert(false);
        }
    } else if 0 < m && i + m <= t.len() && marks[i as int] {
    } else {
        lemma_count_positive(t, m, marks, i + 1);
        if exists|j: int| i <= j && j + m <= t.len() && 0 < m && #[trigger] marks[j] {
            let j = choose|j: int| i <= j && j + m <= t.len() && 0 < m && #[trigger] marks[j];
            assert(j != i);
        }
    }
}

/// Something is replaced exactly when the query occurs.
pub proof fn lemma_occurrences_positive(t: Seq<char>, q: Seq<char>, ignore_case: bool)
    requires
        q.len() > 0,
    ensures
        occurrences(t, q, ignore_case) > 0 <==> occurs(t, q, ignore_case),
{
    let marks = match_marks(t, q, ignore_case);
    lemma_count_positive(t, q.len(), marks, 0);
    if occurs(t, q, ignore_case) {
        let j = choose|j: int| matches_at(t, q, j, ignore_case);
        assert(marks[j]);
    }
    if occurrences(t, q, ignore_case) > 0 {
        let j = choose|j: int| 0 <= j && j + q.len() <= t.len() && 0 < q.len() && #[trigger] marks[j];
        assert(matches_at(t, q, j, ignore_case));
    }
}

/// The positions of `t` at which `q` stands, char for char.
fn exact_marks(t: &Vec<char>, q: &Vec<char>) -> (marks: Vec<bool>)
    ensures
        marks@ == match_marks(t@, q@, false),
{
    let n: usize = t.len();
    let mut marks: Vec<bool> = Vec::new();
    let mut i: usize = 0;
    while i < n
        invariant
            n == t@.len(),
            i <= n,
            marks@ =~= match_marks(t@, q@, false).subrange(0, i as int),
        decreases n - i,
    {
        let b = occurs_at_exec(t, q, i);
        marks.push(b);
        i = i + 1;
    }
    marks
}

/// The positions of `t` at which `q.len()` chars start whose lowercase form
/// is `lower_query`, the lowercase form of `q`.
fn folded_marks(t: &Vec<char>, q: &Vec<char>, lower_query: &String) -> (marks: Vec<bool>)
    requires
        lower_query@ == lower_of(q@),
    ensures
        marks@ == match_marks(t@, q@, true),
{
    let n: usize = t.len();
    let m: usize = q.len();
    let mut marks: Vec<bool> = Vec::new();
    let mut i: usize = 0;
    while i < n
        invariant
            n == t@.len(),
            m == q@.len(),
            i <= n,
            lower_query@ == lower_of(q@),
            marks@ =~= match_marks(t@, q@, true).subrange(0, i as int),
        decreases n - i,
    {
        let b = if m <= n - i {
            let window = string_of(t, i, i + m);
            let lower_window = lowercase(window.as_str());
            lower_window == *lower_query
        } else {
            false
        };
        marks.push(b);
        i = i + 1;
    }
    marks
}

/// Whether anything was replaced, and the replaced text: the text when at
/// least one occurrence of the query was found, empty otherwise.
pub open spec fn replace_result(t: Seq<char>, q: Seq<char>, r: Seq<char>, ignore_case: bool) -> (
    bool,
    Seq<char>,
) {
    if occurs(t, q, ignore_case) {
        (true, replaced(t, q, r, ignore_case))
    } else {
        (false, Seq::empty())
    }
}

/// Applies the marks of `q` in `t` and reports the outcome.
fn replace_with_marks(
    t: &Vec<char>,
    q: &Vec<char>,
    r: &Vec<char>,
    marks: &Vec<bool>,
    ignore_case: bool,
) -> (res: (bool, String))
    requires
        q@.len() > 0,
        marks@ == match_marks(t@, q@, ignore_case),
    ensures
        res.0 == replace_result(t@, q@, r@, ignore_case).0,
        res.1@ == replace_result(t@, q@, r@, ignore_case).1,
{
    let (count, out) = replace_marked(t, q.len(), r, marks);
    proof {
        lemma_occurrences_positive(t@, q@, ignore_case);
    }
    if count == 0 {
        (false, String::new())
    } else {
        (true, string_of(&out, 0, out.len()))
    }
}

/// Replaces every occurrence of the query that matches char for char.
/// Reports `false`, with an empty text, when there is none.
pub fn replace_case_sensitive(config: &Config, contents: &str) -> (res: (bool, String))
    requires
        config.wf(),
    ensures
        res.0 == replace_result(contents@, config.query@, config.replacement_text@, false).0,
        res.1@ == replace_result(contents@, config.query@, config.replacement_text@, false).1,
{
    let t = chars_of(contents);
    let q = chars_of(config.query.as_str());
    let r = chars_of(config.replacement_text.as_str());
    let marks = exact_marks(&t, &q);
    replace_with_marks(&t, &q, &r, &marks, false)
}

/// Replaces every occurrence of the query without regard to case: a window
/// of the text as long as the query matches when it lowercases to what the
/// query does. The text around the occurrences keeps its case, and the
/// replacement is put in as it is. Reports `false`, with an empty text, when
/// there is no occurrence.
pub fn replace_case_insensitive(config: &Config, contents_in: &str) -> (res: (bool, String))
    requires
        config.wf(),
    ensures
        res.0 == replace_result(contents_in@, config.query@, config.replacement_text@, true).0,
        res.1@ == replace_result(contents_in@, config.query@, config.replacement_text@, true).1,
{
    let t = chars_of(contents_in);
    let q = chars_of(config.query.as_str());
    let r = chars_of(config.replacement_text.as_str());
    let lower_query = lowercase(config.query.as_str());
    let marks = folded_marks(&t, &q, &lower_query);
    replace_with_marks(&t, &q, &r, &marks, true)
}

/// Replaces under the case policy of `config`.
pub fn text_replace(config: &Config, contents: &str) -> (res: (bool, String))
    requires
        config.wf(),
    ensures
        res.0 == replace_result(contents@, config.query@, config.replacement_text@, config.ignore_case).0,
        res.1@ == replace_result(contents@, config.query@, config.replacement_text@, config.ignore_case).1,
{
    if config.ignore_case {
        replace_case_insensitive(config, contents)
    } else {
        replace_case_sensitive(config, contents)
    }
}

} // verus!
