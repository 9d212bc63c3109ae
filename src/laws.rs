//! Properties that relate the functions of the library.

use vstd::prelude::*;

use crate::config::Config;
use crate::driver::{new_contents_of, reported_lines};
use crate::matcher::{
    contains,
    line_matches,
    lines_from,
    lines_of,
    matching_lines,
    occurs,
    occurs_at,
    strip_cr,
};
use crate::replacer::{
    count_from,
    lemma_occurrences_positive,
    match_marks,
    occurrences,
    replace_result,
    replaced,
    replaced_from,
};

verus! {

/// Where the query does not occur, in either case policy, nothing is
/// replaced.
pub proof fn absent_query_changes_nothing(
    t: Seq<char>,
    q: Seq<char>,
    r: Seq<char>,
    ignore_case: bool,
)
    requires
        q.len() > 0,
        !occurs(t, q, ignore_case),
    ensures
        !replace_result(t, q, r, ignore_case).0,
{
}

proof fn lemma_replaced_from_length(t: Seq<char>, m: nat, r: Seq<char>, marks: Seq<bool>, i: nat)
    requires
        i <= t.len(),
        marks.len() == t.len(),
    ensures
        replaced_from(t, m, r, marks, i).len() + count_from(t, m, marks, i) * m == t.len() - i
            + count_from(t, m, marks, i) * r.len(),
    decreases t.len() - i,
{
    let len = replaced_from(t, m, r, marks, i).len() as int;
    let count = count_from(t, m, marks, i) as int;
    if i >= t.len() {
        assert(count * m == 0 && count * r.len() == 0);
    } else if 0 < m && i + m <= t.len() && marks[i as int] {
        lemma_replaced_from_length(t, m, r, marks, i + m);
        let len2 = replaced_from(t, m, r, marks, i + m).len() as int;
        let c = count_from(t, m, marks, i + m) as int;
        assert(count == 1 + c);
        assert(len == r.len() + len2);
        assert(len + count * m == t.len() - i + count * r.len()) by (nonlinear_arith)
            requires
                count == 1 + c,
                len == r.len() + len2,
                len2 + c * m == t.len() - (i + m) + c * r.len(),
        ;
    } else {
        lemma_replaced_from_length(t, m, r, marks, i + 1);
        assert(len == 1 + replaced_from(t, m, r, marks, i + 1).len());
        assert(count == count_from(t, m, marks, i + 1));
    }
}

/// Each replaced occurrence takes out the query's length and puts in the
/// replacement's: the replaced text is `|t| - k|q| + k|r|` long, where `k`
/// is the number of occurrences.
pub proof fn replaced_length(t: Seq<char>, q: Seq<char>, r: Seq<char>, ignore_case: bool)
    ensures
        replaced(t, q, r, ignore_case).len() == t.len() - occurrences(t, q, ignore_case) * q.len()
            + occurrences(t, q, ignore_case) * r.len(),
{
    lemma_replaced_from_length(t, q.len(), r, match_marks(t, q, ignore_case), 0);
}

proof fn lemma_replaced_from_holds_replacement(
    t: Seq<char>,
    m: nat,
    r: Seq<char>,
    marks: Seq<bool>,
    i: nat,
)
    requires
        count_from(t, m, marks, i) > 0,
    ensures
        contains(replaced_from(t, m, r, marks, i), r),
    decreases t.len() - i,
{
    let out = replaced_from(t, m, r, marks, i);
    if i >= t.len() {
    } else if 0 < m && i + m <= t.len() && marks[i as int] {
        assert(out.subrange(0, r.len() as int) =~= r);
        assert(occurs_at(out, r, 0));
    } else {
        lemma_replaced_from_holds_replacement(t, m, r, marks, i + 1);
        let rest = replaced_from(t, m, r, marks, i + 1);
        let p = choose|p: int| occurs_at(rest, r, p);
        assert(out.subrange(p + 1, p + 1 + r.len()) =~= rest.subrange(p, p + r.len()));
        assert(occurs_at(out, r, p + 1));
    }
}

proof fn lemma_line_holds(s: Seq<char>, r: Seq<char>, p: int, start: nat, i: nat)
    requires
        occurs_at(s, r, p),
        r.len() > 0,
        forall|k: int| 0 <= k < r.len() ==> r[k] != '\n',
        r.last() != '\r',
        start <= p,
        start <= i,
        forall|k: int| start <= k < i ==> s[k] != '\n',
    ensures
        exists|k: int|
            0 <= k < lines_from(s, start, i).len() && contains(
                #[trigger] lines_from(s, start, i)[k],
                r,
            ),
    decreases s.len() - i,
{
    let lines = lines_from(s, start, i);
    if i >= s.len() {
        let l = s.subrange(start as int, s.len() as int);
        assert(l.subrange(p - start, p - start + r.len()) =~= r);
        assert(occurs_at(l, r, p - start));
        assert(contains(lines[0], r));
    } else if s[i as int] == '\n' {
        if i < p {
            lemma_line_holds(s, r, p, i + 1, i + 1);
            let rest = lines_from(s, i + 1, i + 1);
            let k = choose|k: int| 0 <= k < rest.len() && contains(#[trigger] rest[k], r);
            assert(lines[k + 1] == rest[k]);
        } else {
            if i < p + r.len() {
                assert(s.subrange(p, p + r.len())[i - p] == r[i - p]);
            }
            let whole = s.subrange(start as int, i as int);
            let l = strip_cr(whole);
            if p + r.len() == i {
                assert(whole.last() == s.subrange(p, p + r.len())[r.len() - 1]);
            }
            assert(l.len() >= p + r.len() - start);
            assert(l.subrange(p - start, p - start + r.len()) =~= r);
            assert(occurs_at(l, r, p - start));
            assert(lines[0] == l);
        }
    } else {
        lemma_line_holds(s, r, p, start, i + 1);
    }
}

/// Once the query has been replaced, a case-sensitive search for the
/// replacement finds it on some line of the output. The replacement must be
/// non-empty and fit on one line: it holds no line feed and does not end
/// with a carriage return.
pub proof fn replacement_is_found(t: Seq<char>, q: Seq<char>, r: Seq<char>, ignore_case: bool)
    requires
        q.len() > 0,
        occurs(t, q, ignore_case),
        r.len() > 0,
        forall|k: int| 0 <= k < r.len() ==> r[k] != '\n',
        r.last() != '\r',
    ensures
        matching_lines(replace_result(t, q, r, ignore_case).1, r, false).len() > 0,
{
    lemma_occurrences_positive(t, q, ignore_case);
    let marks = match_marks(t, q, ignore_case);
    lemma_replaced_from_holds_replacement(t, q.len(), r, marks, 0);
    let out = replaced(t, q, r, ignore_case);
    let p = choose|p: int| occurs_at(out, r, p);
    lemma_line_holds(out, r, p, 0, 0);
    let lines = lines_of(out);
    let k = choose|k: int| 0 <= k < lines.len() && contains(#[trigger] lines[k], r);
    let pred = |l: Seq<char>| line_matches(l, r, false);
    assert(pred(lines[k]));
    lines.lemma_filter_contains(pred, k);
    let j = choose|j: int| 0 <= j < lines.filter(pred).len() && lines.filter(pred)[j] == lines[k];
}

/// Searching is a function of its inputs: two searches of the same text for
/// the same query under the same policy report the same lines, in the same
/// order.
pub proof fn search_is_repeatable(
    s: Seq<char>,
    q: Seq<char>,
    ignore_case: bool,
    first: Seq<Seq<char>>,
    second: Seq<Seq<char>>,
)
    requires
        first == matching_lines(s, q, ignore_case),
        second == matching_lines(s, q, ignore_case),
    ensures
        first == second,
{
}

/// A dry run never calls for a write, and reports the same lines as a run
/// that replaces.
pub proof fn dry_run_writes_nothing(dry: Config, live: Config, contents: Seq<char>)
    requires
        !dry.operation_replace,
        live.operation_replace,
        dry.query@ == live.query@,
        dry.replacement_text@ == live.replacement_text@,
        dry.ignore_case == live.ignore_case,
    ensures
        new_contents_of(dry, contents) is None,
        reported_lines(dry, contents) == reported_lines(live, contents),
{
}

} // verus!
