//! Locating a query in a text, and the lines of a text that hold it.

use vstd::prelude::*;

use crate::config::Config;
use crate::text::{chars_of, lower_of, lowercase, string_of};

verus! {

/// `q` stands in `t` at position `i`, char for char.
pub open spec fn occurs_at(t: Seq<char>, q: Seq<char>, i: int) -> bool {
    0 <= i && i + q.len() <= t.len() && t.subrange(i, i + q.len()) == q
}

/// The `q.len()` chars of `t` from position `i` lowercase to what `q` does.
pub open spec fn folded_at(t: Seq<char>, q: Seq<char>, i: int) -> bool {
    0 <= i && i + q.len() <= t.len() && lower_of(t.subrange(i, i + q.len())) == lower_of(q)
}

/// An occurrence of `q` starts at position `i` of `t` under the case policy.
pub open spec fn matches_at(t: Seq<char>, q: Seq<char>, i: int, ignore_case: bool) -> bool {
    if ignore_case {
        folded_at(t, q, i)
    } else {
        occurs_at(t, q, i)
    }
}

/// `t` holds `q` somewhere under the case policy.
pub open spec fn occurs(t: Seq<char>, q: Seq<char>, ignore_case: bool) -> bool {
    exists|i: int| matches_at(t, q, i, ignore_case)
}

/// `t` holds `q` as a contiguous part.
pub open spec fn contains(t: Seq<char>, q: Seq<char>) -> bool {
    exists|i: int| occurs_at(t, q, i)
}

/// Whether `q` stands in `t` at position `i`.
pub fn occurs_at_exec(t: &Vec<char>, q: &Vec<char>, i: usize) -> (r: bool)
    ensures
        r == occurs_at(t@, q@, i as int),
{
    if i > t.len() || q.len() > t.len() - i {
        return false;
    }
    let n: usize = t.len();
    let mut k: usize = 0;
    while k < q.len()
        invariant
            n == t@.len(),
            i + q@.len() <= t@.len(),
            k <= q@.len(),
            forall|j: int| 0 <= j < k ==> t@[i + j] == q@[j],
        decreases q@.len() - k,
    {
        if t[i + k] != q[k] {
            assert(t@.subrange(i as int, i + q@.len())[k as int] != q@[k as int]);
            return false;
        }
        k = k + 1;
    }
    assert(t@.subrange(i as int, i + q@.len()) =~= q@);
    true
}

/// Whether `q` stands anywhere in `t`.
pub fn contains_chars(t: &Vec<char>, q: &Vec<char>) -> (r: bool)
    ensures
        r == contains(t@, q@),
{
    if q.len() == 0 {
        assert(t@.subrange(0, 0) =~= q@);
        assert(occurs_at(t@, q@, 0));
        return true;
    }
    let n: usize = t.len();
    let mut i: usize = 0;
    while i < n
        invariant
            n == t@.len(),
            q@.len() > 0,
            forall|j: int| 0 <= j < i ==> !occurs_at(t@, q@, j),
        decreases n - i,
    {
        if occurs_at_exec(t, q, i) {
            return true;
        }
        i = i + 1;
    }
    assert forall|j: int| !occurs_at(t@, q@, j) by {
        if 0 <= j < i {
        }
    }
    false
}

/// A line that a line feed ends loses one carriage return before it.
pub open spec fn strip_cr(l: Seq<char>) -> Seq<char> {
    if l.len() > 0 && l.last() == '\r' {
        l.drop_last()
    } else {
        l
    }
}

/// The lines of `s` from the one that starts at `start`, which has been
/// scanned up to position `i`. A line ends at a line feed, which is not part
/// of it; a last line without one is still a line.
pub open spec fn lines_from(s: Seq<char>, start: nat, i: nat) -> Seq<Seq<char>>
    decreases s.len() - i,
{
    if i >= s.len() {
        if start < s.len() {
            seq![s.subrange(start as int, s.len() as int)]
        } else {
            Seq::empty()
        }
    } else if s[i as int] == '\n' {
        seq![strip_cr(s.subrange(start as int, i as int))] + lines_from(s, i + 1, i + 1)
    } else {
        lines_from(s, start, i + 1)
    }
}

/// The lines of `s`, in order.
pub open spec fn lines_of(s: Seq<char>) -> Seq<Seq<char>> {
    lines_from(s, 0, 0)
}

/// Line `l` holds the query `q` under the case policy: char for char, or,
/// ignoring case, the lowercase form of `l` holds that of `q`.
pub open spec fn line_matches(l: Seq<char>, q: Seq<char>, ignore_case: bool) -> bool {
    if ignore_case {
        contains(lower_of(l), lower_of(q))
    } else {
        contains(l, q)
    }
}

/// The lines of `s` that hold `q`, in their order and as they stand in `s`.
pub open spec fn matching_lines(s: Seq<char>, q: Seq<char>, ignore_case: bool) -> Seq<Seq<char>> {
    lines_of(s).filter(|l: Seq<char>| line_matches(l, q, ignore_case))
}

/// The chars of each string.
pub open spec fn views(v: Seq<String>) -> Seq<Seq<char>> {
    v.map_values(|l: String| l@)
}

/// Keeps `line` when it holds the query; `lower_query` is the lowercase form
/// of the query.
fn keep_line(line: &String, q: &Vec<char>, lower_query: &Vec<char>, ignore_case: bool) -> (r: bool)
    requires
        lower_query@ == lower_of(q@),
    ensures
        r == line_matches(line@, q@, ignore_case),
{
    if ignore_case {
        let lower_line = lowercase(line.as_str());
        let l = chars_of(lower_line.as_str());
        contains_chars(&l, lower_query)
    } else {
        let l = chars_of(line.as_str());
        contains_chars(&l, q)
    }
}

/// The lines of `contents` that hold `query` under the case policy.
fn search_lines(query: &str, contents: &str, ignore_case: bool) -> (r: Vec<String>)
    ensures
        views(r@) == matching_lines(contents@, query@, ignore_case),
{
    let ghost pred = |l: Seq<char>| line_matches(l, query@, ignore_case);
    let t = chars_of(contents);
    let q = chars_of(query);
    let lower_query_text = lowercase(query);
    let lower_query = chars_of(lower_query_text.as_str());
    let n: usize = t.len();
    let mut found: Vec<String> = Vec::new();
    let ghost mut done: Seq<Seq<char>> = Seq::empty();
    let mut start: usize = 0;
    let mut i: usize = 0;
    while i < n
        invariant
            n == t@.len(),
            t@ == contents@,
            q@ == query@,
            lower_query@ == lower_of(q@),
            start <= i <= n,
            pred == (|l: Seq<char>| line_matches(l, query@, ignore_case)),
            lines_of(t@) == done + lines_from(t@, start as nat, i as nat),
            views(found@) == done.filter(pred),
        decreases n - i,
    {
        if t[i] == '\n' {
            let end: usize = if start < i && t[i - 1] == '\r' {
                i - 1
            } else {
                i
            };
            let line = string_of(&t, start, end);
            assert(line@ == strip_cr(t@.subrange(start as int, i as int))) by {
                if start < i && t@[i - 1] == '\r' {
                    assert(t@.subrange(start as int, i as int).drop_last() =~= t@.subrange(
                        start as int,
                        i - 1,
                    ));
                }
            }
            let keep = keep_line(&line, &q, &lower_query, ignore_case);
            proof {
                let ghost prev = done;
                done = done.push(line@);
                assert(done.drop_last() == prev);
                reveal(Seq::filter);
                assert(prev + lines_from(t@, start as nat, i as nat) =~= done + lines_from(
                    t@,
                    (i + 1) as nat,
                    (i + 1) as nat,
                ));
            }
            if keep {
                let ghost before = found@;
                found.push(line);
                assert(views(found@) =~= views(before).push(found@.last()@));
            }
            start = i + 1;
        }
        i = i + 1;
    }
    if start < n {
        let line = string_of(&t, start, n);
        let keep = keep_line(&line, &q, &lower_query, ignore_case);
        proof {
            let ghost prev = done;
            done = done.push(line@);
            assert(done.drop_last() == prev);
            reveal(Seq::filter);
        }
        if keep {
            let ghost before = found@;
            found.push(line);
            assert(views(found@) =~= views(before).push(found@.last()@));
        }
    }
    assert(lines_of(t@) =~= done);
    found
}

/// The lines of `contents` that hold `query` char for char.
pub fn search_case_sensitive(query: &str, contents: &str) -> (r: Vec<String>)
    ensures
        views(r@) == matching_lines(contents@, query@, false),
{
    search_lines(query, contents, false)
}

/// The lines of `contents` whose lowercase form holds the lowercase form of
/// `query`, as they stand in `contents`.
pub fn search_case_insensitive(query: &str, contents: &str) -> (r: Vec<String>)
    ensures
        views(r@) == matching_lines(contents@, query@, true),
{
    search_lines(query, contents, true)
}

/// The lines of `contents` that hold the query under the case policy of
/// `config`, and whether there is any.
pub fn text_search(config: &Config, contents: &str) -> (res: (bool, Vec<String>))
    ensures
        views(res.1@) == matching_lines(contents@, config.query@, config.ignore_case),
        res.0 == (res.1@.len() > 0),
{
    let results = if config.ignore_case {
        search_case_insensitive(config.query.as_str(), contents)
    } else {
        search_case_sensitive(config.query.as_str(), contents)
    };
    let has_results = results.len() > 0;
    (has_results, results)
}

} // verus!
