//! A small line-oriented substring search library: given a query and a text,
//! report the lines that contain the query, case-sensitively or
//! case-insensitively, together with their 1-based line numbers.  The crate
//! also resolves a run configuration from argument tokens and environment
//! defaults, decides which filesystem entries a directory walk visits, and
//! renders annotated result lines.

pub mod config;
pub mod render;
pub mod text;
pub mod utils;
pub mod walk;

use vstd::prelude::*;

verus! {

use crate::text::{spec_lines, spec_contains, lower_of};

/// The matches of `query` among `lines[i..]`: for every matching line its
/// 1-based line number paired with the line itself, in ascending order.
pub open spec fn matches_from(query: Seq<char>, lines: Seq<Seq<char>>, i: int) -> Seq<(int, Seq<char>)>
    decreases lines.len() - i,
{
    if i < 0 || i >= lines.len() {
        Seq::empty()
    } else {
        let rest = matches_from(query, lines, i + 1);
        if spec_contains(lines[i], query) {
            seq![(i + 1, lines[i])] + rest
        } else {
            rest
        }
    }
}

/// What a case-sensitive search returns: every line of `contents` that
/// contains `query`, with its 1-based line number.
pub open spec fn spec_search(query: Seq<char>, contents: Seq<char>) -> Seq<(int, Seq<char>)> {
    matches_from(query, spec_lines(contents), 0)
}

/// The case-insensitive matches of `query` among `lines[i..]`: a line matches
/// when its lowered form contains the lowered query.
pub open spec fn ci_matches_from(query: Seq<char>, lines: Seq<Seq<char>>, i: int) -> Seq<(int, Seq<char>)>
    decreases lines.len() - i,
{
    if i < 0 || i >= lines.len() {
        Seq::empty()
    } else {
        let rest = ci_matches_from(query, lines, i + 1);
        if spec_contains(lower_of(lines[i]), lower_of(query)) {
            seq![(i + 1, lines[i])] + rest
        } else {
            rest
        }
    }
}

/// What a case-insensitive search returns: every line of `contents` whose
/// lowered form contains the lowered `query`, with its 1-based line number.
pub open spec fn spec_search_ci(query: Seq<char>, contents: Seq<char>) -> Seq<(int, Seq<char>)> {
    ci_matches_from(query, spec_lines(contents), 0)
}

/// Case-sensitive line search: returns each line of `contents` that contains
/// `query`, paired with its 1-based line number, in line order.
pub fn search(query: &str, contents: &str) -> (r: Vec<(usize, String)>)
    ensures
        r@.len() == spec_search(query@, contents@).len(),
        forall|k: int| 0 <= k < r@.len() ==> #[trigger] r@[k].0 as int == spec_search(query@, contents@)[k].0
            && r@[k].1@ == spec_search(query@, contents@)[k].1,
{
    let lines = crate::text::split_lines(contents);
    let ghost ls = spec_lines(contents@);
    let mut r: Vec<(usize, String)> = Vec::new();
    let mut i: usize = 0;
    while i < lines.len()
        invariant
            ls == spec_lines(contents@),
            lines@.len() == ls.len(),
            forall|k: int| 0 <= k < ls.len() ==> #[trigger] lines@[k]@ == ls[k],
            i <= lines.len(),
            matches_from(query@, ls, 0) =~= spec_entries(r@) + matches_from(query@, ls, i as int),
            forall|k: int| 0 <= k < r@.len() ==> #[trigger] r@[k].0 <= i,
        decreases lines.len() - i,
    {
        if crate::text::contains_substr(lines[i].as_str(), query) {
            let line = lines[i].clone();
            r.push((i + 1, line));
            proof {
                assert(spec_entries(r@) =~= spec_entries(r@.drop_last()) + seq![(i + 1 as int, ls[i as int])]);
            }
        }
        i = i + 1;
    }
    proof {
        lemma_entries_index(r@);
    }
    r
}

/// Case-insensitive line search: returns each line of `contents` whose
/// lowered form contains the lowered `query`, paired with its 1-based line
/// number, in line order.  The returned line keeps its original casing.
pub fn search_case_insensitive(query: &str, contents: &str) -> (r: Vec<(usize, String)>)
    ensures
        r@.len() == spec_search_ci(query@, contents@).len(),
        forall|k: int| 0 <= k < r@.len() ==> #[trigger] r@[k].0 as int == spec_search_ci(query@, contents@)[k].0
            && r@[k].1@ == spec_search_ci(query@, contents@)[k].1,
{
    let lines = crate::text::split_lines(contents);
    let ghost ls = spec_lines(contents@);
    let lowered_query = crate::text::lowercase(query);
    let mut r: Vec<(usize, String)> = Vec::new();
    let mut i: usize = 0;
    while i < lines.len()
        invariant
            ls == spec_lines(contents@),
            lines@.len() == ls.len(),
            forall|k: int| 0 <= k < ls.len() ==> #[trigger] lines@[k]@ == ls[k],
            lowered_query@ == lower_of(query@),
            i <= lines.len(),
            ci_matches_from(query@, ls, 0) =~= spec_entries(r@) + ci_matches_from(query@, ls, i as int),
            forall|k: int| 0 <= k < r@.len() ==> #[trigger] r@[k].0 <= i,
        decreases lines.len() - i,
    {
        let lowered_line = crate::text::lowercase(lines[i].as_str());
        if crate::text::contains_substr(lowered_line.as_str(), lowered_query.as_str()) {
            let line = lines[i].clone();
            r.push((i + 1, line));
            proof {
                assert(spec_entries(r@) =~= spec_entries(r@.drop_last()) + seq![(i + 1 as int, ls[i as int])]);
            }
        }
        i = i + 1;
    }
    proof {
        lemma_entries_index(r@);
    }
    r
}

proof fn lemma_matches_from_props(query: Seq<char>, lines: Seq<Seq<char>>, i: int)
    requires
        0 <= i <= lines.len(),
    ensures
        forall|j: int|
            i <= j < lines.len() && spec_contains(#[trigger] lines[j], query) ==> matches_from(
                query,
                lines,
                i,
            ).contains((j + 1, lines[j])),
        forall|k: int|
            0 <= k < matches_from(query, lines, i).len() ==> i + 1 <= (#[trigger] matches_from(
                query,
                lines,
                i,
            )[k]).0 <= lines.len() && matches_from(query, lines, i)[k].1 == lines[matches_from(
                query,
                lines,
                i,
            )[k].0 - 1] && spec_contains(matches_from(query, lines, i)[k].1, query),
        forall|k1: int, k2: int|
            0 <= k1 < k2 < matches_from(query, lines, i).len() ==> (#[trigger] matches_from(
                query,
                lines,
                i,
            )[k1]).0 < (#[trigger] matches_from(query, lines, i)[k2]).0,
    decreases lines.len() - i,
{
    if i < lines.len() {
        lemma_matches_from_props(query, lines, i + 1);
        let m = matches_from(query, lines, i);
        let rest = matches_from(query, lines, i + 1);
        if spec_contains(lines[i], query) {
            assert(m == seq![(i + 1, lines[i])] + rest);
            assert forall|j: int|
                i <= j < lines.len() && spec_contains(#[trigger] lines[j], query) implies m.contains(
                (j + 1, lines[j]),
            ) by {
                if j == i {
                    assert(m[0] == (j + 1, lines[j]));
                } else {
                    assert(rest.contains((j + 1, lines[j])));
                    let k = choose|k: int| 0 <= k < rest.len() && rest[k] == (j + 1, lines[j]);
                    assert(m[k + 1] == (j + 1, lines[j]));
                }
            }
            assert forall|k: int| 0 <= k < m.len() implies i + 1 <= (#[trigger] m[k]).0
                <= lines.len() && m[k].1 == lines[m[k].0 - 1] && spec_contains(m[k].1, query) by {
                if k == 0 {
                    assert(m[0] == (i + 1, lines[i]));
                } else {
                    assert(m[k] == rest[k - 1]);
                }
            }
            assert forall|k1: int, k2: int| 0 <= k1 < k2 < m.len() implies (#[trigger] m[k1]).0
                < (#[trigger] m[k2]).0 by {
                assert(m[k2] == rest[k2 - 1]);
                if k1 == 0 {
                    assert(m[0].0 == i + 1);
                    assert(rest[k2 - 1].0 >= i + 2);
                } else {
                    assert(m[k1] == rest[k1 - 1]);
                }
            }
        } else {
            assert(m == rest);
        }
    }
}

/// Search finds exactly the matching lines: every line that contains the
/// query appears in the result under its 1-based line number, every result
/// entry is a line that contains the query under its correct number, the
/// results come in ascending line-number order, and a query contained in no
/// line gives an empty result.
pub proof fn lemma_search_finds_lines(query: Seq<char>, contents: Seq<char>)
    ensures
        forall|k1: int, k2: int|
            0 <= k1 < k2 < spec_search(query, contents).len() ==> (#[trigger] spec_search(
                query,
                contents,
            )[k1]).0 < (#[trigger] spec_search(query, contents)[k2]).0,
        forall|j: int|
            0 <= j < spec_lines(contents).len() && spec_contains(
                #[trigger] spec_lines(contents)[j],
                query,
            ) ==> spec_search(query, contents).contains((j + 1, spec_lines(contents)[j])),
        forall|k: int|
            0 <= k < spec_search(query, contents).len() ==> 1 <= (#[trigger] spec_search(
                query,
                contents,
            )[k]).0 <= spec_lines(contents).len() && spec_search(query, contents)[k].1
                == spec_lines(contents)[spec_search(query, contents)[k].0 - 1] && spec_contains(
                spec_search(query, contents)[k].1,
                query,
            ),
        (forall|j: int|
            0 <= j < spec_lines(contents).len() ==> !spec_contains(
                #[trigger] spec_lines(contents)[j],
                query,
            )) ==> spec_search(query, contents) =~= Seq::<(int, Seq<char>)>::empty(),
{
    lemma_matches_from_props(query, spec_lines(contents), 0);
    if forall|j: int|
        0 <= j < spec_lines(contents).len() ==> !spec_contains(
            #[trigger] spec_lines(contents)[j],
            query,
        ) {
        if spec_search(query, contents).len() > 0 {
            let e = spec_search(query, contents)[0];
            assert(spec_contains(spec_lines(contents)[e.0 - 1], query));
            assert(false);
        }
    }
}

proof fn lemma_ci_matches_from_props(query: Seq<char>, lines: Seq<Seq<char>>, i: int)
    requires
        0 <= i <= lines.len(),
    ensures
        forall|j: int|
            i <= j < lines.len() && spec_contains(lower_of(#[trigger] lines[j]), lower_of(query))
                ==> ci_matches_from(query, lines, i).contains((j + 1, lines[j])),
        forall|k: int|
            0 <= k < ci_matches_from(query, lines, i).len() ==> i + 1 <= (
            #[trigger] ci_matches_from(query, lines, i)[k]).0 <= lines.len() && ci_matches_from(
                query,
                lines,
                i,
            )[k].1 == lines[ci_matches_from(query, lines, i)[k].0 - 1] && spec_contains(
                lower_of(ci_matches_from(query, lines, i)[k].1),
                lower_of(query),
            ),
        forall|k1: int, k2: int|
            0 <= k1 < k2 < ci_matches_from(query, lines, i).len() ==> (#[trigger] ci_matches_from(
                query,
                lines,
                i,
            )[k1]).0 < (#[trigger] ci_matches_from(query, lines, i)[k2]).0,
    decreases lines.len() - i,
{
    if i < lines.len() {
        lemma_ci_matches_from_props(query, lines, i + 1);
        let m = ci_matches_from(query, lines, i);
        let rest = ci_matches_from(query, lines, i + 1);
        if spec_contains(lower_of(lines[i]), lower_of(query)) {
            assert(m == seq![(i + 1, lines[i])] + rest);
            assert forall|j: int|
                i <= j < lines.len() && spec_contains(
                    lower_of(#[trigger] lines[j]),
                    lower_of(query),
                ) implies m.contains((j + 1, lines[j])) by {
                if j == i {
                    assert(m[0] == (j + 1, lines[j]));
                } else {
                    assert(rest.contains((j + 1, lines[j])));
                    let k = choose|k: int| 0 <= k < rest.len() && rest[k] == (j + 1, lines[j]);
                    assert(m[k + 1] == (j + 1, lines[j]));
                }
            }
            assert forall|k: int| 0 <= k < m.len() implies i + 1 <= (#[trigger] m[k]).0
                <= lines.len() && m[k].1 == lines[m[k].0 - 1] && spec_contains(
                lower_of(m[k].1),
                lower_of(query),
            ) by {
                if k == 0 {
                    assert(m[0] == (i + 1, lines[i]));
                } else {
                    assert(m[k] == rest[k - 1]);
                }
            }
            assert forall|k1: int, k2: int| 0 <= k1 < k2 < m.len() implies (#[trigger] m[k1]).0
                < (#[trigger] m[k2]).0 by {
                assert(m[k2] == rest[k2 - 1]);
                if k1 == 0 {
                    assert(m[0].0 == i + 1);
                    assert(rest[k2 - 1].0 >= i + 2);
                } else {
                    assert(m[k1] == rest[k1 - 1]);
                }
            }
        } else {
            assert(m == rest);
        }
    }
}

/// Case-insensitive search finds exactly the lines whose lowered form
/// contains the lowered query: each such line appears in the result under
/// its 1-based line number and in its original casing, every result entry is
/// such a line under its correct number, and the results come in ascending
/// line-number order.
pub proof fn lemma_ci_search_finds_lines(query: Seq<char>, contents: Seq<char>)
    ensures
        forall|j: int|
            0 <= j < spec_lines(contents).len() && spec_contains(
                lower_of(#[trigger] spec_lines(contents)[j]),
                lower_of(query),
            ) ==> spec_search_ci(query, contents).contains((j + 1, spec_lines(contents)[j])),
        forall|k: int|
            0 <= k < spec_search_ci(query, contents).len() ==> 1 <= (#[trigger] spec_search_ci(
                query,
                contents,
            )[k]).0 <= spec_lines(contents).len() && spec_search_ci(query, contents)[k].1
                == spec_lines(contents)[spec_search_ci(query, contents)[k].0 - 1] && spec_contains(
                lower_of(spec_search_ci(query, contents)[k].1),
                lower_of(query),
            ),
        forall|k1: int, k2: int|
            0 <= k1 < k2 < spec_search_ci(query, contents).len() ==> (#[trigger] spec_search_ci(
                query,
                contents,
            )[k1]).0 < (#[trigger] spec_search_ci(query, contents)[k2]).0,
{
    lemma_ci_matches_from_props(query, spec_lines(contents), 0);
}

/// Each line lowered in place.
pub open spec fn lowered_lines(lines: Seq<Seq<char>>) -> Seq<Seq<char>> {
    lines.map_values(|l: Seq<char>| lower_of(l))
}

proof fn lemma_ci_vs_lowered_from(query: Seq<char>, lines: Seq<Seq<char>>, i: int)
    requires
        0 <= i <= lines.len(),
    ensures
        matches_from(lower_of(query), lowered_lines(lines), i).len() == ci_matches_from(
            query,
            lines,
            i,
        ).len(),
        forall|k: int|
            0 <= k < ci_matches_from(query, lines, i).len() ==> (#[trigger] matches_from(
                lower_of(query),
                lowered_lines(lines),
                i,
            )[k]).0 == ci_matches_from(query, lines, i)[k].0 && matches_from(
                lower_of(query),
                lowered_lines(lines),
                i,
            )[k].1 == lower_of(ci_matches_from(query, lines, i)[k].1),
    decreases lines.len() - i,
{
    let lo = lowered_lines(lines);
    let a = matches_from(lower_of(query), lo, i);
    let b = ci_matches_from(query, lines, i);
    if i < lines.len() {
        lemma_ci_vs_lowered_from(query, lines, i + 1);
        let ar = matches_from(lower_of(query), lo, i + 1);
        let br = ci_matches_from(query, lines, i + 1);
        assert(lo[i] == lower_of(lines[i]));
        if spec_contains(lower_of(lines[i]), lower_of(query)) {
            assert(a == seq![(i + 1, lo[i])] + ar);
            assert(b == seq![(i + 1, lines[i])] + br);
            assert forall|k: int| 0 <= k < b.len() implies (#[trigger] a[k]).0 == b[k].0 && a[k].1
                == lower_of(b[k].1) by {
                if k > 0 {
                    assert(a[k] == ar[k - 1]);
                    assert(b[k] == br[k - 1]);
                }
            }
        }
    }
}

/// Case-insensitive search agrees with case-sensitive search on the lowered
/// text: when lowering the whole text lowers each line in place (that is,
/// line boundaries are kept), both return the same line numbers, and each
/// line the case-sensitive search returns on the lowered text is the lowered
/// form of the line the case-insensitive search returns.
pub proof fn lemma_ci_search_is_search_on_lowered(query: Seq<char>, contents: Seq<char>)
    requires
        spec_lines(lower_of(contents)) == lowered_lines(spec_lines(contents)),
    ensures
        spec_search(lower_of(query), lower_of(contents)).len() == spec_search_ci(
            query,
            contents,
        ).len(),
        forall|k: int|
            0 <= k < spec_search_ci(query, contents).len() ==> (#[trigger] spec_search(
                lower_of(query),
                lower_of(contents),
            )[k]).0 == spec_search_ci(query, contents)[k].0 && spec_search(
                lower_of(query),
                lower_of(contents),
            )[k].1 == lower_of(spec_search_ci(query, contents)[k].1),
{
    lemma_ci_vs_lowered_from(query, spec_lines(contents), 0);
}

/// The entries of an executable result vector, lifted to the model level.
spec fn spec_entries(r: Seq<(usize, String)>) -> Seq<(int, Seq<char>)> {
    r.map_values(|e: (usize, String)| (e.0 as int, e.1@))
}

proof fn lemma_entries_index(r: Seq<(usize, String)>)
    ensures
        spec_entries(r).len() == r.len(),
        forall|k: int| 0 <= k < r.len() ==> #[trigger] spec_entries(r)[k] == (r[k].0 as int, r[k].1@),
{
}

} // verus!
