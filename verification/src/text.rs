//! Text primitives: splitting a buffer into lines (CR, LF and CRLF all act
//! as separators, and an unterminated final line is still a line), substring
//! containment, and lowercasing.

use vstd::prelude::*;
use vstd::string::{StrSliceExecFns, StringExecFns};

verus! {

/// A character that ends a line.
pub open spec fn is_line_break(c: char) -> bool {
    c == '\n' || c == '\r'
}

/// The lines of a text: CR, LF and CRLF are all line separators, a CRLF pair
/// counts as a single separator, an unterminated final line is still a line,
/// and a trailing separator does not open an empty final line.
pub open spec fn spec_lines(s: Seq<char>) -> Seq<Seq<char>>
    decreases s.len(),
{
    if s.len() == 0 {
        Seq::empty()
    } else if s[0] == '\n' {
        seq![Seq::empty()] + spec_lines(s.skip(1))
    } else if s[0] == '\r' {
        if s.len() >= 2 && s[1] == '\n' {
            seq![Seq::empty()] + spec_lines(s.skip(2))
        } else {
            seq![Seq::empty()] + spec_lines(s.skip(1))
        }
    } else {
        let rest = spec_lines(s.skip(1));
        if rest.len() == 0 {
            seq![seq![s[0]]]
        } else {
            seq![seq![s[0]] + rest[0]] + rest.skip(1)
        }
    }
}

/// A text without line breaks is one line (or none, when it is empty).
pub proof fn lemma_lines_unbroken(s: Seq<char>)
    requires
        forall|k: int| 0 <= k < s.len() ==> !is_line_break(#[trigger] s[k]),
    ensures
        s.len() == 0 ==> spec_lines(s) =~= Seq::<Seq<char>>::empty(),
        s.len() > 0 ==> spec_lines(s) =~~= seq![s],
    decreases s.len(),
{
    if s.len() > 0 {
        assert(!is_line_break(s[0]));
        lemma_lines_unbroken(s.skip(1));
        if s.len() == 1 {
            assert(spec_lines(s) =~~= seq![s]);
        } else {
            assert(spec_lines(s) =~~= seq![seq![s[0]] + s.skip(1)]);
            assert(seq![s[0]] + s.skip(1) =~= s);
        }
    }
}

/// A break-free prefix closed by an LF separator contributes exactly one line.
pub proof fn lemma_lines_lf(cur: Seq<char>, rest: Seq<char>)
    requires
        forall|k: int| 0 <= k < cur.len() ==> !is_line_break(#[trigger] cur[k]),
    ensures
        spec_lines(cur + seq!['\n'] + rest) =~~= seq![cur] + spec_lines(rest),
    decreases cur.len(),
{
    let s = cur + seq!['\n'] + rest;
    if cur.len() == 0 {
        assert(s =~= seq!['\n'] + rest);
        assert(s.skip(1) =~= rest);
    } else {
        assert(!is_line_break(cur[0]));
        lemma_lines_lf(cur.skip(1), rest);
        assert(s.skip(1) =~= cur.skip(1) + seq!['\n'] + rest);
        let inner = seq![cur.skip(1)] + spec_lines(rest);
        assert(spec_lines(s.skip(1)) =~~= inner);
        assert(inner.len() > 0);
        assert(spec_lines(s) =~~= seq![seq![s[0]] + inner[0]] + inner.skip(1));
        assert(seq![s[0]] + cur.skip(1) =~= cur);
        assert(inner.skip(1) =~= spec_lines(rest));
    }
}

/// A break-free prefix closed by a CRLF separator contributes exactly one line.
pub proof fn lemma_lines_crlf(cur: Seq<char>, rest: Seq<char>)
    requires
        forall|k: int| 0 <= k < cur.len() ==> !is_line_break(#[trigger] cur[k]),
    ensures
        spec_lines(cur + seq!['\r', '\n'] + rest) =~~= seq![cur] + spec_lines(rest),
    decreases cur.len(),
{
    let s = cur + seq!['\r', '\n'] + rest;
    if cur.len() == 0 {
        assert(s =~= seq!['\r', '\n'] + rest);
        assert(s[0] == '\r' && s.len() >= 2 && s[1] == '\n');
        assert(s.skip(2) =~= rest);
    } else {
        assert(!is_line_break(cur[0]));
        lemma_lines_crlf(cur.skip(1), rest);
        assert(s.skip(1) =~= cur.skip(1) + seq!['\r', '\n'] + rest);
        let inner = seq![cur.skip(1)] + spec_lines(rest);
        assert(spec_lines(s.skip(1)) =~~= inner);
        assert(inner.len() > 0);
        assert(spec_lines(s) =~~= seq![seq![s[0]] + inner[0]] + inner.skip(1));
        assert(seq![s[0]] + cur.skip(1) =~= cur);
        assert(inner.skip(1) =~= spec_lines(rest));
    }
}

/// A break-free prefix closed by a lone CR separator contributes exactly one
/// line, provided the remainder does not begin with LF (that would be CRLF).
pub proof fn lemma_lines_cr(cur: Seq<char>, rest: Seq<char>)
    requires
        forall|k: int| 0 <= k < cur.len() ==> !is_line_break(#[trigger] cur[k]),
        rest.len() == 0 || rest[0] != '\n',
    ensures
        spec_lines(cur + seq!['\r'] + rest) =~~= seq![cur] + spec_lines(rest),
    decreases cur.len(),
{
    let s = cur + seq!['\r'] + rest;
    if cur.len() == 0 {
        assert(s =~= seq!['\r'] + rest);
        assert(s[0] == '\r');
        assert(!(s.len() >= 2 && s[1] == '\n'));
        assert(s.skip(1) =~= rest);
    } else {
        assert(!is_line_break(cur[0]));
        lemma_lines_cr(cur.skip(1), rest);
        assert(s.skip(1) =~= cur.skip(1) + seq!['\r'] + rest);
        let inner = seq![cur.skip(1)] + spec_lines(rest);
        assert(spec_lines(s.skip(1)) =~~= inner);
        assert(inner.len() > 0);
        assert(spec_lines(s) =~~= seq![seq![s[0]] + inner[0]] + inner.skip(1));
        assert(seq![s[0]] + cur.skip(1) =~= cur);
        assert(inner.skip(1) =~= spec_lines(rest));
    }
}

/// Splits a text into its lines.
pub fn split_lines(contents: &str) -> (r: Vec<String>)
    ensures
        r@.len() == spec_lines(contents@).len(),
        forall|k: int| 0 <= k < r@.len() ==> (#[trigger] r@[k])@ == spec_lines(contents@)[k],
{
    let n = contents.unicode_len();
    let mut r: Vec<String> = Vec::new();
    proof {
        assert(contents@.skip(0) =~= contents@);
        assert(views_of(r@) =~= Seq::<Seq<char>>::empty());
    }
    let mut start: usize = 0;
    let mut i: usize = 0;
    while i < n
        invariant
            n == contents@.len(),
            start <= i <= n,
            forall|k: int| start <= k < i ==> !is_line_break(#[trigger] contents@[k]),
            spec_lines(contents@) =~~= views_of(r@) + spec_lines(contents@.skip(start as int)),
        decreases n - i,
    {
        let c = contents.get_char(i);
        if c == '\n' || c == '\r' {
            let line = contents.substring_char(start, i);
            let ghost cur = contents@.subrange(start as int, i as int);
            let next: usize = if c == '\r' && i + 1 < n && contents.get_char(i + 1) == '\n' {
                i + 2
            } else {
                i + 1
            };
            proof {
                let rest = contents@.skip(next as int);
                if c == '\n' {
                    assert(contents@.skip(start as int) =~= cur + seq!['\n'] + rest);
                    lemma_lines_lf(cur, rest);
                } else if next == i + 2 {
                    assert(contents@.skip(start as int) =~= cur + seq!['\r', '\n'] + rest);
                    lemma_lines_crlf(cur, rest);
                } else {
                    assert(rest.len() == 0 || rest[0] != '\n');
                    assert(contents@.skip(start as int) =~= cur + seq!['\r'] + rest);
                    lemma_lines_cr(cur, rest);
                }
                assert(spec_lines(contents@.skip(start as int)) =~~= seq![cur] + spec_lines(rest));
            }
            r.push(String::from_str(line));
            proof {
                assert(views_of(r@) =~= views_of(r@.drop_last()).push(cur));
            }
            i = next;
            start = next;
        } else {
            i = i + 1;
        }
    }
    proof {
        let tail = contents@.skip(start as int);
        assert(forall|k: int| 0 <= k < tail.len() ==> !is_line_break(#[trigger] tail[k]));
        lemma_lines_unbroken(tail);
    }
    if start < n {
        let line = contents.substring_char(start, n);
        let ghost cur = contents@.subrange(start as int, n as int);
        proof {
            assert(cur =~= contents@.skip(start as int));
        }
        r.push(String::from_str(line));
        proof {
            assert(views_of(r@) =~= views_of(r@.drop_last()).push(cur));
        }
    } else {
        proof {
            assert(contents@.skip(start as int).len() == 0);
        }
    }
    proof {
        lemma_views_of_index(r@);
    }
    r
}

/// The views of a vector of strings.
pub open spec fn views_of(v: Seq<String>) -> Seq<Seq<char>> {
    v.map_values(|s: String| s@)
}

proof fn lemma_views_of_index(v: Seq<String>)
    ensures
        views_of(v).len() == v.len(),
        forall|k: int| 0 <= k < v.len() ==> #[trigger] views_of(v)[k] == v[k]@,
{
}

/// `needle` occurs in `hay` at position `j`.
pub open spec fn contains_at(hay: Seq<char>, needle: Seq<char>, j: int) -> bool {
    0 <= j && j + needle.len() <= hay.len() && hay.subrange(j, j + needle.len()) == needle
}

/// `needle` occurs somewhere in `hay`; an empty needle occurs in every text.
pub open spec fn spec_contains(hay: Seq<char>, needle: Seq<char>) -> bool {
    exists|j: int| contains_at(hay, needle, j)
}

/// Substring containment: decides whether `needle` occurs in `hay`.
pub fn contains_substr(hay: &str, needle: &str) -> (r: bool)
    ensures
        r == spec_contains(hay@, needle@),
{
    let hl = hay.unicode_len();
    let nl = needle.unicode_len();
    if nl > hl {
        proof {
            assert(forall|j: int| !contains_at(hay@, needle@, j));
        }
        return false;
    }
    if nl == 0 {
        proof {
            assert(hay@.subrange(0, 0) =~= needle@);
            assert(contains_at(hay@, needle@, 0));
        }
        return true;
    }
    let mut j: usize = 0;
    while j <= hl - nl
        invariant
            hl == hay@.len(),
            nl == needle@.len(),
            1 <= nl <= hl,
            j <= hl - nl + 1,
            forall|j2: int| 0 <= j2 < j ==> !contains_at(hay@, needle@, j2),
        decreases hl - nl - j + 1,
    {
        let mut k: usize = 0;
        let mut hit = true;
        while k < nl
            invariant
                hl == hay@.len(),
                nl == needle@.len(),
                j + nl <= hl,
                k <= nl,
                hit ==> forall|k2: int| 0 <= k2 < k ==> hay@[j + k2] == needle@[k2],
                !hit ==> !contains_at(hay@, needle@, j as int),
            decreases nl - k,
        {
            if hay.get_char(j + k) != needle.get_char(k) {
                proof {
                    assert(hay@.subrange(j as int, j + nl as int)[k as int] == hay@[j + k]);
                }
                hit = false;
                k = nl;
            } else {
                k = k + 1;
            }
        }
        if hit {
            proof {
                assert(hay@.subrange(j as int, j + nl as int) =~= needle@);
                assert(contains_at(hay@, needle@, j as int));
            }
            return true;
        }
        j = j + 1;
    }
    proof {
        assert forall|j2: int| !contains_at(hay@, needle@, j2) by {
            if 0 <= j2 < j {
            } else if j2 >= j {
                assert(j2 + needle@.len() > hay@.len());
            }
        }
    }
    false
}

/// Character-for-character string equality.
pub fn str_eq(a: &str, b: &str) -> (r: bool)
    ensures
        r == (a@ == b@),
{
    let an = a.unicode_len();
    let bn = b.unicode_len();
    if an != bn {
        return false;
    }
    let mut i: usize = 0;
    while i < an
        invariant
            an == a@.len(),
            an == b@.len(),
            i <= an,
            forall|k: int| 0 <= k < i ==> a@[k] == b@[k],
        decreases an - i,
    {
        if a.get_char(i) != b.get_char(i) {
            return false;
        }
        i = i + 1;
    }
    proof {
        assert(a@ =~= b@);
    }
    true
}

/// The lowered form of a text, as `str::to_lowercase` computes it: a function
/// of the characters alone.
pub uninterp spec fn lower_of(s: Seq<char>) -> Seq<char>;

/// Relies on `str::to_lowercase`, which lowers the text for case-insensitive
/// matching: the result depends only on the characters of the input, so equal
/// inputs are lowered to equal results, and an empty text stays empty.
#[verifier::external_body]
pub fn lowercase(s: &str) -> (r: String)
    ensures
        r@ == lower_of(s@),
        s@.len() == 0 ==> r@.len() == 0,
{
    s.to_lowercase()
}

} // verus!
