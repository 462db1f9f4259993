//! Rendering of search results: each match becomes one output line, with an
//! optional `filename:` prefix, then an optional `line_number:` prefix, then
//! the raw matched line.

use vstd::prelude::*;
use vstd::string::{StrSliceExecFns, StringExecFns};

verus! {

use crate::config::Config;
use crate::{spec_search, spec_search_ci};

/// The decimal digit characters.
pub open spec fn digit_char(d: int) -> char {
    if d == 0 {
        '0'
    } else if d == 1 {
        '1'
    } else if d == 2 {
        '2'
    } else if d == 3 {
        '3'
    } else if d == 4 {
        '4'
    } else if d == 5 {
        '5'
    } else if d == 6 {
        '6'
    } else if d == 7 {
        '7'
    } else if d == 8 {
        '8'
    } else {
        '9'
    }
}

/// The decimal rendering of a number, most significant digit first.
pub open spec fn spec_decimal(n: nat) -> Seq<char>
    decreases n,
{
    if n < 10 {
        seq![digit_char(n as int)]
    } else {
        spec_decimal(n / 10) + seq![digit_char((n % 10) as int)]
    }
}

/// One decimal digit as text.
fn digit_str(d: usize) -> (r: &'static str)
    requires
        d < 10,
    ensures
        r@ == seq![digit_char(d as int)],
{
    if d == 0 {
        proof {
            reveal_strlit("0");
        }
        let r = "0";
        proof {
            assert(r@ =~= seq![digit_char(0)]);
        }
        r
    } else if d == 1 {
        proof {
            reveal_strlit("1");
        }
        let r = "1";
        proof {
            assert(r@ =~= seq![digit_char(1)]);
        }
        r
    } else if d == 2 {
        proof {
            reveal_strlit("2");
        }
        let r = "2";
        proof {
            assert(r@ =~= seq![digit_char(2)]);
        }
        r
    } else if d == 3 {
        proof {
            reveal_strlit("3");
        }
        let r = "3";
        proof {
            assert(r@ =~= seq![digit_char(3)]);
        }
        r
    } else if d == 4 {
        proof {
            reveal_strlit("4");
        }
        let r = "4";
        proof {
            assert(r@ =~= seq![digit_char(4)]);
        }
        r
    } else if d == 5 {
        proof {
            reveal_strlit("5");
        }
        let r = "5";
        proof {
            assert(r@ =~= seq![digit_char(5)]);
        }
        r
    } else if d == 6 {
        proof {
            reveal_strlit("6");
        }
        let r = "6";
        proof {
            assert(r@ =~= seq![digit_char(6)]);
        }
        r
    } else if d == 7 {
        proof {
            reveal_strlit("7");
        }
        let r = "7";
        proof {
            assert(r@ =~= seq![digit_char(7)]);
        }
        r
    } else if d == 8 {
        proof {
            reveal_strlit("8");
        }
        let r = "8";
        proof {
            assert(r@ =~= seq![digit_char(8)]);
        }
        r
    } else {
        proof {
            reveal_strlit("9");
        }
        let r = "9";
        proof {
            assert(r@ =~= seq![digit_char(9)]);
        }
        r
    }
}

/// Renders a number in decimal.
pub fn decimal_string(n: usize) -> (r: String)
    ensures
        r@ == spec_decimal(n as nat),
    decreases n,
{
    if n < 10 {
        String::from_str(digit_str(n))
    } else {
        let mut s = decimal_string(n / 10);
        s.append(digit_str(n % 10));
        s
    }
}

/// One rendered output line: `filename:` if labelling is on, then
/// `line_number:` if line numbers are on, then the raw line text.
pub open spec fn spec_annotated(
    path: Seq<char>,
    number: nat,
    line: Seq<char>,
    label: bool,
    with_number: bool,
) -> Seq<char> {
    (if label {
        path + seq![':']
    } else {
        Seq::empty()
    }) + (if with_number {
        spec_decimal(number) + seq![':']
    } else {
        Seq::empty()
    }) + line
}

/// Builds the output line for one match.
pub fn annotate_line(path: &str, number: usize, line: &str, label: bool, with_number: bool) -> (r:
    String)
    ensures
        r@ == spec_annotated(path@, number as nat, line@, label, with_number),
{
    proof {
        reveal_strlit(":");
    }
    let mut s = String::new();
    if label {
        s.append(path);
        s.append(":");
    }
    if with_number {
        let d = decimal_string(number);
        s.append(d.as_str());
        s.append(":");
    }
    s.append(line);
    proof {
        assert(":"@ =~= seq![':']);
        assert(s@ =~= spec_annotated(path@, number as nat, line@, label, with_number));
    }
    s
}

/// The matches that a configuration selects from a text: case-insensitive
/// ones when `ignore_case` is set, case-sensitive ones otherwise.
pub open spec fn spec_selected_matches(c: crate::config::ConfigModel, contents: Seq<char>) -> Seq<
    (int, Seq<char>),
> {
    if c.ignore_case {
        spec_search_ci(c.query, contents)
    } else {
        spec_search(c.query, contents)
    }
}

/// Searches one file's contents under a configuration and renders each match
/// as an annotated output line, in line-number order.
pub fn render_matches(path: &str, contents: &str, config: &Config) -> (r: Vec<String>)
    ensures
        r@.len() == spec_selected_matches(config@, contents@).len(),
        forall|k: int|
            0 <= k < r@.len() ==> (#[trigger] r@[k])@ == spec_annotated(
                path@,
                spec_selected_matches(config@, contents@)[k].0 as nat,
                spec_selected_matches(config@, contents@)[k].1,
                config.label_files,
                config.include_line_numbers,
            ),
{
    let ghost m = spec_selected_matches(config@, contents@);
    let results: Vec<(usize, String)> = if config.ignore_case {
        crate::search_case_insensitive(config.query.as_str(), contents)
    } else {
        crate::search(config.query.as_str(), contents)
    };
    let mut r: Vec<String> = Vec::new();
    let mut i: usize = 0;
    while i < results.len()
        invariant
            m == spec_selected_matches(config@, contents@),
            results@.len() == m.len(),
            forall|k: int|
                0 <= k < m.len() ==> (#[trigger] results@[k]).0 as int == m[k].0
                    && results@[k].1@ == m[k].1,
            i <= results.len(),
            r@.len() == i,
            forall|k: int|
                0 <= k < i ==> (#[trigger] r@[k])@ == spec_annotated(
                    path@,
                    m[k].0 as nat,
                    m[k].1,
                    config.label_files,
                    config.include_line_numbers,
                ),
        decreases results.len() - i,
    {
        let number = results[i].0;
        let line = annotate_line(
            path,
            number,
            results[i].1.as_str(),
            config.label_files,
            config.include_line_numbers,
        );
        r.push(line);
        i = i + 1;
    }
    r
}

} // verus!
