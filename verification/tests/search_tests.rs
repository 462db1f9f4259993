use minigrep::{search, search_case_insensitive};

fn first_or_fail(results: &[(usize, String)]) -> (usize, &str) {
    results
        .get(0)
        .map(|(n, l)| (*n, l.as_str()))
        .unwrap_or((0, "fail"))
}

#[test]
fn case_sensitive() {
    let query = "duct";
    let contents = "\
Rust:
safe, fast, productive.
Pick three.
Duct tape.";
    let results = search(query, contents);

    assert_eq!((2, "safe, fast, productive."), first_or_fail(&results));
}

#[test]
fn case_insensitive() {
    let query = "rUsT";
    let contents = "\
Rust:
safe, fast, productive.
Pick three.
Trust me.";
    let results = search_case_insensitive(query, contents);

    assert_eq!((1, "Rust:"), first_or_fail(&results));
    assert_eq!(
        (4, "Trust me."),
        results
            .get(1)
            .map(|(n, l)| (*n, l.as_str()))
            .unwrap_or((0, "fail"))
    );
}

#[test]
fn present_query_is_found_with_its_line_number() {
    let contents = "alpha\nbeta\ngamma";
    let results = search("gamma", contents);
    assert_eq!(1, results.len());
    assert_eq!(3, results[0].0);
    assert_eq!("gamma", results[0].1);
}

#[test]
fn absent_query_yields_no_results() {
    let results = search("delta", "alpha\nbeta\ngamma");
    assert!(results.is_empty());
}

#[test]
fn empty_query_matches_every_line() {
    let results = search("", "one\ntwo\nthree");
    assert_eq!(3, results.len());
    assert_eq!((1, "one".to_string()), results[0]);
    assert_eq!((2, "two".to_string()), results[1]);
    assert_eq!((3, "three".to_string()), results[2]);
}

#[test]
fn cr_lf_and_crlf_all_separate_lines() {
    let results = search("", "a\r\nb\rc\nd");
    assert_eq!(4, results.len());
    assert_eq!((1, "a".to_string()), results[0]);
    assert_eq!((2, "b".to_string()), results[1]);
    assert_eq!((3, "c".to_string()), results[2]);
    assert_eq!((4, "d".to_string()), results[3]);
}

#[test]
fn trailing_separator_opens_no_extra_line() {
    let results = search("", "a\nb\n");
    assert_eq!(2, results.len());
    let results = search("", "");
    assert!(results.is_empty());
}

#[test]
fn line_numbers_count_all_lines_not_only_matches() {
    let results = search("x", "x1\nskip\nx2");
    assert_eq!(2, results.len());
    assert_eq!((1, "x1".to_string()), results[0]);
    assert_eq!((3, "x2".to_string()), results[1]);
}

#[test]
fn ci_agrees_with_search_on_lowered_text() {
    let contents = "Rust:\nsafe, fast, productive.\nPick three.\nTrust me.";
    let lowered = "rust:\nsafe, fast, productive.\npick three.\ntrust me.";
    let ci = search_case_insensitive("RuSt", contents);
    let cs = search("rust", lowered);
    assert_eq!(cs.len(), ci.len());
    for (a, b) in cs.iter().zip(ci.iter()) {
        assert_eq!(a.0, b.0);
        assert_eq!(a.1, b.1.to_lowercase());
    }
}

#[test]
fn ci_matches_regardless_of_either_casing() {
    let results = search_case_insensitive("RUST", "they trust rust\nno match here");
    assert_eq!(1, results.len());
    assert_eq!((1, "they trust rust".to_string()), results[0]);
}

#[test]
fn end_to_end_ignore_case_example() {
    let contents = "Rust:\nsafe, fast, productive.\nPick three.\nTrust me.";
    let results = search_case_insensitive("rust", contents);
    assert_eq!(2, results.len());
    assert_eq!((1, "Rust:".to_string()), results[0]);
    assert_eq!((4, "Trust me.".to_string()), results[1]);
}
