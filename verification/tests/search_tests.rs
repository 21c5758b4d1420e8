use minigrep::lines::split_lines;
use minigrep::search;
use minigrep::search_case_insensitive;

#[test]
fn case_sensitive() {
    let query = "duct";
    let contents = "\
Rust:
safe, fast, productive.
Pick three.
Duct tape.";

    assert_eq!(vec!["safe, fast, productive."], search(query, contents));
}

#[test]
fn case_insensitive() {
    let query = "rUsT";
    let contents = "\
Rust:
safe, fast, productive.
Pick three.
Trust me.";

    assert_eq!(
        vec!["Rust:", "Trust me."],
        search_case_insensitive(query, contents)
    );
}

#[test]
fn matching_lines_come_in_order_of_appearance() {
    let contents = "alpha\nbeta\ngamma\nanother alpha";
    assert_eq!(vec!["alpha", "another alpha"], search("alpha", contents));
    assert_eq!(
        vec!["alpha", "beta", "gamma", "another alpha"],
        search("a", contents)
    );
}

#[test]
fn unmatched_query_returns_empty() {
    let contents = "Rust:\nsafe, fast, productive.\nPick three.";
    let matched: Vec<&str> = Vec::new();
    assert_eq!(matched, search("zzz", contents));
    assert_eq!(matched, search_case_insensitive("zzz", contents));
}

#[test]
fn empty_query_matches_every_line() {
    let contents = "one\ntwo\nthree";
    assert_eq!(vec!["one", "two", "three"], search("", contents));
}

#[test]
fn case_insensitive_is_superset_of_case_sensitive() {
    let contents = "Rust:\nsafe, fast, productive.\nTrust me.\nno match here";
    let query = "rust";
    let sensitive = search(query, contents);
    let insensitive = search_case_insensitive(query, contents);
    for line in &sensitive {
        assert!(insensitive.contains(line));
    }
    // Matching ignored case, but the lines keep their original casing.
    assert_eq!(vec!["Rust:", "Trust me."], insensitive);
    assert_eq!(vec!["trust me."], search(query, "Rust:\ntrust me."));
}

#[test]
fn uppercase_query_matches_lowercase_line() {
    assert_eq!(
        vec!["trust me"],
        search_case_insensitive("RUST", "trust me\nnothing else")
    );
}

#[test]
fn trailing_terminator_adds_no_empty_line() {
    assert_eq!(vec!["a", "b"], search("", "a\nb\n"));
}

#[test]
fn carriage_return_newline_terminates_a_line() {
    assert_eq!(vec!["a", "b"], search("", "a\r\nb"));
    // A lone trailing carriage return is not a terminator and stays.
    assert_eq!(vec!["a\r"], search("", "a\r"));
}

#[test]
fn empty_contents_has_no_lines() {
    let matched: Vec<&str> = Vec::new();
    assert_eq!(matched, search("", ""));
    assert_eq!(matched, search("x", ""));
}

#[test]
fn empty_line_in_the_middle_is_kept() {
    assert_eq!(vec!["a", "", "b"], split_lines("a\n\nb"));
}
