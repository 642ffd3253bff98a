use minigrep::Config;
use minigrep::isearch;
use minigrep::isearch_v0;
use minigrep::search;
use minigrep::search_v0;

#[test]
fn one_result() {
    let query = "duct";
    let contents = "\
Rust:
safe, fast, productive.
Pick three.";

    assert_eq!(vec!["safe, fast, productive."], search(query, contents));
}

#[test]
fn case_sensitive() {
    let query = "duct";
    let contents = "\
Rust:
safe, fast, productive.
Pick three.
Duct tape.";
    assert_eq!(vec!["safe, fast, productive."], search(query, contents));
}

#[test]
fn case_insensitive() {
    let query = "rUst";
    let contents = "\
Rust:
safe, fast, productive.
Pick three.
Trust me.";
    assert_eq!(vec!["Rust:", "Trust me."], isearch(query, contents));
}

#[test]
fn test_integration_minigrep() {
    let initialization_value = 10;
    assert_eq!(initialization_value, 10);

    let query = "duct";
    let contents = "\
Rust:
safe, fast, productive.
Pick three.";

    assert_eq!(vec!["safe, fast, productive."], minigrep::search(query, contents));
}

#[test]
fn search_v0_agrees_with_search() {
    let query = "st";
    let contents = "first\nsecond\nlast";
    assert_eq!(search(query, contents), search_v0(query, contents));
    assert_eq!(vec!["first", "last"], search_v0(query, contents));
}

#[test]
fn isearch_v0_agrees_with_isearch() {
    let query = "RU";
    let contents = "Rust:\ntrust\nno such thing";
    assert_eq!(isearch(query, contents), isearch_v0(query, contents));
    assert_eq!(vec!["Rust:", "trust"], isearch_v0(query, contents));
}

#[test]
fn empty_query_matches_every_line() {
    let hits = search("", "one\ntwo\nthree");
    assert_eq!(vec!["one", "two", "three"], hits);
}

#[test]
fn empty_contents_has_no_lines() {
    let hits: Vec<&str> = search("x", "");
    assert!(hits.is_empty());
    let hits: Vec<&str> = search("", "");
    assert!(hits.is_empty());
}

#[test]
fn carriage_returns_are_stripped_before_newlines() {
    let hits = search("o", "one\r\ntwo\r\nthree");
    assert_eq!(vec!["one", "two"], hits);
    // A carriage return not followed by a newline stays in the line.
    let hits = search("e\r", "one\rtail\ntwo");
    assert_eq!(vec!["one\rtail"], hits);
}

#[test]
fn trailing_newline_adds_no_line() {
    assert_eq!(vec!["a", "b"], search("", "a\nb\n"));
    assert_eq!(vec!["a", "b", ""], search("", "a\nb\n\n"));
}

#[test]
fn config_build_v0_takes_query_then_path() {
    let args = vec![
        String::from("prog"),
        String::from("needle"),
        String::from("corpus.txt"),
    ];
    let config = Config::build_v0(&args, true).unwrap();
    assert_eq!(config.query, "needle");
    assert_eq!(config.file_path, "corpus.txt");
    assert!(config.ignore_case);
}

#[test]
fn config_build_v0_rejects_short_argument_lists() {
    let args = vec![String::from("prog"), String::from("needle")];
    assert!(matches!(Config::build_v0(&args, false), Err("not enough arguments")));

    let no_args: Vec<String> = Vec::new();
    assert!(Config::build_v0(&no_args, false).is_err());
}
