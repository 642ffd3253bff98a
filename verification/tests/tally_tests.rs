use minigrep::split_whitespace_of;
use minigrep::word_tally;

#[test]
fn words_split_on_any_whitespace_run() {
    assert_eq!(
        split_whitespace_of("hello world wonderful world"),
        vec!["hello", "world", "wonderful", "world"]
    );
    assert_eq!(split_whitespace_of("  a\t b\nc "), vec!["a", "b", "c"]);
    assert!(split_whitespace_of("").is_empty());
    assert!(split_whitespace_of(" \n\t ").is_empty());
}

#[test]
fn word_tally_counts_each_distinct_word() {
    let tally = word_tally("hello world wonderful world");
    assert_eq!(
        tally,
        vec![
            (String::from("hello"), 1),
            (String::from("world"), 2),
            (String::from("wonderful"), 1),
        ]
    );
}

#[test]
fn word_tally_of_nothing_is_empty() {
    assert!(word_tally("").is_empty());
    assert!(word_tally("   ").is_empty());
}

#[test]
fn word_tally_keeps_first_appearance_order() {
    let tally = word_tally("b a b c a b");
    assert_eq!(
        tally,
        vec![
            (String::from("b"), 3),
            (String::from("a"), 2),
            (String::from("c"), 1),
        ]
    );
}
