use rust_grep::{search, search_case_insensitive, select_lines};

#[test]
fn one_result() {
    let query = "duct";
    let contents = "\
Rust 
safe, fast, productive.
Pic three.";
    assert_eq!(
        vec![(1, "safe, fast, productive.")],
        search(query, contents)
    );
    let query = "fast";
    assert_eq!(
        vec![(1, "safe, fast, productive.")],
        search(query, contents)
    );
}

#[test]
fn case_insensitive() {
    let query = "RuSt";
    let contents = "\
Rust
safe, fast, productive.
Pic three.";
    assert_eq!(
        vec![(0, "Rust")],
        search_case_insensitive(query, contents)
    );

    let query = "FaSt";
    assert_eq!(
        vec![(1, "safe, fast, productive.")],
        search_case_insensitive(query, contents)
    );
}

#[test]
fn exact_search_minds_case() {
    let contents = "Rust\nsafe, fast, productive.\nTrust me.";
    assert_eq!(vec![(0, "Rust")], search("Rust", contents));
    assert_eq!(vec![(2, "Trust me.")], search("rust", contents));
    assert_eq!(Vec::<(usize, &str)>::new(), search("RUST", contents));
}

#[test]
fn folded_search_keeps_the_line_as_written() {
    let contents = "Rust\nsafe, fast, productive.\nTrust me.";
    assert_eq!(
        vec![(0, "Rust"), (2, "Trust me.")],
        search_case_insensitive("rUsT", contents)
    );
}

#[test]
fn folded_search_lowers_beyond_ascii() {
    let contents = "Kein Treffer\nÄPFEL und Birnen\näpfel";
    assert_eq!(
        vec![(1, "ÄPFEL und Birnen"), (2, "äpfel")],
        search_case_insensitive("Äpfel", contents)
    );
    assert_eq!(vec![(2, "äpfel")], search("äpfel", contents));
}

#[test]
fn several_matches_come_in_line_order() {
    let contents = "one\ntwo\nthree\nfour\none more";
    assert_eq!(
        vec![(0, "one"), (4, "one more")],
        search("one", contents)
    );
    assert_eq!(
        vec![(0, "one"), (1, "two"), (3, "four"), (4, "one more")],
        search("o", contents)
    );
}

#[test]
fn indices_rise_and_stay_below_the_line_count() {
    let contents = "ab\nb\n\nabc\nxb\nq\n";
    for found in [search("b", contents), search_case_insensitive("B", contents)] {
        assert_eq!(vec![(0, "ab"), (1, "b"), (3, "abc"), (4, "xb")], found);
        for pair in found.windows(2) {
            assert!(pair[0].0 < pair[1].0);
        }
        for (index, _) in &found {
            assert!(*index < 6);
        }
    }
}

#[test]
fn empty_query_reports_every_line() {
    let contents = "first\n\nthird\r\nfourth";
    assert_eq!(
        vec![(0, "first"), (1, ""), (2, "third"), (3, "fourth")],
        search("", contents)
    );
    assert_eq!(
        vec![(0, "first"), (1, ""), (2, "third"), (3, "fourth")],
        search_case_insensitive("", contents)
    );
}

#[test]
fn empty_contents_have_no_lines() {
    assert_eq!(Vec::<(usize, &str)>::new(), search("", ""));
    assert_eq!(Vec::<(usize, &str)>::new(), search("a", ""));
    assert_eq!(Vec::<(usize, &str)>::new(), search_case_insensitive("", ""));
}

#[test]
fn no_match_gives_an_empty_result() {
    let contents = "Rust \nsafe, fast, productive.\nPic three.";
    assert_eq!(Vec::<(usize, &str)>::new(), search("slow", contents));
    assert_eq!(
        Vec::<(usize, &str)>::new(),
        search_case_insensitive("SLOW", contents)
    );
}

#[test]
fn final_line_break_adds_no_line() {
    assert_eq!(vec![(0, "a"), (1, "b")], search("", "a\nb\n"));
    assert_eq!(vec![(0, "a"), (1, "b")], search("", "a\nb"));
    assert_eq!(vec![(0, "a"), (1, "b"), (2, "")], search("", "a\nb\n\n"));
    assert_eq!(vec![(0, "")], search("", "\n"));
}

#[test]
fn carriage_return_before_line_feed_is_part_of_the_break() {
    assert_eq!(vec![(0, "a"), (1, "b")], search("", "a\r\nb\r\n"));
    assert_eq!(
        vec![(0, "a"), (1, ""), (2, "b")],
        search("", "a\r\n\r\nb")
    );
    assert_eq!(Vec::<(usize, &str)>::new(), search("\r", "a\r\nb\r\n"));
}

#[test]
fn carriage_return_alone_breaks_no_line() {
    assert_eq!(vec![(0, "a\rb")], search("", "a\rb"));
    assert_eq!(vec![(0, "a\r"), (1, "b\r")], search("", "a\r\r\nb\r"));
    assert_eq!(vec![(1, "baz\r")], search("\r", "foo\nbaz\r"));
}

#[test]
fn query_must_lie_within_one_line() {
    assert_eq!(Vec::<(usize, &str)>::new(), search("a\nb", "a\nb"));
    assert_eq!(Vec::<(usize, &str)>::new(), search("ab", "a\nb"));
}

#[test]
fn query_longer_than_every_line_matches_nothing() {
    assert_eq!(Vec::<(usize, &str)>::new(), search("abcd", "abc\nbcd"));
    assert_eq!(vec![(0, "abc")], search("abc", "abc\nbcd"));
}

#[test]
fn single_matching_line_is_reported_whole() {
    let contents = "alpha\nbeta gamma\ndelta";
    assert_eq!(vec![(1, "beta gamma")], search("gam", contents));
    assert_eq!(vec![(2, "delta")], search("delta", contents));
}

#[test]
fn select_lines_compares_by_key_and_reports_the_line() {
    let lines = vec!["One", "Two", "Three"];
    let keys = vec!["x", "needle here", "a needle"];
    assert_eq!(
        vec![(1, "Two"), (2, "Three")],
        select_lines("needle", &lines, &keys)
    );
    assert_eq!(
        Vec::<(usize, &str)>::new(),
        select_lines("One", &lines, &keys)
    );
}

#[test]
fn select_lines_skips_lines_without_a_key() {
    let lines = vec!["a", "b", "c"];
    let keys = vec!["k", "k"];
    assert_eq!(vec![(0, "a"), (1, "b")], select_lines("k", &lines, &keys));
    let more_keys = vec!["k", "k", "k", "k"];
    assert_eq!(
        vec![(0, "a"), (1, "b"), (2, "c")],
        select_lines("", &lines, &more_keys)
    );
}
