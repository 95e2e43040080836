use minigrep::search;

const CONTENTS: &str = "\
         Rust:
         safe, fast, productive.
         Pick three.
         Rust rocks.
         Duct tape.";

#[test]
fn zero_results() {
    // given
    let query = "not_exisiting_part";
    let expected_result: Vec<&str> = vec![];

    // when
    let result = search(&query, &CONTENTS, false);

    // then
    assert_eq!(result, expected_result);
}

#[test]
fn case_sensitive_one_result() {
    // given
    let query = "duct";
    let expected_result = vec!["safe, fast, productive."];

    // when
    let result = search(&query, &CONTENTS, false);

    // then
    assert_eq!(result, expected_result);
}

#[test]
fn case_insensitive_two_results() {
    // given
    let query = "rUsT";
    let expected_result = vec!["Rust:", "Rust rocks."];

    // when
    let result = search(&query, &CONTENTS, true);

    // then
    assert_eq!(result, expected_result);
}

#[test]
fn no_line_holds_an_absent_query() {
    assert_eq!(search("not_existing_part", CONTENTS, false), Vec::<&str>::new());
    assert_eq!(search("not_existing_part", CONTENTS, true), Vec::<&str>::new());
}

#[test]
fn case_sensitive_two_results() {
    let result = search("Rust", CONTENTS, false);
    assert_eq!(result, vec!["Rust:", "Rust rocks."]);
}

#[test]
fn case_sensitive_misses_other_case() {
    let result = search("rUsT", CONTENTS, false);
    assert_eq!(result, Vec::<&str>::new());
}

#[test]
fn case_insensitive_finds_both_ducts() {
    let result = search("DUCT", CONTENTS, true);
    assert_eq!(result, vec!["safe, fast, productive.", "Duct tape."]);
}

#[test]
fn empty_query_finds_every_line() {
    let all = vec!["Rust:", "safe, fast, productive.", "Pick three.", "Rust rocks.", "Duct tape."];
    assert_eq!(search("", CONTENTS, false), all);
    assert_eq!(search("", CONTENTS, true), all);
}

#[test]
fn empty_contents_hold_no_line() {
    assert_eq!(search("Rust", "", false), Vec::<&str>::new());
    assert_eq!(search("", "", false), Vec::<&str>::new());
    assert_eq!(search("", "", true), Vec::<&str>::new());
}

#[test]
fn equal_lines_are_all_kept() {
    assert_eq!(search("a", "a\nb\na\n  a  \n", false), vec!["a", "a", "a"]);
}

#[test]
fn lines_come_out_in_the_order_of_the_text() {
    assert_eq!(search("x", "x3\nno\nx1\nx2", false), vec!["x3", "x1", "x2"]);
}

#[test]
fn the_match_is_sought_before_trimming() {
    // The first line holds the query only with its leading blank.
    assert_eq!(search(" a", " a\na b\nxa", false), vec!["a"]);
    assert_eq!(search("a ", "a \n", false), vec!["a"]);
}

#[test]
fn a_carriage_return_before_a_line_feed_is_no_part_of_the_line() {
    assert_eq!(search("b\r", "ab\r\nb\r", false), vec!["b"]);
    assert_eq!(search("b", "ab\r\ncb\r\n", false), vec!["ab", "cb"]);
}

#[test]
fn a_blank_line_is_found_empty() {
    assert_eq!(search("", "a\n\n \t\nb\n", false), vec!["a", "", "", "b"]);
}

#[test]
fn found_lines_borrow_from_the_contents() {
    let contents = String::from("one\n  two words  \nthree");
    let found = search("wo", &contents, false);
    assert_eq!(found, vec!["two words"]);
    let start = found[0].as_ptr() as usize - contents.as_ptr() as usize;
    assert_eq!(start, 6);
}

#[test]
fn letters_beyond_ascii_are_lowercased() {
    let contents = "ÉCOLE normale\nécole\nEcole";
    assert_eq!(search("école", contents, true), vec!["ÉCOLE normale", "école"]);
    assert_eq!(search("ÉCOLE", contents, true), vec!["ÉCOLE normale", "école"]);
    assert_eq!(search("école", contents, false), vec!["école"]);
}

#[test]
fn lowercasing_can_change_the_length_of_a_text() {
    // U+0130 has a lowercase form of two characters.
    assert_eq!(search("i\u{307}x", "\u{130}X", true), vec!["\u{130}X"]);
    assert_eq!(search("ix", "\u{130}X", true), Vec::<&str>::new());
}

#[test]
fn lowercasing_goes_by_the_context_of_a_letter() {
    // A capital sigma at the end of a word has another lowercase form than
    // one within a word: the line holds the query, its lowercase form does
    // not hold the lowercase form of the query.
    assert_eq!(search("ΑΣ", "ΑΣΑ", false), vec!["ΑΣΑ"]);
    assert_eq!(search("ΑΣ", "ΑΣΑ", true), Vec::<&str>::new());
    assert_eq!(search("ΑΣ", "ΑΣ", true), vec!["ΑΣ"]);
}

#[test]
fn a_search_repeated_finds_the_same() {
    for ignore_case in [false, true] {
        for query in ["", "rust", "Rust", "t", "three.", "zzz"] {
            let first = search(query, CONTENTS, ignore_case);
            let second = search(query, CONTENTS, ignore_case);
            assert_eq!(first, second);
        }
    }
}

#[test]
fn ignoring_case_finds_no_less() {
    for query in ["", "rust", "Rust", "RUST", "t", "T", "Pick", "e.", "zzz", " "] {
        let minding = search(query, CONTENTS, false);
        let ignoring = search(query, CONTENTS, true);
        assert!(minding.len() <= ignoring.len());
        for line in &minding {
            assert!(ignoring.contains(line));
        }
    }
}

#[test]
fn found_lines_are_the_trimmed_matches() {
    let contents = " alpha \nbeta\r\n\tgamma delta\n\nalpha beta\n";
    for ignore_case in [false, true] {
        for query in ["a", "A", "alpha", "beta", "ta", "", "\t", "a b", "x"] {
            let expected: Vec<&str> = contents
                .lines()
                .filter(|line| {
                    if ignore_case {
                        line.to_lowercase().contains(&query.to_lowercase())
                    } else {
                        line.contains(query)
                    }
                })
                .map(|line| line.trim())
                .collect();
            assert_eq!(search(query, contents, ignore_case), expected);
        }
    }
}

#[test]
fn a_long_text_is_searched_line_by_line() {
    let mut contents = String::new();
    for number in 0..20_000 {
        contents.push_str("  Line ");
        contents.push_str(&number.to_string());
        contents.push_str(" \r\n");
    }
    let found = search("line 1999", &contents, true);
    assert_eq!(
        found,
        vec![
            "Line 1999", "Line 19990", "Line 19991", "Line 19992", "Line 19993", "Line 19994",
            "Line 19995", "Line 19996", "Line 19997", "Line 19998", "Line 19999",
        ]
    );
    assert_eq!(search("line 1999", &contents, false), Vec::<&str>::new());
    assert_eq!(search("", &contents, false).len(), 20_000);
}
