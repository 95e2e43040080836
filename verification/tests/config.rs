use minigrep::{run, Config, GrepError};

fn args(words: &[&str]) -> Vec<String> {
    words.iter().map(|word| word.to_string()).collect()
}

#[test]
fn build_takes_query_and_path() {
    let built = Config::build(&args(&["minigrep", "needle", "haystack.txt"]), false);
    assert_eq!(
        built,
        Ok(Config {
            query: "needle".to_string(),
            file_path: "haystack.txt".to_string(),
            ignore_case: false,
        })
    );
}

#[test]
fn build_without_a_query_fails() {
    for set in [false, true] {
        assert_eq!(
            Config::build(&args(&["minigrep"]), set),
            Err(GrepError::Argument("Didn't get a query string".to_string()))
        );
        assert_eq!(
            Config::build(&[], set),
            Err(GrepError::Argument("Didn't get a query string".to_string()))
        );
    }
}

#[test]
fn build_without_a_path_fails() {
    for set in [false, true] {
        assert_eq!(
            Config::build(&args(&["minigrep", "needle"]), set),
            Err(GrepError::Argument("Didn't get a file path".to_string()))
        );
    }
}

#[test]
fn build_asks_the_environment_where_no_word_on_case_is_given() {
    let built = Config::build(&args(&["minigrep", "needle", "haystack.txt"]), true);
    assert_eq!(built.map(|config| config.ignore_case), Ok(true));
}

#[test]
fn build_goes_by_the_word_on_case_where_one_is_given() {
    for set in [false, true] {
        let with = |word: &str| {
            Config::build(&args(&["minigrep", "needle", "haystack.txt", word]), set)
                .map(|config| config.ignore_case)
        };
        assert_eq!(with("IGNORE_CASE"), Ok(true));
        assert_eq!(with("--IGNORE_CASE=1"), Ok(true));
        assert_eq!(with("ignore_case"), Ok(false));
        assert_eq!(with("IGNORE CASE"), Ok(false));
        assert_eq!(with(""), Ok(false));
    }
}

#[test]
fn build_passes_over_further_arguments() {
    let built = Config::build(&args(&["minigrep", "a", "b", "c", "IGNORE_CASE"]), false);
    assert_eq!(
        built,
        Ok(Config { query: "a".to_string(), file_path: "b".to_string(), ignore_case: false })
    );
}

#[test]
fn run_searches_what_was_read() {
    let config = Config {
        query: "the".to_string(),
        file_path: "poem.txt".to_string(),
        ignore_case: false,
    };
    let read = Ok("I'm nobody! Who are you?\n  Then there's a pair of us\nThe end".to_string());
    assert_eq!(run(&config, &read), Ok(vec!["Then there's a pair of us"]));

    let config = Config { ignore_case: true, ..config };
    assert_eq!(run(&config, &read), Ok(vec!["Then there's a pair of us", "The end"]));
}

#[test]
fn run_without_a_match_succeeds_with_nothing() {
    let config = Config {
        query: "absent".to_string(),
        file_path: "poem.txt".to_string(),
        ignore_case: false,
    };
    assert_eq!(run(&config, &Ok("some\ntext".to_string())), Ok(vec![]));
    assert_eq!(run(&config, &Ok(String::new())), Ok(vec![]));
}

#[test]
fn run_reports_a_file_that_could_not_be_read() {
    let config = Config {
        query: "the".to_string(),
        file_path: "missing.txt".to_string(),
        ignore_case: false,
    };
    let read = Err("No such file or directory (os error 2)".to_string());
    assert_eq!(
        run(&config, &read),
        Err(GrepError::Io("No such file or directory (os error 2)".to_string()))
    );
}

#[test]
fn an_error_hands_out_its_message() {
    assert_eq!(GrepError::Argument("Didn't get a file path".to_string()).message(), "Didn't get a file path");
    assert_eq!(GrepError::Io("denied".to_string()).message(), "denied");
}
