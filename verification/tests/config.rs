use rust_grep::config::CASE_VARIABLE;
use rust_grep::{run, Config, ConfigError};

fn words(items: &[&str]) -> Vec<String> {
    items.iter().map(|item| item.to_string()).collect()
}

#[test]
fn no_argument_after_the_name_misses_the_query() {
    assert_eq!(
        Some(ConfigError::MissingQuery),
        Config::new(&words(&["grep"]), true).err()
    );
    assert_eq!(
        Some(ConfigError::MissingQuery),
        Config::new(&words(&[]), false).err()
    );
}

#[test]
fn one_argument_after_the_name_misses_the_filename() {
    assert_eq!(
        Some(ConfigError::MissingFilename),
        Config::new(&words(&["grep", "needle"]), true).err()
    );
    assert_eq!(
        Some(ConfigError::MissingFilename),
        Config::new(&words(&["grep", "needle"]), false).err()
    );
}

#[test]
fn two_arguments_make_a_config() {
    let config = Config::new(&words(&["grep", "needle", "hay.txt"]), true).unwrap();
    assert_eq!("needle", config.query);
    assert_eq!("hay.txt", config.filename);
    assert!(config.case_insensitive);
}

#[test]
fn further_arguments_are_ignored() {
    let config =
        Config::new(&words(&["grep", "needle", "hay.txt", "more", "and more"]), false).unwrap();
    assert_eq!("needle", config.query);
    assert_eq!("hay.txt", config.filename);
    assert!(!config.case_insensitive);
}

#[test]
fn empty_query_is_accepted() {
    let config = Config::new(&words(&["grep", "", "hay.txt"]), true).unwrap();
    assert_eq!("", config.query);
}

#[test]
fn case_is_ignored_exactly_when_the_variable_is_unset() {
    let args = words(&["grep", "needle", "hay.txt"]);
    assert!(Config::new(&args, true).unwrap().case_insensitive);
    assert!(!Config::new(&args, false).unwrap().case_insensitive);
}

#[test]
fn errors_have_their_sentences() {
    assert_eq!(
        "Did not get a query string.",
        ConfigError::MissingQuery.message()
    );
    assert_eq!(
        "Did not get a filename.",
        ConfigError::MissingFilename.message()
    );
}

#[test]
fn case_variable_has_its_name() {
    assert_eq!("CASE_INSENSITIVE", CASE_VARIABLE);
}

#[test]
fn run_ignores_case_where_the_config_says_so() {
    let contents = "Rust\nsafe, fast, productive.\nTrust me.";
    let config = Config::new(&words(&["grep", "rUsT", "hay.txt"]), true).unwrap();
    assert_eq!(vec![(0, "Rust"), (2, "Trust me.")], run(&config, contents));
}

#[test]
fn run_compares_exactly_where_the_config_says_so() {
    let contents = "Rust\nsafe, fast, productive.\nTrust me.";
    let config = Config::new(&words(&["grep", "rust", "hay.txt"]), false).unwrap();
    assert_eq!(vec![(2, "Trust me.")], run(&config, contents));
    let config = Config::new(&words(&["grep", "rUsT", "hay.txt"]), false).unwrap();
    assert_eq!(Vec::<(usize, &str)>::new(), run(&config, contents));
}
