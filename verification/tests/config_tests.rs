use minigrep::run_search;
use minigrep::Config;
use minigrep::ConfigError;

#[test]
fn build_rejects_one_argument() {
    let args = vec![String::from("prog")];
    assert!(matches!(
        Config::build(&args, false),
        Err(ConfigError::InsufficientArguments)
    ));
}

#[test]
fn build_rejects_two_arguments() {
    let args = vec![String::from("prog"), String::from("only_query")];
    assert!(matches!(
        Config::build(&args, false),
        Err(ConfigError::InsufficientArguments)
    ));
    assert!(matches!(
        Config::build(&args, true),
        Err(ConfigError::InsufficientArguments)
    ));
}

#[test]
fn build_succeeds_with_three_arguments() {
    let args = vec![
        String::from("prog"),
        String::from("q"),
        String::from("path"),
    ];
    let config = Config::build(&args, false).unwrap();
    assert_eq!(config.query, "q");
    assert_eq!(config.file_path, "path");
    assert!(!config.ignore_case);
}

#[test]
fn build_copies_arguments_verbatim() {
    let args = vec![
        String::from("prog"),
        String::from("  MiXeD Case  "),
        String::from("./some file.txt"),
        String::from("extra is ignored"),
    ];
    let config = Config::build(&args, true).unwrap();
    assert_eq!(config.query, "  MiXeD Case  ");
    assert_eq!(config.file_path, "./some file.txt");
    assert!(config.ignore_case);
}

#[test]
fn error_message_names_the_problem() {
    assert_eq!(
        ConfigError::InsufficientArguments.message(),
        "not enough arguments"
    );
}

#[test]
fn run_search_dispatches_on_ignore_case() {
    let contents = "Rust:\nsafe, fast, productive.\nTrust me.";
    let sensitive = Config {
        query: String::from("Rust"),
        file_path: String::from("unused"),
        ignore_case: false,
    };
    let insensitive = Config {
        query: String::from("Rust"),
        file_path: String::from("unused"),
        ignore_case: true,
    };
    assert_eq!(vec!["Rust:"], run_search(&sensitive, contents));
    assert_eq!(vec!["Rust:", "Trust me."], run_search(&insensitive, contents));
}
