use minigrep::config::{Config, ConfigError, EnvFlags, PathKind};

fn no_env() -> EnvFlags {
    EnvFlags {
        ignore_case: false,
        label_files: false,
        include_symlinks: false,
        include_hidden: false,
        include_line_numbers: false,
    }
}

fn tokens(ts: &[&str]) -> Vec<String> {
    ts.iter().map(|t| t.to_string()).collect()
}

fn others(n: usize) -> Vec<PathKind> {
    let mut v = Vec::new();
    for _ in 0..n {
        v.push(PathKind::Other);
    }
    v
}

#[test]
fn first_non_flag_token_is_the_query() {
    let t = tokens(&["-i", "needle"]);
    let c = Config::build(&t, &others(2), no_env()).unwrap();
    assert_eq!("needle", c.query);
    assert!(c.ignore_case);
}

#[test]
fn missing_query_is_an_error() {
    let t = tokens(&["-i"]);
    let r = Config::build(&t, &others(1), no_env());
    assert!(matches!(r, Err(ConfigError::MissingQuery)));
    let t: Vec<String> = Vec::new();
    let r = Config::build(&t, &Vec::new(), no_env());
    assert!(matches!(r, Err(ConfigError::MissingQuery)));
}

#[test]
fn empty_query_token_is_an_error() {
    let t = tokens(&[""]);
    let r = Config::build(&t, &others(1), no_env());
    assert!(matches!(r, Err(ConfigError::MissingQuery)));
}

#[test]
fn unknown_flag_is_an_error_naming_the_token() {
    let t = tokens(&["query", "-z"]);
    let r = Config::build(&t, &others(2), no_env());
    match r {
        Err(ConfigError::UnknownFlag { token }) => {
            assert_eq!("-z", token);
        }
        _ => panic!("expected an unknown-flag error"),
    }
}

#[test]
fn bare_flag_marker_is_an_unknown_flag() {
    let t = tokens(&["query", "-"]);
    let r = Config::build(&t, &others(2), no_env());
    match r {
        Err(ConfigError::UnknownFlag { token }) => {
            assert_eq!("-", token);
        }
        _ => panic!("expected an unknown-flag error"),
    }
}

#[test]
fn short_and_long_flags_set_their_booleans() {
    let t = tokens(&["q", "-i", "-H", "-s", "-hi", "-l"]);
    let c = Config::build(&t, &others(6), no_env()).unwrap();
    assert!(c.ignore_case);
    assert!(c.label_files);
    assert!(c.include_symlinks);
    assert!(c.include_hidden);
    assert!(c.include_line_numbers);

    let t = tokens(&[
        "q",
        "--ignore_case",
        "--header",
        "--include_symlinks",
        "--include_hidden",
        "--include_line_numbers",
    ]);
    let c = Config::build(&t, &others(6), no_env()).unwrap();
    assert!(c.ignore_case);
    assert!(c.label_files);
    assert!(c.include_symlinks);
    assert!(c.include_hidden);
    assert!(c.include_line_numbers);
}

#[test]
fn env_default_sets_ignore_case_without_flag() {
    let mut env = no_env();
    env.ignore_case = true;
    let t = tokens(&["q"]);
    let c = Config::build(&t, &others(1), env).unwrap();
    assert!(c.ignore_case);
}

#[test]
fn flags_never_unset_env_defaults() {
    let env = EnvFlags {
        ignore_case: true,
        label_files: true,
        include_symlinks: true,
        include_hidden: true,
        include_line_numbers: true,
    };
    let t = tokens(&["q", "-i", "somepath"]);
    let mut kinds = others(3);
    kinds[2] = PathKind::File;
    let c = Config::build(&t, &kinds, env).unwrap();
    assert!(c.ignore_case);
    assert!(c.label_files);
    assert!(c.include_symlinks);
    assert!(c.include_hidden);
    assert!(c.include_line_numbers);
}

#[test]
fn paths_are_split_by_classification() {
    let t = tokens(&["q", "a.txt", "dir", "weird", "-i", "b.txt"]);
    let kinds = vec![
        PathKind::Other,
        PathKind::File,
        PathKind::Dir,
        PathKind::Other,
        PathKind::Other,
        PathKind::File,
    ];
    let c = Config::build(&t, &kinds, no_env()).unwrap();
    assert_eq!(vec!["a.txt".to_string(), "b.txt".to_string()], c.file_paths);
    assert_eq!(vec!["dir".to_string()], c.dir_paths);
    assert!(c.ignore_case);
}

#[test]
fn unreadable_path_is_a_fatal_error() {
    let t = tokens(&["q", "ghost.txt"]);
    let kinds = vec![
        PathKind::Other,
        PathKind::Unreadable("permission denied".to_string()),
    ];
    let r = Config::build(&t, &kinds, no_env());
    match r {
        Err(ConfigError::UnresolvablePath { path, cause }) => {
            assert_eq!("ghost.txt", path);
            assert_eq!("permission denied", cause);
        }
        _ => panic!("expected an unresolvable-path error"),
    }
}

#[test]
fn error_messages_are_distinct_and_name_their_subject() {
    assert_eq!("no query supplied", ConfigError::MissingQuery.message());
    assert_eq!(
        "unknown flag: -z",
        ConfigError::UnknownFlag {
            token: "-z".to_string()
        }
        .message()
    );
    assert_eq!(
        "cannot resolve path 'p': why",
        ConfigError::UnresolvablePath {
            path: "p".to_string(),
            cause: "why".to_string()
        }
        .message()
    );
    assert_eq!(
        "cannot read 'p': why",
        ConfigError::ReadFailure {
            path: "p".to_string(),
            cause: "why".to_string()
        }
        .message()
    );
}

#[test]
fn help_is_recognized_anywhere() {
    assert!(minigrep::config::wants_help(&tokens(&["q", "--help"])));
    assert!(minigrep::config::wants_help(&tokens(&["-h"])));
    assert!(!minigrep::config::wants_help(&tokens(&["q", "-i"])));
}
