use svt::cli::Cli;

fn args(values: &[&str]) -> Vec<String> {
    values.iter().map(|v| v.to_string()).collect()
}

#[test]
fn test_cli_parses_file_path() {
    let cli = Cli::try_parse_from(args(&["svt", "image.png"])).unwrap();
    assert_eq!(cli.paths, vec!["image.png".to_string()]);
}

#[test]
fn test_cli_parses_directory_path() {
    let cli = Cli::try_parse_from(args(&["svt", "/home/user/photos"])).unwrap();
    assert_eq!(cli.paths, vec!["/home/user/photos".to_string()]);
}

#[test]
fn test_cli_requires_paths_argument() {
    let result = Cli::try_parse_from(args(&["svt"]));
    assert!(result.is_err());
}

#[test]
fn cli_keeps_order_of_many_paths() {
    let cli = Cli::try_parse_from(args(&["svt", "b", "a", "b"])).unwrap();
    assert_eq!(cli.paths, vec!["b", "a", "b"]);
    let err = Cli::try_parse_from(args(&["svt", "--no-such-flag"])).unwrap_err();
    assert!(!err.message.is_empty());
    assert_ne!(err.exit_code, 0);
    let help = Cli::try_parse_from(args(&["svt", "--help"])).unwrap_err();
    assert_eq!(help.exit_code, 0);
    let parsed = Cli::from_parsed(Err(("usage".to_string(), 2))).unwrap_err();
    assert_eq!((parsed.message.as_str(), parsed.exit_code), ("usage", 2));
    assert_eq!(Cli::from_parsed(Ok(args(&["x"]))).unwrap().paths, vec!["x"]);
}
