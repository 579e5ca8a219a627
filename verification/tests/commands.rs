use oflow::commands::{choose_data_dir, CliError};
use oflow::{Cli, Commands};

#[test]
fn test_add() {
    let args = vec!["oflow", "add", "Buy milk"];
    let cli = Cli::try_parse_from(args).expect("Failed to parse arguments");

    match cli.command {
        Commands::Add { content } => {
            assert_eq!(content, "Buy milk");
        }
        _ => panic!("Expected Add command"),
    }
}

#[test]
fn test_finish() {
    let args = vec!["oflow", "finish", "Buy milk"];
    let cli = Cli::try_parse_from(args).expect("Failed to parse arguments");

    match cli.command {
        Commands::Finish { content } => {
            assert_eq!(content, "Buy milk");
        }
        _ => panic!("Expect Finish command"),
    }
}

#[test]
fn test_edit() {
    let args = vec!["oflow", "edit", "Buy milk", "Buy eggs"];
    let cli = Cli::try_parse_from(args).expect("Failed to parse arguments");

    match cli.command {
        Commands::Edit { find, replace } => {
            assert_eq!(find, "Buy milk");
            assert_eq!(replace, "Buy eggs");
        }
        _ => panic!("Expect Edit command"),
    }
}

fn parse_err(args: Vec<&str>) -> CliError {
    match Cli::try_parse_from(args) {
        Ok(_) => panic!("expected an error"),
        Err(e) => e,
    }
}

#[test]
fn commands_without_arguments_parse() {
    for (word, expected) in [("clean", 0), ("list", 1), ("tui", 2)] {
        let cli = Cli::try_parse_from(vec!["oflow", word]).unwrap();
        let got = match cli.command {
            Commands::Clean => 0,
            Commands::List => 1,
            Commands::Tui => 2,
            _ => 9,
        };
        assert_eq!(got, expected);
        assert!(cli.data_dir.is_none());
    }
}

#[test]
fn data_dir_in_every_spelling() {
    for args in [
        vec!["oflow", "-d", "/tmp/x", "list"],
        vec!["oflow", "--data-dir", "/tmp/x", "list"],
        vec!["oflow", "--data-dir=/tmp/x", "list"],
        vec!["oflow", "-d/tmp/x", "list"],
        vec!["oflow", "-d=/tmp/x", "list"],
    ] {
        let cli = Cli::try_parse_from(args).unwrap();
        assert_eq!(cli.data_dir.as_deref(), Some("/tmp/x"));
        assert!(matches!(cli.command, Commands::List));
    }
}

#[test]
fn help_and_version_are_requests() {
    assert_eq!(parse_err(vec!["oflow"]), CliError::HelpRequested);
    assert_eq!(parse_err(vec!["oflow", "--help"]), CliError::HelpRequested);
    assert_eq!(parse_err(vec!["oflow", "-h"]), CliError::HelpRequested);
    assert_eq!(parse_err(vec!["oflow", "help"]), CliError::HelpRequested);
    assert_eq!(parse_err(vec!["oflow", "add", "--help"]), CliError::HelpRequested);
    assert_eq!(parse_err(vec!["oflow", "-V"]), CliError::VersionRequested);
    assert_eq!(parse_err(vec!["oflow", "--version"]), CliError::VersionRequested);
}

#[test]
fn malformed_command_lines_are_refused() {
    assert_eq!(parse_err(vec!["oflow", "-d", "x"]), CliError::MissingSubcommand);
    assert_eq!(parse_err(vec!["oflow", "remove", "x"]), CliError::UnknownSubcommand);
    assert_eq!(parse_err(vec!["oflow", "--verbose", "list"]), CliError::UnknownArgument);
    assert_eq!(parse_err(vec!["oflow", "add", "-x"]), CliError::UnknownArgument);
    assert_eq!(parse_err(vec!["oflow", "list", "-d", "x"]), CliError::UnknownArgument);
    assert_eq!(parse_err(vec!["oflow", "-d"]), CliError::MissingValue);
    assert_eq!(parse_err(vec!["oflow", "-d", "--help"]), CliError::MissingValue);
    assert_eq!(parse_err(vec!["oflow", "-d", "a", "-d", "b", "list"]), CliError::RepeatedArgument);
    assert_eq!(parse_err(vec!["oflow", "add"]), CliError::MissingArgument);
    assert_eq!(parse_err(vec!["oflow", "edit", "a"]), CliError::MissingArgument);
    assert_eq!(parse_err(vec!["oflow", "add", "a", "b"]), CliError::UnexpectedArgument);
    assert_eq!(parse_err(vec!["oflow", "clean", "now"]), CliError::UnexpectedArgument);
}

#[test]
fn double_dash_makes_words_arguments() {
    let cli = Cli::try_parse_from(vec!["oflow", "add", "--", "-x"]).unwrap();
    match cli.command {
        Commands::Add { content } => assert_eq!(content, "-x"),
        _ => panic!("expected Add"),
    }
    let cli = Cli::try_parse_from(vec!["oflow", "add", "-"]).unwrap();
    match cli.command {
        Commands::Add { content } => assert_eq!(content, "-"),
        _ => panic!("expected Add"),
    }
}

#[test]
fn data_dir_choice() {
    assert_eq!(choose_data_dir(Some("/a".to_string()), true, Some("/b".to_string())), "/a");
    assert_eq!(choose_data_dir(None, true, Some("/b".to_string())), "/b");
    assert_eq!(choose_data_dir(None, false, Some("/b".to_string())), ".");
    assert_eq!(choose_data_dir(None, true, None), ".");
}
