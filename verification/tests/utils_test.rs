use ecp::builder::{App, Command, Flag};
use ecp::errors::AppError;
use ecp::parser::utils::{get_command, get_flags, get_subcommand, get_values};

fn tokens(words: &[&str]) -> Vec<String> {
    words.iter().map(|w| w.to_string()).collect()
}

fn cargo_app() -> App {
    App::new("Rust").command(
        Command::new("cargo")
            .subcommand(
                Command::new("run")
                    .flag(Flag::new("release").short('r'))
                    .flag(Flag::new("locked")),
            )
            .flag(Flag::new("verbose").short('v')),
    )
}

#[test]
fn get_command_resolves_index_one() {
    let app = cargo_app();
    let args = tokens(&["ecp", "cargo", "run"]);
    assert_eq!(get_command(&app, &args).unwrap(), "cargo");
}

#[test]
fn get_command_rejects_unknown() {
    let app = cargo_app();
    let args = tokens(&["ecp", "nope"]);
    match get_command(&app, &args) {
        Err(AppError::InvalidCommand(msg)) => assert_eq!(msg, "Command not found: nope"),
        other => panic!("expected InvalidCommand, got {:?}", other),
    }
}

#[test]
fn get_subcommand_resolves_index_two() {
    let app = cargo_app();
    let args = tokens(&["ecp", "cargo", "run"]);
    assert_eq!(get_subcommand(&app, &args).unwrap(), Some("run".to_string()));
}

#[test]
fn get_subcommand_absent_is_none() {
    let app = cargo_app();
    let args = tokens(&["ecp", "cargo"]);
    assert_eq!(get_subcommand(&app, &args).unwrap(), None);
}

#[test]
fn get_subcommand_checks_resolved_command_only() {
    // `run` is a subcommand of `cargo`, not of `other`; resolving against
    // `other` must fail even though some command elsewhere owns `run`.
    let app = App::new("Rust")
        .command(Command::new("other"))
        .command(Command::new("cargo").subcommand(Command::new("run")));
    let args = tokens(&["ecp", "other", "run"]);
    match get_subcommand(&app, &args) {
        Err(AppError::InvalidCommand(msg)) => assert_eq!(msg, "Subcommand not found: run"),
        other => panic!("expected InvalidCommand, got {:?}", other),
    }
}

#[test]
fn get_flags_scans_the_whole_input() {
    let app = cargo_app();
    let args = tokens(&["ecp", "cargo", "run", "port", "-r", "--locked"]);
    assert_eq!(
        get_flags(&app, &args).unwrap(),
        vec!["release".to_string(), "locked".to_string()]
    );
}

#[test]
fn get_flags_uses_command_scope_when_no_subcommand_matches() {
    // Three tokens, but index 2 names no subcommand: the scope falls back to
    // the command's own flags.
    let app = cargo_app();
    let args = tokens(&["ecp", "cargo", "-v"]);
    assert_eq!(get_flags(&app, &args).unwrap(), vec!["verbose".to_string()]);
}

#[test]
fn get_flags_none_recognized_is_invalid_flag() {
    let app = cargo_app();
    let args = tokens(&["ecp", "cargo", "run", "port"]);
    match get_flags(&app, &args) {
        Err(AppError::InvalidFlag(msg)) => assert_eq!(msg, "Flags not found"),
        other => panic!("expected InvalidFlag, got {:?}", other),
    }
}

#[test]
fn get_values_skips_two_plus_flags_without_subcommand() {
    let args = tokens(&["-r", "cargo", "port", "8080"]);
    let flags = tokens(&["release"]);
    let values = get_values(&args, &None, &flags).unwrap();
    assert_eq!(values, vec!["8080".to_string()]);
}

#[test]
fn get_values_skips_three_plus_flags_with_subcommand() {
    let args = tokens(&["ecp", "cargo", "run", "-r", "port", "8080"]);
    let flags = tokens(&["release"]);
    let values = get_values(&args, &Some("run".to_string()), &flags).unwrap();
    assert_eq!(values, vec!["port".to_string(), "8080".to_string()]);
}

#[test]
fn get_values_past_the_end_is_empty() {
    let args = tokens(&["ecp", "cargo"]);
    let flags = tokens(&["release", "locked", "verbose"]);
    let values = get_values(&args, &Some("run".to_string()), &flags).unwrap();
    assert_eq!(values.len(), 0);
}

#[test]
fn first_command_of_a_duplicated_name_owns_the_parse() {
    // Two commands share a name; the earliest one is the matching scope, so
    // only its flags are recognized.
    let app = App::new("Rust")
        .command(Command::new("dup").flag(Flag::new("alpha").short('a')))
        .command(Command::new("dup").flag(Flag::new("beta").short('b')));

    let ok = app.try_parse_args(tokens(&["--alpha", "dup"])).unwrap();
    assert_eq!(ok.get_flags().as_slice(), ["alpha"]);

    let r = app.try_parse_args(tokens(&["--beta", "dup"]));
    assert!(matches!(r, Err(AppError::InvalidFlag(_))));
}

#[test]
fn dashes_only_token_matches_a_flag_without_short_form() {
    // A token of dashes strips to the empty body, whose first character is
    // absent — exactly the short form of a flag that declares none.
    let app = App::new("Rust").command(Command::new("cargo").flag(Flag::new("locked")));
    let cli = app.try_parse_args(tokens(&["--", "cargo"])).unwrap();
    assert_eq!(cli.get_flags().as_slice(), ["locked"]);
}
