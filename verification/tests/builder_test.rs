use ecp::builder::{App, Command, Flag};

#[test]
fn app_metadata_getters() {
    let app = App::new("Rust")
        .version("0.1.0")
        .description("Rust programming language")
        .command(Command::new("cargo"));

    assert_eq!(app.get_name(), "Rust");
    assert_eq!(app.get_version(), Some("0.1.0"));
    assert_eq!(app.get_description(), Some("Rust programming language"));
    assert_eq!(app.get_commands().len(), 1);
    assert_eq!(app.get_commands()[0].get_name(), "cargo");
}

#[test]
fn app_defaults_are_empty() {
    let app = App::new("Rust");
    assert_eq!(app.get_version(), None);
    assert_eq!(app.get_description(), None);
    assert_eq!(app.get_commands().len(), 0);
}

#[test]
fn flag_defaults_are_empty() {
    let f = Flag::new("release");
    assert_eq!(f.get_long(), "release");
    assert_eq!(f.get_short(), None);
    assert_eq!(f.get_description(), None);
}

#[test]
fn command_defaults_are_empty() {
    let c = Command::new("cargo");
    assert_eq!(c.get_name(), "cargo");
    assert_eq!(c.get_description(), None);
    assert_eq!(c.get_subcommands().len(), 0);
    assert_eq!(c.get_flags().len(), 0);
}

#[test]
fn commands_keep_attachment_order() {
    let app = App::new("Rust")
        .command(Command::new("first"))
        .command(Command::new("second"))
        .command(Command::new("third"));
    let names: Vec<&str> = app.get_commands().iter().map(|c| c.get_name()).collect();
    assert_eq!(names, ["first", "second", "third"]);
}
