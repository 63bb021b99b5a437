use ecp::builder::{App, Command, Flag};

#[test]
fn parser_full_parsed() {
    let cargo = Command::new("cargo")
        .description("Rust's package manager")
        .subcommand(
            Command::new("build")
                .description("Compile the current package")
                .flag(
                    Flag::new("release")
                        .description("Build artifacts in release mode, with optimizations")
                        .short('r'),
                ),
        )
        .subcommand(
            Command::new("run")
                .description("Run a binary or example of the local package")
                .flag(
                    Flag::new("release")
                        .description("Build artifacts in release mode, with optimizations")
                        .short('r'),
                ),
        );

    assert_eq!(cargo.get_name(), "cargo");
    assert_eq!(cargo.get_subcommands().len(), 2);
}

#[test]
fn tests_full_app() {
    let args = vec!["run", "cargo", "build", "--release"];

    let cli = App::new("Rust").command(
        Command::new("cargo")
            .description("Rust's package manager")
            .subcommand(
                Command::new("build")
                    .description("Compile the current package")
                    .flag(
                        Flag::new("release")
                            .description("Build artifacts in release mode, with optimizations")
                            .short('r'),
                    ),
            )
            .subcommand(
                Command::new("run")
                    .description("Run a binary or example of the local package")
                    .flag(
                        Flag::new("release")
                            .description("Build artifacts in release mode, with optimizations")
                            .short('r'),
                    ),
            ),
    );

    assert_eq!(cli.get_name(), "Rust");
    assert_eq!(args.len(), 4);
}
