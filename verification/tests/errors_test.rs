use ecp::errors::AppError;

#[test]
fn io_error_message() {
    let e = AppError::IoError("stream closed".to_string());
    assert_eq!(e.message(), "Error: IO error: stream closed");
}

#[test]
fn invalid_input_message() {
    let e = AppError::InvalidInput("Too few arguments".to_string());
    assert_eq!(e.message(), "Error: Invalid input: Too few arguments");
}

#[test]
fn invalid_command_message() {
    let e = AppError::InvalidCommand("Command not found: unknowncmd".to_string());
    assert_eq!(
        e.message(),
        "Error: Invalid command: Command not found: unknowncmd"
    );
}

#[test]
fn invalid_flag_message() {
    let e = AppError::InvalidFlag("Flags not found".to_string());
    assert_eq!(e.message(), "Error: Invalid flag: Flags not found");
}

#[test]
fn unknown_message() {
    let e = AppError::Unknown;
    assert_eq!(e.message(), "Error: Unknown error");
}
