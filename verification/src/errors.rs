use vstd::prelude::*;
use vstd::string::StringExecFns;

verus! {

/// The closed set of failure kinds a parse can surface.
///
/// - `IoError` wraps the rendered message of a lower-level input failure; the
///   parser itself never raises it, the argument-acquisition boundary does.
/// - `InvalidInput` is structural: too few tokens were supplied.
/// - `InvalidCommand` covers an unknown command or subcommand name; its
///   message carries the offending token.
/// - `InvalidFlag` is raised when the matching scope recognizes no flag.
/// - `Unknown` is a catch-all that correct code paths never reach.
#[derive(Debug)]
pub enum AppError {
    IoError(String),
    InvalidInput(String),
    InvalidCommand(String),
    InvalidFlag(String),
    Unknown,
}

/// The mathematical image of an [`AppError`]: the same kinds, carrying the
/// message as a character sequence.
pub ghost enum ErrView {
    IoError(Seq<char>),
    InvalidInput(Seq<char>),
    InvalidCommand(Seq<char>),
    InvalidFlag(Seq<char>),
    Unknown,
}

impl View for AppError {
    type V = ErrView;

    open spec fn view(&self) -> ErrView {
        match self {
            AppError::IoError(m) => ErrView::IoError(m@),
            AppError::InvalidInput(m) => ErrView::InvalidInput(m@),
            AppError::InvalidCommand(m) => ErrView::InvalidCommand(m@),
            AppError::InvalidFlag(m) => ErrView::InvalidFlag(m@),
            AppError::Unknown => ErrView::Unknown,
        }
    }
}

impl AppError {
    /// The single-line rendering of this error: a fixed tag for the kind,
    /// followed by the carried message.
    pub open spec fn spec_message(&self) -> Seq<char> {
        match self {
            AppError::IoError(m) => "Error: IO error: "@ + m@,
            AppError::InvalidInput(m) => "Error: Invalid input: "@ + m@,
            AppError::InvalidCommand(m) => "Error: Invalid command: "@ + m@,
            AppError::InvalidFlag(m) => "Error: Invalid flag: "@ + m@,
            AppError::Unknown => "Error: Unknown error"@,
        }
    }

    /// Renders the single-line, human-readable message for this error.
    pub fn message(&self) -> (r: String)
        ensures
            r@ == self.spec_message(),
    {
        match self {
            AppError::IoError(m) => "Error: IO error: ".to_owned().concat(m.as_str()),
            AppError::InvalidInput(m) => "Error: Invalid input: ".to_owned().concat(m.as_str()),
            AppError::InvalidCommand(m) => "Error: Invalid command: ".to_owned().concat(
                m.as_str(),
            ),
            AppError::InvalidFlag(m) => "Error: Invalid flag: ".to_owned().concat(m.as_str()),
            AppError::Unknown => "Error: Unknown error".to_owned(),
        }
    }
}

} // verus!
