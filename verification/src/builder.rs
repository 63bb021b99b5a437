//! The definition tree: value objects built once through chaining setters and
//! read-only thereafter. No validation happens at build time; every check is
//! deferred to parse time.

pub mod app;
pub mod command;
pub mod flag;

pub use app::App;
pub use command::Command;
pub use flag::Flag;
