//! A declarative command-line argument parser.
//!
//! Callers describe a program's command surface — an application name, a tree
//! of commands, subcommands, and flags — through a chaining builder, then feed
//! raw argument tokens into a parser that segments them into a structured
//! result: the command name, an optional subcommand, the recognized flags, and
//! the remaining positional values.

pub mod builder;
pub mod errors;
pub mod parser;
