use vstd::prelude::*;
use vstd::string::StringExecFns;

use crate::builder::command::Command;
use crate::errors::AppError;
use crate::errors::ErrView;
use crate::parser::command_parsed::CommandParsed;
use crate::parser::command_parsed::ParsedView;
use crate::parser::model::parse_spec;
use crate::parser::utils::get_command;
use crate::parser::utils::get_flags;
use crate::parser::utils::get_subcommand;
use crate::parser::utils::get_values;

verus! {

/// The root of the definition tree: application metadata plus the top-level
/// commands. The name, version and description are metadata only and have no
/// effect on parsing.
#[derive(Debug)]
pub struct App {
    pub name: String,
    pub version: Option<String>,
    pub description: Option<String>,
    pub commands: Vec<Command>,
}

impl App {
    /// Creates an application with the given name and no commands.
    pub fn new(name: &str) -> (r: App)
        ensures
            r.name@ == name@,
            r.version is None,
            r.description is None,
            r.commands@ == Seq::<Command>::empty(),
    {
        App {
            name: name.to_owned(),
            version: None,
            description: None,
            commands: Vec::new(),
        }
    }

    /// Sets the version, leaving the rest of the application unchanged.
    pub fn version(self, version: &str) -> (r: App)
        ensures
            r.name == self.name,
            r.version matches Some(v) && v@ == version@,
            r.description == self.description,
            r.commands == self.commands,
    {
        let mut updated = self;
        updated.version = Some(version.to_owned());
        updated
    }

    /// Sets the description, leaving the rest of the application unchanged.
    pub fn description(self, description: &str) -> (r: App)
        ensures
            r.name == self.name,
            r.version == self.version,
            r.description matches Some(d) && d@ == description@,
            r.commands == self.commands,
    {
        let mut updated = self;
        updated.description = Some(description.to_owned());
        updated
    }

    /// Appends a top-level command, leaving the rest unchanged.
    pub fn command(self, command: Command) -> (r: App)
        ensures
            r.name == self.name,
            r.version == self.version,
            r.description == self.description,
            r.commands@ == self.commands@.push(command),
    {
        let mut updated = self;
        updated.commands.push(command);
        updated
    }

    /// Parses an explicit token sequence against this application and returns
    /// the structured result, or the typed error of the first resolution step
    /// that fails. The outcome is exactly what [`parse_spec`] says for these
    /// tokens; in particular, a sequence on which the matching scope
    /// recognizes no flag fails, even when the scope declares no flags at
    /// all. This call performs no input or output.
    pub fn try_parse_args(&self, args: Vec<String>) -> (r: Result<CommandParsed, AppError>)
        ensures
            ({
                let outcome = parse_spec(*self, args.deep_view());
                match r {
                    Ok(p) => outcome == Ok::<ParsedView, ErrView>(p@),
                    Err(e) => outcome == Err::<ParsedView, ErrView>(e@),
                }
            }),
    {
        if args.len() < 2 {
            return Err(AppError::InvalidInput("Too few arguments".to_owned()));
        }
        let command = match get_command(self, &args) {
            Ok(c) => c,
            Err(e) => return Err(e),
        };
        let subcommand = match get_subcommand(self, &args) {
            Ok(s) => s,
            Err(e) => return Err(e),
        };
        let flags = match get_flags(self, &args) {
            Ok(f) => f,
            Err(e) => return Err(e),
        };
        let values = match get_values(&args, &subcommand, &flags) {
            Ok(v) => v,
            Err(e) => return Err(e),
        };

        Ok(CommandParsed { command, subcommand, flags, values })
    }

    /// Returns the application name.
    pub fn get_name(&self) -> (r: &str)
        ensures
            r@ == self.name@,
    {
        self.name.as_str()
    }

    /// Returns the version, if one was set.
    pub fn get_version(&self) -> (r: Option<&str>)
        ensures
            r is Some <==> self.version is Some,
            r matches Some(v) ==> self.version matches Some(sv) && v@ == sv@,
    {
        match &self.version {
            Some(v) => Some(v.as_str()),
            None => None,
        }
    }

    /// Returns the description, if one was set.
    pub fn get_description(&self) -> (r: Option<&str>)
        ensures
            r is Some <==> self.description is Some,
            r matches Some(d) ==> self.description matches Some(sd) && d@ == sd@,
    {
        match &self.description {
            Some(d) => Some(d.as_str()),
            None => None,
        }
    }

    /// Returns the top-level commands, in the order they were attached.
    pub fn get_commands(&self) -> (r: &[Command])
        ensures
            r@ == self.commands@,
    {
        self.commands.as_slice()
    }
}

} // verus!
