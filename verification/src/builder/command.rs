use vstd::prelude::*;

use crate::builder::flag::Flag;

verus! {

/// A named, invocable unit. A subcommand is a `Command` value nested one level
/// inside its parent's `subcommands` list; there is no distinct subcommand
/// type. `flags` is the set matched when this command (or subcommand) is the
/// matching scope of a parse.
#[derive(Debug)]
pub struct Command {
    pub name: String,
    pub description: Option<String>,
    pub subcommands: Vec<Command>,
    pub flags: Vec<Flag>,
}

impl Command {
    /// Creates a command with the given name and nothing else.
    pub fn new(name: &str) -> (r: Command)
        ensures
            r.name@ == name@,
            r.description is None,
            r.subcommands@ == Seq::<Command>::empty(),
            r.flags@ == Seq::<Flag>::empty(),
    {
        Command {
            name: name.to_owned(),
            description: None,
            subcommands: Vec::new(),
            flags: Vec::new(),
        }
    }

    /// Sets the description, leaving the rest of the command unchanged.
    pub fn description(self, description: &str) -> (r: Command)
        ensures
            r.name == self.name,
            r.description matches Some(d) && d@ == description@,
            r.subcommands == self.subcommands,
            r.flags == self.flags,
    {
        let mut updated = self;
        updated.description = Some(description.to_owned());
        updated
    }

    /// Appends a subcommand, leaving the rest of the command unchanged.
    pub fn subcommand(self, subcommand: Command) -> (r: Command)
        ensures
            r.name == self.name,
            r.description == self.description,
            r.subcommands@ == self.subcommands@.push(subcommand),
            r.flags == self.flags,
    {
        let mut updated = self;
        updated.subcommands.push(subcommand);
        updated
    }

    /// Appends a flag, leaving the rest of the command unchanged.
    pub fn flag(self, flag: Flag) -> (r: Command)
        ensures
            r.name == self.name,
            r.description == self.description,
            r.subcommands == self.subcommands,
            r.flags@ == self.flags@.push(flag),
    {
        let mut updated = self;
        updated.flags.push(flag);
        updated
    }

    /// Returns the command's name.
    pub fn get_name(&self) -> (r: &str)
        ensures
            r@ == self.name@,
    {
        self.name.as_str()
    }

    /// Returns the description, if one was set.
    pub fn get_description(&self) -> (r: Option<&str>)
        ensures
            r is Some <==> self.description is Some,
            r matches Some(d) ==> self.description matches Some(sd) && d@ == sd@,
    {
        match &self.description {
            Some(d) => Some(d.as_str()),
            None => None,
        }
    }

    /// Returns the subcommands, in the order they were attached.
    pub fn get_subcommands(&self) -> (r: &[Command])
        ensures
            r@ == self.subcommands@,
    {
        self.subcommands.as_slice()
    }

    /// Returns the flags, in the order they were attached.
    pub fn get_flags(&self) -> (r: &[Flag])
        ensures
            r@ == self.flags@,
    {
        self.flags.as_slice()
    }
}

} // verus!
