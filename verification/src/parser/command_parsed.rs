use vstd::prelude::*;

verus! {

/// The mathematical image of a [`CommandParsed`]: each piece of the record as
/// a character sequence.
pub ghost struct ParsedView {
    pub command: Seq<char>,
    pub subcommand: Option<Seq<char>>,
    pub flags: Seq<Seq<char>>,
    pub values: Seq<Seq<char>>,
}

/// A successful parse, broken into plain strings: the matched command, the
/// matched subcommand if any, the recognized flags under their long names in
/// token order, and the remaining tokens as positional values.
///
/// The record is a fresh, independent value: every string is copied out of the
/// input, and nothing points back into the definition tree.
#[derive(Debug)]
pub struct CommandParsed {
    pub command: String,
    pub subcommand: Option<String>,
    pub flags: Vec<String>,
    pub values: Vec<String>,
}

impl View for CommandParsed {
    type V = ParsedView;

    open spec fn view(&self) -> ParsedView {
        ParsedView {
            command: self.command@,
            subcommand: self.subcommand.deep_view(),
            flags: self.flags.deep_view(),
            values: self.values.deep_view(),
        }
    }
}

impl CommandParsed {
    /// Returns the matched command name.
    pub fn get_command(&self) -> (r: &str)
        ensures
            r@ == self@.command,
    {
        self.command.as_str()
    }

    /// Returns the matched subcommand name, if one was present.
    pub fn get_subcommand(&self) -> (r: Option<&str>)
        ensures
            r is Some <==> self@.subcommand is Some,
            r matches Some(s) ==> self@.subcommand matches Some(sv) && s@ == sv,
    {
        match &self.subcommand {
            Some(s) => Some(s.as_str()),
            None => None,
        }
    }

    /// Returns the recognized flags, canonicalized to their long names, in
    /// the order their tokens appeared.
    pub fn get_flags(&self) -> (r: &Vec<String>)
        ensures
            r.deep_view() == self@.flags,
    {
        &self.flags
    }

    /// Returns the positional values, in their original order.
    pub fn get_values(&self) -> (r: &Vec<String>)
        ensures
            r.deep_view() == self@.values,
    {
        &self.values
    }
}

} // verus!
