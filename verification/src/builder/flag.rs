use vstd::prelude::*;

verus! {

/// A named option. On the command line it is recognized by its `long` name
/// written `--long`, or — when a single-character short form is set — by that
/// character written `-c`. The description is documentation only and has no
/// effect on matching.
#[derive(Debug, Clone)]
pub struct Flag {
    pub long: String,
    pub short: Option<char>,
    pub description: Option<String>,
}

impl Flag {
    /// Creates a flag recognized by `long`, with no short form and no
    /// description.
    pub fn new(long: &str) -> (r: Flag)
        ensures
            r.long@ == long@,
            r.short is None,
            r.description is None,
    {
        Flag { long: long.to_owned(), short: None, description: None }
    }

    /// Sets the description, leaving the rest of the flag unchanged.
    pub fn description(self, description: &str) -> (r: Flag)
        ensures
            r.long == self.long,
            r.short == self.short,
            r.description matches Some(d) && d@ == description@,
    {
        let mut updated = self;
        updated.description = Some(description.to_owned());
        updated
    }

    /// Sets the single-character short form, leaving the rest unchanged.
    pub fn short(self, short: char) -> (r: Flag)
        ensures
            r.long == self.long,
            r.short == Some(short),
            r.description == self.description,
    {
        let mut updated = self;
        updated.short = Some(short);
        updated
    }

    /// Returns the long name.
    pub fn get_long(&self) -> (r: &str)
        ensures
            r@ == self.long@,
    {
        self.long.as_str()
    }

    /// Returns the short form, if one was set.
    pub fn get_short(&self) -> (r: Option<char>)
        ensures
            r == self.short,
    {
        self.short
    }

    /// Returns the description, if one was set.
    pub fn get_description(&self) -> (r: Option<&str>)
        ensures
            r is Some <==> self.description is Some,
            r matches Some(d) ==> self.description matches Some(sd) && d@ == sd@,
    {
        match &self.description {
            Some(d) => Some(d.as_str()),
            None => None,
        }
    }
}

} // verus!
