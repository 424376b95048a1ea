//! Options of the commands that add and remove automatic reactions.
use vstd::prelude::*;
use crate::options::{CommandOption, OptionDescriptor, OptionKind, descriptor, first_named, required_string};

verus! {

/// `add_autoreact`: react with `emote` to messages holding `trigger`.
#[derive(Debug)]
pub struct AddAutoreact {
    pub trigger: String,
    pub emote: String,
}

/// `remove_autoreact`: stop reacting with `emote` to `trigger`.
#[derive(Debug)]
pub struct RemoveAutoreact {
    pub trigger: String,
    pub emote: String,
}

/// The string value given for option `name` of `opts`, when there is one.
pub open spec fn string_option(opts: Seq<CommandOption>, name: Seq<char>) -> Option<Seq<char>> {
    match first_named(opts, name) {
        Some(i) => match opts[i].value {
            crate::options::OptionValue::String(s) => Some(s@),
            _ => None,
        },
        None => None,
    }
}

fn trigger_and_emote(options: &Vec<CommandOption>) -> (r: Result<(String, String), String>)
    ensures
        r is Ok <==> string_option(options@, "trigger"@) is Some && string_option(options@, "emote"@) is Some,
        r is Ok ==> r->Ok_0.0@ == string_option(options@, "trigger"@)->Some_0
            && r->Ok_0.1@ == string_option(options@, "emote"@)->Some_0,
{
    let trigger = match required_string(options, "trigger") {
        Ok(t) => t,
        Err(e) => {
            return Err(e);
        },
    };
    let emote = match required_string(options, "emote") {
        Ok(t) => t,
        Err(e) => {
            return Err(e);
        },
    };
    Ok((trigger, emote))
}

impl AddAutoreact {
    pub const NAME: &'static str = "add_autoreact";

    pub fn schema() -> (r: Vec<OptionDescriptor>)
        ensures
            r@.len() == 2,
            r@[0].name@ == "trigger"@ && r@[0].kind == OptionKind::String && r@[0].required && !r@[0].autocomplete,
            r@[1].name@ == "emote"@ && r@[1].kind == OptionKind::String && r@[1].required && !r@[1].autocomplete,
    {
        let mut r: Vec<OptionDescriptor> = Vec::new();
        r.push(descriptor("trigger", OptionKind::String, true, false,
            "The word that will trigger the reaction (case-insensitive)"));
        r.push(descriptor("emote", OptionKind::String, true, false, "The emote to react with"));
        r
    }

    pub fn parse(options: &Vec<CommandOption>) -> (r: Result<AddAutoreact, String>)
        ensures
            r is Ok <==> string_option(options@, "trigger"@) is Some && string_option(options@, "emote"@) is Some,
            r is Ok ==> r->Ok_0.trigger@ == string_option(options@, "trigger"@)->Some_0
                && r->Ok_0.emote@ == string_option(options@, "emote"@)->Some_0,
    {
        match trigger_and_emote(options) {
            Ok((trigger, emote)) => Ok(AddAutoreact { trigger, emote }),
            Err(e) => Err(e),
        }
    }
}

impl RemoveAutoreact {
    pub const NAME: &'static str = "remove_autoreact";

    pub fn schema() -> (r: Vec<OptionDescriptor>)
        ensures
            r@.len() == 2,
            r@[0].name@ == "trigger"@ && r@[0].kind == OptionKind::String && r@[0].required && r@[0].autocomplete,
            r@[1].name@ == "emote"@ && r@[1].kind == OptionKind::String && r@[1].required && r@[1].autocomplete,
    {
        let mut r: Vec<OptionDescriptor> = Vec::new();
        r.push(descriptor("trigger", OptionKind::String, true, true,
            "The word that triggers the reaction (case-insensitive)"));
        r.push(descriptor("emote", OptionKind::String, true, true, "The emote to stop reacting with"));
        r
    }

    pub fn parse(options: &Vec<CommandOption>) -> (r: Result<RemoveAutoreact, String>)
        ensures
            r is Ok <==> string_option(options@, "trigger"@) is Some && string_option(options@, "emote"@) is Some,
            r is Ok ==> r->Ok_0.trigger@ == string_option(options@, "trigger"@)->Some_0
                && r->Ok_0.emote@ == string_option(options@, "emote"@)->Some_0,
    {
        match trigger_and_emote(options) {
            Ok((trigger, emote)) => Ok(RemoveAutoreact { trigger, emote }),
            Err(e) => Err(e),
        }
    }
}

} // verus!
