//! Options of an invoked command: their values, lookups, and the schema
//! that describes what a command accepts.
use vstd::prelude::*;
use crate::text::{same_text, owned};

verus! {

/// The value given for one option.
#[derive(Debug)]
pub enum OptionValue {
    /// A partial value typed so far, in an autocomplete request.
    Autocomplete(String),
    Boolean(bool),
    Integer(i64),
    String(String),
    User(u64),
    Role(u64),
    Channel(u64),
    /// A kind of value no command here reads.
    Other,
}

/// One option of an invocation.
#[derive(Debug)]
pub struct CommandOption {
    pub name: String,
    pub value: OptionValue,
}

/// The kind of value an option takes.
#[derive(Clone, Copy, Debug, PartialEq, Eq, Structural)]
pub enum OptionKind {
    String,
    Integer,
    Boolean,
    User,
    Role,
}

/// What a command declares about one of its options.
#[derive(Debug)]
pub struct OptionDescriptor {
    pub name: String,
    pub kind: OptionKind,
    pub required: bool,
    pub autocomplete: bool,
    pub description: String,
}

/// Builds an option descriptor.
pub fn descriptor(name: &str, kind: OptionKind, required: bool, autocomplete: bool, description: &str) -> (r: OptionDescriptor)
    ensures
        r.name@ == name@,
        r.kind == kind,
        r.required == required,
        r.autocomplete == autocomplete,
        r.description@ == description@,
{
    OptionDescriptor { name: owned(name), kind, required, autocomplete, description: owned(description) }
}

/// Position of the first option named `name`.
pub open spec fn first_named(opts: Seq<CommandOption>, name: Seq<char>) -> Option<int> {
    if exists|i: int| 0 <= i < opts.len() && (#[trigger] opts[i]).name@ == name {
        Some(choose|i: int| 0 <= i < opts.len() && (#[trigger] opts[i]).name@ == name
            && forall|k: int| 0 <= k < i ==> (#[trigger] opts[k]).name@ != name)
    } else {
        None
    }
}

/// Text of a value, for string and autocomplete values.
pub open spec fn value_text(v: OptionValue) -> Option<Seq<char>> {
    match v {
        OptionValue::String(s) => Some(s@),
        OptionValue::Autocomplete(s) => Some(s@),
        _ => None,
    }
}

fn find_named(opts: &Vec<CommandOption>, name: &str) -> (r: Option<usize>)
    ensures
        r is None ==> forall|i: int| 0 <= i < opts@.len() ==> (#[trigger] opts@[i]).name@ != name@,
        r is Some ==> r->Some_0 < opts@.len() && opts@[r->Some_0 as int].name@ == name@
            && forall|k: int| 0 <= k < r->Some_0 ==> (#[trigger] opts@[k]).name@ != name@,
{
    let mut i: usize = 0;
    while i < opts.len()
        invariant
            i <= opts@.len(),
            forall|k: int| 0 <= k < i ==> (#[trigger] opts@[k]).name@ != name@,
        decreases opts@.len() - i,
    {
        if same_text(opts[i].name.as_str(), name) {
            return Some(i);
        }
        i = i + 1;
    }
    None
}

proof fn lemma_first_named(opts: Seq<CommandOption>, name: Seq<char>, i: int)
    requires
        0 <= i < opts.len(),
        opts[i].name@ == name,
        forall|k: int| 0 <= k < i ==> (#[trigger] opts[k]).name@ != name,
    ensures
        first_named(opts, name) == Some(i),
{
    let j = first_named(opts, name)->Some_0;
    assert(0 <= j < opts.len() && opts[j].name@ == name);
    if j < i {
        assert(opts[j].name@ != name);
    }
    if j > i {
        assert(opts[i].name@ != name);
    }
}

/// The text given for option `name`, when it is a string or a partial
/// autocomplete value.
pub fn get_str_opt_ac<'a>(options: &'a Vec<CommandOption>, name: &str) -> (r: Option<&'a str>)
    ensures
        first_named(options@, name@) is None ==> r is None,
        first_named(options@, name@) is Some ==> {
            let v = options@[first_named(options@, name@)->Some_0].value;
            &&& r is Some <==> value_text(v) is Some
            &&& r is Some ==> r->Some_0@ == value_text(v)->Some_0
        },
{
    match find_named(options, name) {
        None => None,
        Some(i) => {
            proof {
                lemma_first_named(options@, name@, i as int);
            }
            match &options[i].value {
                OptionValue::String(s) => Some(s.as_str()),
                OptionValue::Autocomplete(s) => Some(s.as_str()),
                _ => None,
            }
        },
    }
}

/// The integer given for option `name`.
pub fn get_int_opt_ac(options: &Vec<CommandOption>, name: &str) -> (r: Option<i64>)
    ensures
        first_named(options@, name@) is None ==> r is None,
        first_named(options@, name@) is Some ==> {
            let v = options@[first_named(options@, name@)->Some_0].value;
            &&& r is Some <==> v is Integer
            &&& r is Some ==> r->Some_0 == v->Integer_0
        },
{
    match find_named(options, name) {
        None => None,
        Some(i) => {
            proof {
                lemma_first_named(options@, name@, i as int);
            }
            match &options[i].value {
                OptionValue::Integer(v) => Some(*v),
                _ => None,
            }
        },
    }
}

/// The string given for option `name`; only a string value counts.
pub fn get_string(options: &Vec<CommandOption>, name: &str) -> (r: Option<String>)
    ensures
        first_named(options@, name@) is None ==> r is None,
        first_named(options@, name@) is Some ==> {
            let v = options@[first_named(options@, name@)->Some_0].value;
            &&& r is Some <==> v is String
            &&& r is Some ==> r->Some_0@ == v->String_0@
        },
{
    match find_named(options, name) {
        None => None,
        Some(i) => {
            proof {
                lemma_first_named(options@, name@, i as int);
            }
            match &options[i].value {
                OptionValue::String(s) => Some(s.clone()),
                _ => None,
            }
        },
    }
}

/// Position of the option being completed: the first with a partial value.
pub open spec fn first_autocomplete(opts: Seq<CommandOption>) -> Option<int> {
    if exists|i: int| 0 <= i < opts.len() && (#[trigger] opts[i]).value is Autocomplete {
        Some(choose|i: int| 0 <= i < opts.len() && (#[trigger] opts[i]).value is Autocomplete
            && forall|k: int| 0 <= k < i ==> !((#[trigger] opts[k]).value is Autocomplete))
    } else {
        None
    }
}

/// The text typed so far for option `name`, or nothing.
pub open spec fn partial_text(opts: Seq<CommandOption>, name: Seq<char>) -> Seq<char> {
    match first_named(opts, name) {
        Some(j) => match value_text(opts[j].value) {
            Some(t) => t,
            None => Seq::empty(),
        },
        None => Seq::empty(),
    }
}

/// Name of the option being completed: the first with a partial value.
pub fn get_focused_option<'a>(options: &'a Vec<CommandOption>) -> (r: Option<&'a str>)
    ensures
        r is None <==> first_autocomplete(options@) is None,
        r is Some ==> options@[first_autocomplete(options@)->Some_0].name@ == r->Some_0@,
{
    let mut i: usize = 0;
    while i < options.len()
        invariant
            i <= options@.len(),
            forall|k: int| 0 <= k < i ==> !((#[trigger] options@[k]).value is Autocomplete),
        decreases options@.len() - i,
    {
        if let OptionValue::Autocomplete(_) = &options[i].value {
            proof {
                let o = options@;
                assert(0 <= i < o.len() && o[i as int].value is Autocomplete);
                let j = first_autocomplete(o)->Some_0;
                if j < i {
                    assert(!(o[j].value is Autocomplete));
                }
                if j > i {
                    assert(!(o[i as int].value is Autocomplete));
                }
            }
            return Some(options[i].name.as_str());
        }
        i = i + 1;
    }
    None
}

/// Reads required string option `name`; a missing value is an error.
pub fn required_string(options: &Vec<CommandOption>, name: &str) -> (r: Result<String, String>)
    ensures
        r is Ok <==> first_named(options@, name@) is Some && options@[first_named(options@, name@)->Some_0].value is String,
        r is Ok ==> r->Ok_0@ == options@[first_named(options@, name@)->Some_0].value->String_0@,
{
    match get_string(options, name) {
        Some(s) => Ok(s),
        None => Err(owned("Value is required")),
    }
}

} // verus!
