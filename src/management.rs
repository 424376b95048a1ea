//! Administration commands that enable or disable a command for one guild,
//! and their autocompletion.
use vstd::prelude::*;
use crate::options::{CommandOption, OptionDescriptor, OptionKind, descriptor, first_autocomplete, first_named, get_focused_option, get_str_opt_ac, partial_text, required_string};
use crate::router::{CommandEntry, CommandStore};
use crate::text::{contains_str, occurs_in, owned, parse_u64, parsed_u64, push_str, same_text};

verus! {

/// Most choices offered in one autocomplete answer.
pub const MAX_CHOICES: usize = 25;

/// `enable_command_for_guild`: registers a command in one guild.
#[derive(Debug)]
pub struct EnableCommandForGuild {
    pub command: String,
    pub guild: String,
}

/// `disable_command_for_guild`: removes a command from one guild.
#[derive(Debug)]
pub struct DisableCommandForGuild {
    pub command: String,
    pub guild: String,
}

/// The module holding the two administration commands.
#[derive(Debug)]
pub struct ModManagement {}

/// What an administration command does once its inputs are checked.
#[derive(Debug)]
pub enum ManagementStep {
    /// Nothing to change; reply privately with this text.
    Reply(String),
    /// Store the override for this guild and update the platform; `entry`
    /// is the first command registered under the name.
    Apply { guild: u64, entry: usize },
}

/// Position of the first entry of `s` named `name`.
pub open spec fn first_with_name(s: Seq<CommandEntry>, name: Seq<char>) -> Option<int> {
    if exists|i: int| 0 <= i < s.len() && (#[trigger] s[i]).key.name@ == name {
        Some(choose|i: int| 0 <= i < s.len() && (#[trigger] s[i]).key.name@ == name
            && forall|k: int| 0 <= k < i ==> (#[trigger] s[k]).key.name@ != name)
    } else {
        None
    }
}

fn find_name(store: &CommandStore, name: &str) -> (r: Option<usize>)
    ensures
        r is None <==> first_with_name(store@, name@) is None,
        r is Some ==> first_with_name(store@, name@) == Some(r->Some_0 as int),
        r is Some ==> r->Some_0 < store@.len(),
{
    let mut i: usize = 0;
    while i < store.len()
        invariant
            i <= store@.len(),
            forall|k: int| 0 <= k < i ==> (#[trigger] store@[k]).key.name@ != name@,
        decreases store@.len() - i,
    {
        if same_text(store.entry(i).key.name.as_str(), name) {
            proof {
                let j = first_with_name(store@, name@)->Some_0;
                assert(store@[i as int].key.name@ == name@);
                if j < i {
                    assert(store@[j].key.name@ != name@);
                }
                if j > i {
                    assert(store@[i as int].key.name@ != name@);
                }
            }
            return Some(i);
        }
        i = i + 1;
    }
    None
}

/// The reply when no command has the name.
pub open spec fn not_found_text(command: Seq<char>) -> Seq<char> {
    "command "@ + command + " not found"@
}

/// The error for a guild id that is not a `u64`.
pub open spec fn invalid_guild_text() -> Seq<char> {
    "Invalid Guild Id, must be an integer"@
}

/// What an administration command for `command` in `guild` does on `store`.
pub open spec fn management_plan(store: Seq<CommandEntry>, command: Seq<char>, guild: Seq<char>) -> Result<(Option<Seq<char>>, u64, int), Seq<char>> {
    match parsed_u64(guild) {
        None => Err(invalid_guild_text()),
        Some(g) => match first_with_name(store, command) {
            None => Ok((Some(not_found_text(command)), g, 0)),
            Some(i) => Ok((None, g, i)),
        },
    }
}

/// Checks the guild id and the command name of an administration command.
fn plan(store: &CommandStore, command: &String, guild: &String) -> (r: Result<ManagementStep, String>)
    ensures
        r is Err <==> parsed_u64(guild@) is None,
        r is Err ==> r->Err_0@ == invalid_guild_text(),
        r is Ok ==> match r->Ok_0 {
            ManagementStep::Reply(t) => first_with_name(store@, command@) is None && t@ == not_found_text(command@),
            ManagementStep::Apply { guild: g, entry } => parsed_u64(guild@) == Some(g)
                && first_with_name(store@, command@) == Some(entry as int),
        },
{
    let g = match parse_u64(guild.as_str()) {
        Some(g) => g,
        None => {
            return Err(owned("Invalid Guild Id, must be an integer"));
        },
    };
    match find_name(store, command.as_str()) {
        None => {
            let mut t = owned("command ");
            push_str(&mut t, command.as_str());
            push_str(&mut t, " not found");
            Ok(ManagementStep::Reply(t))
        },
        Some(entry) => Ok(ManagementStep::Apply { guild: g, entry }),
    }
}

/// The options both administration commands take.
fn management_schema() -> (r: Vec<OptionDescriptor>)
    ensures
        r@.len() == 2,
        r@[0].name@ == "command"@ && r@[0].kind == OptionKind::String && r@[0].required && r@[0].autocomplete,
        r@[1].name@ == "guild"@ && r@[1].kind == OptionKind::String && r@[1].required && r@[1].autocomplete,
{
    let mut r: Vec<OptionDescriptor> = Vec::new();
    r.push(descriptor("command", OptionKind::String, true, true, "command"));
    r.push(descriptor("guild", OptionKind::String, true, true, "guild"));
    r
}

/// Reads the `command` and `guild` options.
fn parse_pair(options: &Vec<CommandOption>) -> (r: Result<(String, String), String>)
    ensures
        r is Ok <==> first_named(options@, "command"@) is Some
            && options@[first_named(options@, "command"@)->Some_0].value is String
            && first_named(options@, "guild"@) is Some
            && options@[first_named(options@, "guild"@)->Some_0].value is String,
        r is Ok ==> r->Ok_0.0@ == options@[first_named(options@, "command"@)->Some_0].value->String_0@
            && r->Ok_0.1@ == options@[first_named(options@, "guild"@)->Some_0].value->String_0@,
{
    let command = match required_string(options, "command") {
        Ok(c) => c,
        Err(e) => {
            return Err(e);
        },
    };
    let guild = match required_string(options, "guild") {
        Ok(g) => g,
        Err(e) => {
            return Err(e);
        },
    };
    Ok((command, guild))
}

/// "<verb> command '<command>' for guild with id `<guild>`".
pub open spec fn done_text(verb: Seq<char>, command: Seq<char>, guild: Seq<char>) -> Seq<char> {
    verb + " command '"@ + command + "' for guild with id `"@ + guild + "`"@
}

fn done_message(verb: &str, command: &String, guild: &String) -> (r: String)
    ensures
        r@ == done_text(verb@, command@, guild@),
{
    let mut t = owned(verb);
    push_str(&mut t, " command '");
    push_str(&mut t, command.as_str());
    push_str(&mut t, "' for guild with id `");
    push_str(&mut t, guild.as_str());
    push_str(&mut t, "`");
    t
}

impl EnableCommandForGuild {
    pub const NAME: &'static str = "enable_command_for_guild";

    pub fn schema() -> (r: Vec<OptionDescriptor>)
        ensures
            r@.len() == 2,
            r@[0].name@ == "command"@ && r@[0].required && r@[0].autocomplete,
            r@[1].name@ == "guild"@ && r@[1].required && r@[1].autocomplete,
    {
        management_schema()
    }

    pub fn parse(options: &Vec<CommandOption>) -> (r: Result<EnableCommandForGuild, String>)
        ensures
            r is Ok ==> r->Ok_0.command@ == options@[first_named(options@, "command"@)->Some_0].value->String_0@
                && r->Ok_0.guild@ == options@[first_named(options@, "guild"@)->Some_0].value->String_0@,
            r is Ok <==> first_named(options@, "command"@) is Some
                && options@[first_named(options@, "command"@)->Some_0].value is String
                && first_named(options@, "guild"@) is Some
                && options@[first_named(options@, "guild"@)->Some_0].value is String,
    {
        match parse_pair(options) {
            Ok((command, guild)) => Ok(EnableCommandForGuild { command, guild }),
            Err(e) => Err(e),
        }
    }

    /// Checks the inputs against the registered commands.
    pub fn plan(&self, store: &CommandStore) -> (r: Result<ManagementStep, String>)
        ensures
            r is Err <==> parsed_u64(self.guild@) is None,
            r is Err ==> r->Err_0@ == invalid_guild_text(),
            r is Ok ==> match r->Ok_0 {
                ManagementStep::Reply(t) => first_with_name(store@, self.command@) is None && t@ == not_found_text(self.command@),
                ManagementStep::Apply { guild: g, entry } => parsed_u64(self.guild@) == Some(g)
                    && first_with_name(store@, self.command@) == Some(entry as int),
            },
    {
        plan(store, &self.command, &self.guild)
    }

    /// The public reply once the command is enabled.
    pub fn done_message(&self) -> (r: String)
        ensures
            r@ == done_text("Enabled"@, self.command@, self.guild@),
    {
        done_message("Enabled", &self.command, &self.guild)
    }
}

impl DisableCommandForGuild {
    pub const NAME: &'static str = "disable_command_for_guild";

    pub fn schema() -> (r: Vec<OptionDescriptor>)
        ensures
            r@.len() == 2,
            r@[0].name@ == "command"@ && r@[0].required && r@[0].autocomplete,
            r@[1].name@ == "guild"@ && r@[1].required && r@[1].autocomplete,
    {
        management_schema()
    }

    pub fn parse(options: &Vec<CommandOption>) -> (r: Result<DisableCommandForGuild, String>)
        ensures
            r is Ok ==> r->Ok_0.command@ == options@[first_named(options@, "command"@)->Some_0].value->String_0@
                && r->Ok_0.guild@ == options@[first_named(options@, "guild"@)->Some_0].value->String_0@,
            r is Ok <==> first_named(options@, "command"@) is Some
                && options@[first_named(options@, "command"@)->Some_0].value is String
                && first_named(options@, "guild"@) is Some
                && options@[first_named(options@, "guild"@)->Some_0].value is String,
    {
        match parse_pair(options) {
            Ok((command, guild)) => Ok(DisableCommandForGuild { command, guild }),
            Err(e) => Err(e),
        }
    }

    /// Checks the inputs against the registered commands.
    pub fn plan(&self, store: &CommandStore) -> (r: Result<ManagementStep, String>)
        ensures
            r is Err <==> parsed_u64(self.guild@) is None,
            r is Err ==> r->Err_0@ == invalid_guild_text(),
            r is Ok ==> match r->Ok_0 {
                ManagementStep::Reply(t) => first_with_name(store@, self.command@) is None && t@ == not_found_text(self.command@),
                ManagementStep::Apply { guild: g, entry } => parsed_u64(self.guild@) == Some(g)
                    && first_with_name(store@, self.command@) == Some(entry as int),
            },
    {
        plan(store, &self.command, &self.guild)
    }

    /// The public reply once the command is disabled.
    pub fn done_message(&self) -> (r: String)
        ensures
            r@ == done_text("Disabled"@, self.command@, self.guild@),
    {
        done_message("Disabled", &self.command, &self.guild)
    }
}

/// What the administration completion handler does with a request.
#[derive(Debug)]
pub enum ManagementCompletion {
    /// Not one of the administration commands: the chain goes on.
    NotMine,
    /// Claimed, but no option is being completed.
    NoFocus,
    /// Offer guilds whose name holds this text.
    Guild(String),
    /// Offer commands whose name holds this text.
    Command(String),
    /// Claimed; nothing to offer for the focused option.
    Other,
}

/// Whether `name` is kept for the partial text `partial`.
pub open spec fn matches_partial(name: Seq<char>, partial: Seq<char>) -> bool {
    partial.len() == 0 || occurs_in(partial, name)
}

/// Names of the guild-restricted commands of `s` that match `partial`.
pub open spec fn command_choice_names(s: Seq<CommandEntry>, partial: Seq<char>) -> Seq<Seq<char>>
    decreases s.len(),
{
    if s.len() == 0 {
        Seq::empty()
    } else {
        let rest = command_choice_names(s.drop_last(), partial);
        let e = s.last();
        if e.guild_restricted && matches_partial(e.key.name@, partial) {
            rest.push(e.key.name@)
        } else {
            rest
        }
    }
}

impl ModManagement {
    /// Decides how to complete an autocomplete request for `cmd_name`.
    pub fn completion_target(cmd_name: &str, options: &Vec<CommandOption>) -> (r: ManagementCompletion)
        ensures
            cmd_name@ != EnableCommandForGuild::NAME@ && cmd_name@ != DisableCommandForGuild::NAME@ ==> r is NotMine,
            (cmd_name@ == EnableCommandForGuild::NAME@ || cmd_name@ == DisableCommandForGuild::NAME@) ==> !(r is NotMine),
            (cmd_name@ == EnableCommandForGuild::NAME@ || cmd_name@ == DisableCommandForGuild::NAME@) ==> {
                match first_autocomplete(options@) {
                    None => r is NoFocus,
                    Some(f) => {
                        let n = options@[f].name@;
                        if n == "guild"@ {
                            r is Guild && r->Guild_0@ == partial_text(options@, n)
                        } else if n == "command"@ {
                            r is Command && r->Command_0@ == partial_text(options@, n)
                        } else {
                            r is Other
                        }
                    },
                }
            },
    {
        if !same_text(cmd_name, EnableCommandForGuild::NAME) && !same_text(cmd_name, DisableCommandForGuild::NAME) {
            return ManagementCompletion::NotMine;
        }
        let focused = match get_focused_option(options) {
            Some(f) => f,
            None => {
                return ManagementCompletion::NoFocus;
            },
        };
        let partial = match get_str_opt_ac(options, focused) {
            Some(p) => owned(p),
            None => String::new(),
        };
        proof {
            assert(partial@ == partial_text(options@, focused@));
        }
        if same_text(focused, "guild") {
            ManagementCompletion::Guild(partial)
        } else if same_text(focused, "command") {
            ManagementCompletion::Command(partial)
        } else {
            ManagementCompletion::Other
        }
    }

    /// Names of guild-restricted commands matching `partial`, at most 25.
    pub fn command_choices(store: &CommandStore, partial: &str) -> (r: Vec<String>)
        ensures
            r@.len() == if command_choice_names(store@, partial@).len() <= MAX_CHOICES {
                command_choice_names(store@, partial@).len()
            } else {
                MAX_CHOICES as nat
            },
            forall|i: int| 0 <= i < r@.len() ==> (#[trigger] r@[i])@ == command_choice_names(store@, partial@)[i],
    {
        let mut r: Vec<String> = Vec::new();
        let mut i: usize = 0;
        while i < store.len() && r.len() < MAX_CHOICES
            invariant
                i <= store@.len(),
                r@.len() == command_choice_names(store@.subrange(0, i as int), partial@).len(),
                r@.len() <= MAX_CHOICES,
                forall|k: int| 0 <= k < r@.len() ==> (#[trigger] r@[k])@ == command_choice_names(store@.subrange(0, i as int), partial@)[k],
            decreases store@.len() - i,
        {
            let e = store.entry(i);
            if e.guild_restricted && (partial.unicode_len() == 0 || contains_str(e.key.name.as_str(), partial)) {
                r.push(e.key.name.clone());
            }
            proof {
                let p = store@.subrange(0, i + 1);
                assert(p.drop_last() =~= store@.subrange(0, i as int));
                assert(p.last() == store@[i as int]);
            }
            i = i + 1;
        }
        proof {
            lemma_choice_prefix(store@, partial@, i as int);
            if i == store@.len() {
                assert(store@.subrange(0, i as int) =~= store@);
            }
        }
        r
    }

    /// Adds to `choices`, in page order, the guilds of one page whose name
    /// matches `partial`, while fewer than 25 are offered.
    pub fn add_guild_choices(choices: &mut Vec<(u64, String)>, page: &Vec<(u64, String)>, partial: &str)
        requires
            old(choices)@.len() <= MAX_CHOICES,
        ensures
            final(choices)@.len() == old(choices)@.len() + if guild_matches(page@, partial@).len() <= MAX_CHOICES - old(choices)@.len() {
                guild_matches(page@, partial@).len()
            } else {
                (MAX_CHOICES - old(choices)@.len()) as nat
            },
            final(choices)@.subrange(0, old(choices)@.len() as int) == old(choices)@,
            forall|k: int| old(choices)@.len() <= k < final(choices)@.len() ==>
                #[trigger] final(choices)@[k] == guild_matches(page@, partial@)[k - old(choices)@.len()],
    {
        let ghost o = old(choices)@;
        let mut i: usize = 0;
        while i < page.len() && choices.len() < MAX_CHOICES
            invariant
                o == old(choices)@,
                o.len() <= MAX_CHOICES,
                i <= page@.len(),
                choices@.len() <= MAX_CHOICES,
                choices@.len() == o.len() + guild_matches(page@.subrange(0, i as int), partial@).len(),
                choices@.subrange(0, o.len() as int) == o,
                forall|k: int| o.len() <= k < choices@.len() ==>
                    #[trigger] choices@[k] == guild_matches(page@.subrange(0, i as int), partial@)[k - o.len()],
            decreases page@.len() - i,
        {
            let g = &page[i];
            let ghost before = choices@;
            proof {
                let p = page@.subrange(0, i + 1);
                assert(p.drop_last() =~= page@.subrange(0, i as int));
                assert(p.last() == page@[i as int]);
            }
            if partial.unicode_len() == 0 || contains_str(g.1.as_str(), partial) {
                choices.push((g.0, g.1.clone()));
                proof {
                    assert(choices@.subrange(0, o.len() as int) =~= before.subrange(0, o.len() as int));
                }
            }
            i = i + 1;
            proof {
                assert forall|k: int| o.len() <= k < choices@.len() implies
                    #[trigger] choices@[k] == guild_matches(page@.subrange(0, i as int), partial@)[k - o.len()] by {
                    if k < before.len() {
                        assert(choices@[k] == before[k]);
                    }
                }
            }
        }
        proof {
            lemma_guild_prefix(page@, partial@, i as int);
            if i == page@.len() {
                assert(page@.subrange(0, i as int) =~= page@);
            }
        }
    }
}

/// Guilds of `page` whose name matches `partial`, in page order.
pub open spec fn guild_matches(page: Seq<(u64, String)>, partial: Seq<char>) -> Seq<(u64, String)>
    decreases page.len(),
{
    if page.len() == 0 {
        Seq::empty()
    } else {
        let rest = guild_matches(page.drop_last(), partial);
        if matches_partial(page.last().1@, partial) {
            rest.push(page.last())
        } else {
            rest
        }
    }
}

proof fn lemma_guild_prefix(page: Seq<(u64, String)>, partial: Seq<char>, i: int)
    requires
        0 <= i <= page.len(),
    ensures
        guild_matches(page.subrange(0, i), partial).len() <= guild_matches(page, partial).len(),
        forall|k: int| 0 <= k < guild_matches(page.subrange(0, i), partial).len() ==>
            #[trigger] guild_matches(page.subrange(0, i), partial)[k] == guild_matches(page, partial)[k],
    decreases page.len() - i,
{
    if i < page.len() {
        lemma_guild_prefix(page, partial, i + 1);
        let p = page.subrange(0, i + 1);
        assert(p.drop_last() =~= page.subrange(0, i));
        let a = guild_matches(page.subrange(0, i), partial);
        let b = guild_matches(p, partial);
        assert forall|k: int| 0 <= k < a.len() implies #[trigger] a[k] == guild_matches(page, partial)[k] by {
            assert(a[k] == b[k]);
        }
    } else {
        assert(page.subrange(0, i) =~= page);
    }
}

proof fn lemma_choice_prefix(s: Seq<CommandEntry>, partial: Seq<char>, i: int)
    requires
        0 <= i <= s.len(),
    ensures
        command_choice_names(s.subrange(0, i), partial).len() <= command_choice_names(s, partial).len(),
        forall|k: int| 0 <= k < command_choice_names(s.subrange(0, i), partial).len() ==>
            #[trigger] command_choice_names(s.subrange(0, i), partial)[k] == command_choice_names(s, partial)[k],
    decreases s.len() - i,
{
    if i < s.len() {
        lemma_choice_prefix(s, partial, i + 1);
        let p = s.subrange(0, i + 1);
        assert(p.drop_last() =~= s.subrange(0, i));
        let a = command_choice_names(s.subrange(0, i), partial);
        let b = command_choice_names(p, partial);
        assert(a.len() <= b.len());
        assert forall|k: int| 0 <= k < a.len() implies #[trigger] a[k] == command_choice_names(s, partial)[k] by {
            assert(a[k] == b[k]);
        }
    } else {
        assert(s.subrange(0, i) =~= s);
    }
}

} // verus!
