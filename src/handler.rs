//! The assembled runtime: routes commands and turns outcomes into replies.
use vstd::prelude::*;
use crate::command::{CommandKind, CommandResponse, ResponseType};
use crate::completion::CompletionChain;
use crate::events::EventHandlers;
use crate::registry::{HandlerBuilder, ModuleError, ModuleMap, SpecialCommand};
use crate::router::{CommandEntry, CommandStore, lookup, lemma_lookup_some};
use crate::text::same_text;

verus! {

/// The runtime once start-up is over; only read from then on.
pub struct Handler {
    pub commands: CommandStore,
    pub modules: ModuleMap,
    pub special_commands: Vec<SpecialCommand>,
    pub completion_handlers: CompletionChain,
    pub default_command_handler: Option<u64>,
    pub event_handlers: EventHandlers,
}

/// Where an invocation goes.
#[derive(Clone, Copy, Debug, PartialEq, Eq, Structural)]
pub enum Route {
    /// A meta-command handler, ahead of the store.
    Special(u64),
    /// The handler of the registered command.
    Registered(u64),
    /// The fallback handler.
    Default(u64),
}

/// Why an invocation was not routed.
#[derive(Debug)]
pub enum DispatchError {
    /// No handler answers this command here; holds the command's name.
    UnknownCommand(String),
}

/// The handler of the first special command named `name`.
pub open spec fn special_lookup(sp: Seq<SpecialCommand>, name: Seq<char>) -> Option<u64>
    decreases sp.len(),
{
    if sp.len() == 0 {
        None
    } else if sp[0].name@ == name {
        Some(sp[0].handler)
    } else {
        special_lookup(sp.skip(1), name)
    }
}

/// Where command `(name, kind)` goes, given the audience's override for it
/// (`Some(false)`: disabled there; `Some(true)`: enabled there; `None`: no
/// override). Special commands come first; a disabled command is unknown; a
/// guild-restricted command needs an explicit enable; otherwise the
/// registered handler, else the default handler.
pub open spec fn route(
    commands: Seq<CommandEntry>,
    specials: Seq<SpecialCommand>,
    default: Option<u64>,
    name: Seq<char>,
    kind: CommandKind,
    enabled: Option<bool>,
) -> Option<Route> {
    match special_lookup(specials, name) {
        Some(h) => Some(Route::Special(h)),
        None => if enabled == Some(false) {
            None
        } else {
            match lookup(commands, name, kind) {
                Some(e) => if e.guild_restricted && enabled != Some(true) {
                    None
                } else {
                    Some(Route::Registered(e.handler))
                },
                None => match default {
                    Some(h) => Some(Route::Default(h)),
                    None => None,
                },
            }
        },
    }
}

impl HandlerBuilder {
    /// Freezes the builder into the running handler.
    pub fn build(self) -> (r: Handler)
        ensures
            r.commands == self.commands,
            r.modules == self.modules,
            r.special_commands == self.special_commands,
            r.completion_handlers == self.completion_handlers,
            r.default_command_handler == self.default_command_handler,
            r.event_handlers == self.event_handlers,
    {
        let HandlerBuilder {
            commands,
            modules,
            special_commands,
            completion_handlers,
            default_command_handler,
            event_handlers,
        } = self;
        Handler {
            commands,
            modules,
            special_commands,
            completion_handlers,
            default_command_handler,
            event_handlers,
        }
    }
}

impl Handler {
    /// Position of module `id` in initialization order, or an error when it
    /// is not registered.
    pub fn module(&self, id: usize) -> (r: Result<usize, ModuleError>)
        ensures
            r is Ok <==> self.modules@.contains(id),
            r is Ok ==> self.modules@[r->Ok_0 as int] == id,
            r is Err ==> r->Err_0 == ModuleError::UnknownModule(id),
    {
        self.modules.module(id)
    }

    fn find_special(&self, name: &str) -> (r: Option<u64>)
        ensures
            r == special_lookup(self.special_commands@, name@),
    {
        let sp = &self.special_commands;
        let mut i: usize = 0;
        proof {
            assert(sp@.skip(0) =~= sp@);
        }
        while i < sp.len()
            invariant
                sp@ == self.special_commands@,
                i <= sp@.len(),
                special_lookup(sp@, name@) == special_lookup(sp@.skip(i as int), name@),
            decreases sp@.len() - i,
        {
            if same_text(sp[i].name.as_str(), name) {
                proof {
                    let t = sp@.skip(i as int);
                    assert(t.len() > 0);
                    assert(t[0] == sp@[i as int]);
                    assert(t[0].name@ == name@);
                    assert(special_lookup(t, name@) == Some(t[0].handler));
                }
                return Some(sp[i].handler);
            }
            proof {
                assert(sp@.skip(i as int).skip(1) =~= sp@.skip(i + 1));
            }
            i = i + 1;
        }
        None
    }

    /// Routes command `(name, kind)` for an audience whose stored override
    /// for it is `enabled`.
    pub fn dispatch(&self, name: &str, kind: CommandKind, enabled: Option<bool>) -> (r: Result<Route, DispatchError>)
        ensures
            r is Ok <==> route(self.commands@, self.special_commands@, self.default_command_handler, name@, kind, enabled) is Some,
            r is Ok ==> Some(r->Ok_0) == route(self.commands@, self.special_commands@, self.default_command_handler, name@, kind, enabled),
            r is Err ==> r->Err_0->UnknownCommand_0@ == name@,
    {
        if let Some(h) = self.find_special(name) {
            return Ok(Route::Special(h));
        }
        let unknown = DispatchError::UnknownCommand(crate::text::owned(name));
        if enabled == Some(false) {
            return Err(unknown);
        }
        match self.commands.find(name, kind) {
            Some(i) => {
                let e = self.commands.entry(i);
                if e.guild_restricted && enabled != Some(true) {
                    Err(unknown)
                } else {
                    Ok(Route::Registered(e.handler))
                }
            },
            None => {
                proof {
                    lemma_lookup_some(self.commands@, name@, kind);
                }
                match self.default_command_handler {
                    Some(h) => Ok(Route::Default(h)),
                    None => Err(unknown),
                }
            },
        }
    }
}

/// The reply sent for a command: the handler's own, or its error as a
/// private text message.
pub fn command_reply(outcome: Result<CommandResponse, String>) -> (r: CommandResponse)
    ensures
        outcome is Ok ==> r == outcome->Ok_0,
        outcome is Err ==> r == CommandResponse::Private(ResponseType::Text(outcome->Err_0)),
{
    match outcome {
        Ok(resp) => resp,
        Err(e) => CommandResponse::Private(ResponseType::Text(e)),
    }
}

/// Routing reads nothing but the command store, the special commands, the
/// default handler and the override: equal inputs give the same route.
pub proof fn lemma_dispatch_deterministic(
    c1: Seq<CommandEntry>, c2: Seq<CommandEntry>,
    s1: Seq<SpecialCommand>, s2: Seq<SpecialCommand>,
    d1: Option<u64>, d2: Option<u64>,
    name: Seq<char>, kind: CommandKind, enabled: Option<bool>,
)
    requires
        c1 == c2,
        s1 == s2,
        d1 == d2,
    ensures
        route(c1, s1, d1, name, kind, enabled) == route(c2, s2, d2, name, kind, enabled),
{
}

/// A command disabled for an audience is unknown there (unless a special
/// command of that name exists), while an audience without an override
/// still reaches the registered handler of an unrestricted command.
pub proof fn lemma_disable_is_per_audience(
    commands: Seq<CommandEntry>,
    specials: Seq<SpecialCommand>,
    default: Option<u64>,
    name: Seq<char>,
    kind: CommandKind,
    e: CommandEntry,
)
    requires
        special_lookup(specials, name) is None,
        lookup(commands, name, kind) == Some(e),
        !e.guild_restricted,
    ensures
        route(commands, specials, default, name, kind, Some(false)) is None,
        route(commands, specials, default, name, kind, None) == Some(Route::Registered(e.handler)),
{
}

} // verus!
