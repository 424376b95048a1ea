//! Polls: the state one poll session accumulates, the message it shows,
//! and how reactions become events for it.
use vstd::prelude::*;
use crate::options::{CommandOption, OptionDescriptor, OptionKind, descriptor, get_string, required_string};
use crate::autoreact::string_option;
use crate::session::{SessionTable, find_session};
use crate::text::{decimal, push_char, push_decimal, push_str, same_text, owned};

verus! {

/// Default emotes.
pub const YES: &'static str = "<:FeelsGoodCrab:988509541069127780>";
pub const NO: &'static str = "<:FeelsBadCrab:988508541499342918>";
pub const START: &'static str = "<a:CrabRave:988508208240922635>";
pub const COUNT: &'static str = "\u{1f980}";
pub const GO: &'static str = "<a:CrabRave:988508208240922635>";

/// Most polls kept live at once.
pub const MAX_POLLS: usize = 20;

/// A question answered yes or no, or a call to start a listening party
/// with a countdown.
#[derive(Debug)]
pub enum PollType {
    Question(String),
    Ready { count_emote: Option<String>, go_emote: Option<String> },
}

/// Which list a reaction puts its user on.
#[derive(Clone, Copy, Debug, PartialEq, Eq, Structural)]
pub enum UserStatus {
    Ready,
    NotReady,
}

/// A message for a poll session.
#[derive(Clone, Copy, Debug, PartialEq, Eq, Structural)]
pub enum PollEvent {
    AddStatus(u64, UserStatus),
    RemoveStatus(u64, UserStatus),
    Start,
}

/// `ready_poll` command: count and go emotes override the module's own.
#[derive(Debug)]
pub struct ReadyPoll {
    pub count_emote: Option<String>,
    pub go_emote: Option<String>,
}

/// `poll` command: the question to ask.
#[derive(Debug)]
pub struct Poll {
    pub question: String,
}

impl ReadyPoll {
    pub const NAME: &'static str = "ready_poll";

    pub fn schema() -> (r: Vec<OptionDescriptor>)
        ensures
            r@.len() == 2,
            r@[0].name@ == "count_emote"@ && r@[0].kind == OptionKind::String && !r@[0].required,
            r@[1].name@ == "go_emote"@ && r@[1].kind == OptionKind::String && !r@[1].required,
    {
        let mut r: Vec<OptionDescriptor> = Vec::new();
        r.push(descriptor("count_emote", OptionKind::String, false, false, "Count emote"));
        r.push(descriptor("go_emote", OptionKind::String, false, false, "Emote Go"));
        r
    }

    /// Reads the options; both are optional.
    pub fn parse(options: &Vec<CommandOption>) -> (r: ReadyPoll)
        ensures
            opt_view(r.count_emote) == string_option(options@, "count_emote"@),
            opt_view(r.go_emote) == string_option(options@, "go_emote"@),
    {
        ReadyPoll { count_emote: get_string(options, "count_emote"), go_emote: get_string(options, "go_emote") }
    }

    pub fn poll_type(self) -> (r: PollType)
        ensures
            r == (PollType::Ready { count_emote: self.count_emote, go_emote: self.go_emote }),
    {
        PollType::Ready { count_emote: self.count_emote, go_emote: self.go_emote }
    }
}

impl Poll {
    pub const NAME: &'static str = "poll";

    pub fn schema() -> (r: Vec<OptionDescriptor>)
        ensures
            r@.len() == 1,
            r@[0].name@ == "question"@ && r@[0].kind == OptionKind::String && r@[0].required,
    {
        let mut r: Vec<OptionDescriptor> = Vec::new();
        r.push(descriptor("question", OptionKind::String, true, false, "Question"));
        r
    }

    /// Reads the question, which is required.
    pub fn parse(options: &Vec<CommandOption>) -> (r: Result<Poll, String>)
        ensures
            r is Ok <==> string_option(options@, "question"@) is Some,
            r is Ok ==> r->Ok_0.question@ == string_option(options@, "question"@)->Some_0,
    {
        match required_string(options, "question") {
            Ok(question) => Ok(Poll { question }),
            Err(e) => Err(e),
        }
    }

    pub fn poll_type(self) -> (r: PollType)
        ensures
            r == PollType::Question(self.question),
    {
        PollType::Question(self.question)
    }
}

/// The text of an optional string.
pub open spec fn opt_view(o: Option<String>) -> Option<Seq<char>> {
    match o {
        Some(s) => Some(s@),
        None => None,
    }
}

/// A mention of user `u`.
pub open spec fn mention(u: u64) -> Seq<char> {
    seq!['<', '@'] + decimal(u as nat) + seq!['>']
}

/// Mentions of `us`, separated by a comma and a space.
pub open spec fn mention_list(us: Seq<u64>) -> Seq<char>
    decreases us.len(),
{
    if us.len() == 0 {
        Seq::empty()
    } else if us.len() == 1 {
        mention(us[0])
    } else {
        mention_list(us.drop_last()) + seq![',', ' '] + mention(us.last())
    }
}

/// Appends the mentions of `users` to `buf`.
pub fn format_user_list(buf: &mut String, users: &Vec<u64>)
    ensures
        final(buf)@ == old(buf)@ + mention_list(users@),
{
    let mut i: usize = 0;
    while i < users.len()
        invariant
            i <= users@.len(),
            buf@ == old(buf)@ + mention_list(users@.subrange(0, i as int)),
        decreases users@.len() - i,
    {
        let ghost before = buf@;
        if i > 0 {
            push_char(buf, ',');
            push_char(buf, ' ');
        }
        push_char(buf, '<');
        push_char(buf, '@');
        push_decimal(buf, users[i]);
        push_char(buf, '>');
        proof {
            let p = users@.subrange(0, i + 1);
            assert(p.drop_last() =~= users@.subrange(0, i as int));
            assert(p.last() == users@[i as int]);
            if i == 0 {
                assert(buf@ =~= old(buf)@ + mention_list(p));
            } else {
                assert(buf@ =~= old(buf)@ + mention_list(p));
            }
        }
        i = i + 1;
    }
    proof {
        assert(users@.subrange(0, i as int) =~= users@);
    }
}

/// The text a poll shows for the users on each list.
pub open spec fn poll_message(typ: PollType, yes: Seq<u64>, no: Seq<u64>) -> Seq<char> {
    match typ {
        PollType::Question(q) => {
            let y = if yes.len() > 0 { "\nYes: "@ + mention_list(yes) } else { Seq::empty() };
            let n = if no.len() > 0 { "\nNo: "@ + mention_list(no) } else { Seq::empty() };
            q@ + y + n
        },
        PollType::Ready { .. } => if yes.len() == 0 {
            "Ready?"@
        } else {
            "Ready?"@ + " ("@ + mention_list(yes) + (if yes.len() == 1 { " is"@ } else { " are"@ }) + " ready)"@
        },
    }
}

/// Builds the text a poll shows.
pub fn build_message(typ: &PollType, users_yes: &Vec<u64>, users_no: &Vec<u64>) -> (r: String)
    ensures
        r@ == poll_message(*typ, users_yes@, users_no@),
{
    match typ {
        PollType::Question(q) => {
            let mut msg = q.clone();
            if users_yes.len() > 0 {
                push_str(&mut msg, "\nYes: ");
                format_user_list(&mut msg, users_yes);
            }
            if users_no.len() > 0 {
                push_str(&mut msg, "\nNo: ");
                format_user_list(&mut msg, users_no);
            }
            proof {
                assert(msg@ =~= poll_message(*typ, users_yes@, users_no@));
            }
            msg
        },
        PollType::Ready { .. } => {
            let mut msg = owned("Ready?");
            if users_yes.len() == 0 {
                return msg;
            }
            push_str(&mut msg, " (");
            format_user_list(&mut msg, users_yes);
            if users_yes.len() == 1 {
                push_str(&mut msg, " is");
            } else {
                push_str(&mut msg, " are");
            }
            push_str(&mut msg, " ready)");
            proof {
                assert(msg@ =~= poll_message(*typ, users_yes@, users_no@));
            }
            msg
        },
    }
}

/// `s` with `u` appended unless already present.
pub open spec fn with_user(s: Seq<u64>, u: u64) -> Seq<u64> {
    if s.contains(u) { s } else { s.push(u) }
}

/// `s` without any occurrence of `u`, order kept.
pub open spec fn without_user(s: Seq<u64>, u: u64) -> Seq<u64>
    decreases s.len(),
{
    if s.len() == 0 {
        s
    } else if s.last() == u {
        without_user(s.drop_last(), u)
    } else {
        without_user(s.drop_last(), u).push(s.last())
    }
}

fn add_user(v: &mut Vec<u64>, u: u64)
    ensures
        final(v)@ == with_user(old(v)@, u),
{
    let mut i: usize = 0;
    while i < v.len()
        invariant
            v@ == old(v)@,
            i <= v@.len(),
            forall|k: int| 0 <= k < i ==> v@[k] != u,
        decreases v@.len() - i,
    {
        if v[i] == u {
            return;
        }
        i = i + 1;
    }
    v.push(u);
}

fn remove_user(v: &mut Vec<u64>, u: u64)
    ensures
        final(v)@ == without_user(old(v)@, u),
{
    let mut kept: Vec<u64> = Vec::new();
    let mut i: usize = 0;
    while i < v.len()
        invariant
            v@ == old(v)@,
            i <= v@.len(),
            kept@ == without_user(v@.subrange(0, i as int), u),
        decreases v@.len() - i,
    {
        if v[i] != u {
            kept.push(v[i]);
        }
        proof {
            assert(v@.subrange(0, i + 1).drop_last() =~= v@.subrange(0, i as int));
        }
        i = i + 1;
    }
    proof {
        assert(v@.subrange(0, i as int) =~= v@);
    }
    *v = kept;
}

/// What a poll session has accumulated.
#[derive(Debug)]
pub struct PollState {
    pub users_yes: Vec<u64>,
    pub users_no: Vec<u64>,
    /// The shown message is out of date.
    pub changed: bool,
    /// The countdown has run; it runs once.
    pub started: bool,
}

impl PollState {
    pub fn new() -> (r: PollState)
        ensures
            r.users_yes@.len() == 0,
            r.users_no@.len() == 0,
            !r.changed,
            !r.started,
    {
        PollState { users_yes: Vec::new(), users_no: Vec::new(), changed: false, started: false }
    }

    /// Applies one event. Returns whether the countdown is to run now: on
    /// the first start of a ready poll only.
    pub fn apply_event(&mut self, typ: &PollType, evt: PollEvent) -> (countdown: bool)
        ensures
            evt matches PollEvent::AddStatus(u, UserStatus::Ready) ==> final(self).users_yes@ == with_user(old(self).users_yes@, u)
                && final(self).users_no == old(self).users_no && final(self).changed && final(self).started == old(self).started && !countdown,
            evt matches PollEvent::AddStatus(u, UserStatus::NotReady) ==> final(self).users_no@ == with_user(old(self).users_no@, u)
                && final(self).users_yes == old(self).users_yes && final(self).changed && final(self).started == old(self).started && !countdown,
            evt matches PollEvent::RemoveStatus(u, UserStatus::Ready) ==> final(self).users_yes@ == without_user(old(self).users_yes@, u)
                && final(self).users_no == old(self).users_no && final(self).changed && final(self).started == old(self).started && !countdown,
            evt matches PollEvent::RemoveStatus(u, UserStatus::NotReady) ==> final(self).users_no@ == without_user(old(self).users_no@, u)
                && final(self).users_yes == old(self).users_yes && final(self).changed && final(self).started == old(self).started && !countdown,
            evt is Start ==> final(self).users_yes == old(self).users_yes && final(self).users_no == old(self).users_no
                && final(self).changed == old(self).changed
                && countdown == (!old(self).started && typ is Ready)
                && final(self).started == (old(self).started || countdown),
    {
        match evt {
            PollEvent::AddStatus(u, UserStatus::Ready) => {
                add_user(&mut self.users_yes, u);
                self.changed = true;
                false
            },
            PollEvent::AddStatus(u, UserStatus::NotReady) => {
                add_user(&mut self.users_no, u);
                self.changed = true;
                false
            },
            PollEvent::RemoveStatus(u, UserStatus::Ready) => {
                remove_user(&mut self.users_yes, u);
                self.changed = true;
                false
            },
            PollEvent::RemoveStatus(u, UserStatus::NotReady) => {
                remove_user(&mut self.users_no, u);
                self.changed = true;
                false
            },
            PollEvent::Start => {
                if !self.started && matches!(typ, PollType::Ready { .. }) {
                    self.started = true;
                    true
                } else {
                    false
                }
            },
        }
    }

    /// At the end of a drain of the mailbox: the new text to show when
    /// something changed, so that a burst of events gives one update.
    pub fn flush(&mut self, typ: &PollType) -> (r: Option<String>)
        ensures
            !final(self).changed,
            final(self).users_yes == old(self).users_yes,
            final(self).users_no == old(self).users_no,
            final(self).started == old(self).started,
            r is Some <==> old(self).changed,
            r is Some ==> r->Some_0@ == poll_message(*typ, old(self).users_yes@, old(self).users_no@),
    {
        if !self.changed {
            return None;
        }
        let msg = build_message(typ, &self.users_yes, &self.users_no);
        self.changed = false;
        Some(msg)
    }
}

/// `c` written `n` times, separated by spaces.
pub open spec fn repeated(c: Seq<char>, n: nat) -> Seq<char>
    decreases n,
{
    if n <= 1 {
        c
    } else {
        repeated(c, (n - 1) as nat) + seq![' '] + c
    }
}

fn repeat_emote(c: &str, n: usize) -> (r: String)
    requires
        n >= 1,
    ensures
        r@ == repeated(c@, n as nat),
{
    let mut r = owned(c);
    let mut i: usize = 1;
    while i < n
        invariant
            1 <= i <= n,
            r@ == repeated(c@, i as nat),
        decreases n - i,
    {
        push_char(&mut r, ' ');
        push_str(&mut r, c);
        i = i + 1;
        proof {
            assert(r@ =~= repeated(c@, i as nat));
        }
    }
    r
}

/// The messages of a countdown, in order: an announcement, the count emote
/// three, two and one times, then the go emote.
pub fn countdown_messages(count: &str, go: &str) -> (r: Vec<String>)
    ensures
        r@.len() == 5,
        r@[0]@ == "Starting 3s countdown"@,
        r@[1]@ == repeated(count@, 3),
        r@[2]@ == repeated(count@, 2),
        r@[3]@ == repeated(count@, 1),
        r@[4]@ == go@,
{
    let mut r: Vec<String> = Vec::new();
    r.push(owned("Starting 3s countdown"));
    r.push(repeat_emote(count, 3));
    r.push(repeat_emote(count, 2));
    r.push(repeat_emote(count, 1));
    r.push(owned(go));
    r
}

/// Poll module: its emotes and its live sessions.
pub struct ModPoll {
    pub yes: String,
    pub no: String,
    pub start: String,
    pub count: String,
    pub go: String,
    pub sessions: SessionTable,
}

fn or_default(v: Option<String>, d: &str) -> (r: String)
    ensures
        v is Some ==> r == v->Some_0,
        v is None ==> r@ == d@,
{
    match v {
        Some(s) => s,
        None => owned(d),
    }
}

impl ModPoll {
    /// The module with the given emotes, each one defaulted when absent.
    pub fn new(yes: Option<String>, no: Option<String>, start: Option<String>, count: Option<String>, go: Option<String>) -> (r: ModPoll)
        ensures
            yes is Some ==> r.yes == yes->Some_0,
            yes is None ==> r.yes@ == YES@,
            no is Some ==> r.no == no->Some_0,
            no is None ==> r.no@ == NO@,
            start is Some ==> r.start == start->Some_0,
            start is None ==> r.start@ == START@,
            count is Some ==> r.count == count->Some_0,
            count is None ==> r.count@ == COUNT@,
            go is Some ==> r.go == go->Some_0,
            go is None ==> r.go@ == GO@,
            r.sessions.wf(),
            r.sessions@.len() == 0,
            r.sessions.capacity_spec() == MAX_POLLS,
    {
        ModPoll {
            yes: or_default(yes, YES),
            no: or_default(no, NO),
            start: or_default(start, START),
            count: or_default(count, COUNT),
            go: or_default(go, GO),
            sessions: SessionTable::new(MAX_POLLS),
        }
    }

    /// The event that an added reaction sends to its poll, if any: a yes or
    /// no reaction sets the user's status, the start reaction of the poll's
    /// owner starts it; reactions by the bot itself and on messages without
    /// a live poll are ignored.
    pub fn handle_ready_poll(&self, emoji: &str, user: Option<u64>, message: u64, self_id: Option<u64>)
        -> (r: Result<Option<PollEvent>, String>)
        ensures
            user is None ==> r is Err,
            user is Some ==> r is Ok,
            user is Some && (find_session(self.sessions@, message) is None || self_id == user) ==> r == Ok::<Option<PollEvent>, String>(None),
            user is Some && find_session(self.sessions@, message) is Some && self_id != user ==> {
                let u = user->Some_0;
                let owner = find_session(self.sessions@, message)->Some_0.owner;
                r == Ok::<Option<PollEvent>, String>(
                    if emoji@ == self.yes@ { Some(PollEvent::AddStatus(u, UserStatus::Ready)) }
                    else if emoji@ == self.no@ { Some(PollEvent::AddStatus(u, UserStatus::NotReady)) }
                    else if owner == u && emoji@ == self.start@ { Some(PollEvent::Start) }
                    else { None })
            },
    {
        let u = match user {
            Some(u) => u,
            None => {
                return Err(owned("invalid react: missing userId"));
            },
        };
        let owner = match self.sessions.lookup(message) {
            Some(o) => o,
            None => {
                return Ok(None);
            },
        };
        if self_id == Some(u) {
            return Ok(None);
        }
        if same_text(emoji, self.yes.as_str()) {
            Ok(Some(PollEvent::AddStatus(u, UserStatus::Ready)))
        } else if same_text(emoji, self.no.as_str()) {
            Ok(Some(PollEvent::AddStatus(u, UserStatus::NotReady)))
        } else if owner == u && same_text(emoji, self.start.as_str()) {
            Ok(Some(PollEvent::Start))
        } else {
            Ok(None)
        }
    }

    /// The event that a removed reaction sends to its poll, if any: only
    /// the yes and no reactions count.
    pub fn handle_remove_react(&self, emoji: &str, user: Option<u64>, message: u64)
        -> (r: Result<Option<PollEvent>, String>)
        ensures
            emoji@ != self.yes@ && emoji@ != self.no@ ==> r == Ok::<Option<PollEvent>, String>(None),
            (emoji@ == self.yes@ || emoji@ == self.no@) && user is None ==> r is Err,
            (emoji@ == self.yes@ || emoji@ == self.no@) && user is Some ==> r == Ok::<Option<PollEvent>, String>(
                if find_session(self.sessions@, message) is None { None }
                else if emoji@ == self.yes@ { Some(PollEvent::RemoveStatus(user->Some_0, UserStatus::Ready)) }
                else { Some(PollEvent::RemoveStatus(user->Some_0, UserStatus::NotReady)) }),
    {
        let status = if same_text(emoji, self.yes.as_str()) {
            UserStatus::Ready
        } else if same_text(emoji, self.no.as_str()) {
            UserStatus::NotReady
        } else {
            return Ok(None);
        };
        let u = match user {
            Some(u) => u,
            None => {
                return Err(owned("invalid react: missing userId"));
            },
        };
        match self.sessions.lookup(message) {
            Some(_) => Ok(Some(PollEvent::RemoveStatus(u, status))),
            None => Ok(None),
        }
    }
}

} // verus!
