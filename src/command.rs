//! Command keys and the responses that command handlers produce.
use vstd::prelude::*;

verus! {

/// Rich embed payload built with serenity; the library only carries it.
#[verifier::external_type_specification]
#[verifier::external_body]
pub struct ExCreateEmbed(serenity::builder::CreateEmbed);

/// The kind of an application command.
#[derive(Clone, Copy, Debug, PartialEq, Eq, Structural, Hash)]
pub enum CommandKind {
    ChatInput,
    Message,
    User,
}

/// What a handler replies with.
#[derive(Debug)]
pub enum ResponseType {
    Text(String),
    Embed(Box<serenity::builder::CreateEmbed>),
    Mixed(String, Vec<serenity::builder::CreateEmbed>),
    WithAttachments(String, Vec<serenity::builder::CreateEmbed>, Vec<String>),
}

/// A reply with its visibility: none at all (`Empty`), visible to everyone in the
/// channel, or visible only to the user that invoked the command.
#[derive(Debug)]
pub enum CommandResponse {
    Empty,
    Public(ResponseType),
    Private(ResponseType),
}

/// Text, embeds, attachment urls and whether the reply is private.
#[derive(Debug)]
pub struct ContentAndFlags(
    pub String,
    pub Option<Vec<serenity::builder::CreateEmbed>>,
    pub Option<Vec<String>>,
    pub bool,
);

impl ResponseType {
    /// The text carried by this response, if any.
    pub open spec fn text_spec(&self) -> Option<Seq<char>> {
        match self {
            ResponseType::Text(s) => Some(s@),
            ResponseType::Embed(_) => None,
            ResponseType::Mixed(s, _) => Some(s@),
            ResponseType::WithAttachments(s, _, _) => Some(s@),
        }
    }

    /// Number of embeds carried by this response, if it carries a list.
    pub open spec fn embed_count_spec(&self) -> Option<nat> {
        match self {
            ResponseType::Text(_) => None,
            ResponseType::Embed(_) => Some(1),
            ResponseType::Mixed(_, e) => Some(e@.len()),
            ResponseType::WithAttachments(_, e, _) => Some(e@.len()),
        }
    }

    /// Attachment urls carried by this response, if any.
    pub open spec fn attachments_spec(&self) -> Option<Seq<String>> {
        match self {
            ResponseType::WithAttachments(_, _, a) => Some(a@),
            _ => None,
        }
    }

    pub fn from_text(value: String) -> (r: ResponseType)
        ensures
            r == ResponseType::Text(value),
    {
        ResponseType::Text(value)
    }

    /// Splits the response into its text, embeds and attachments.
    pub fn to_content(self) -> (r: (
        Option<String>,
        Option<Vec<serenity::builder::CreateEmbed>>,
        Option<Vec<String>>,
    ))
        ensures
            opt_text(r.0) == self.text_spec(),
            opt_count(r.1) == self.embed_count_spec(),
            opt_urls(r.2) == self.attachments_spec(),
            self is Embed ==> r.1.unwrap()@ == seq![*self->Embed_0],
            self is Mixed ==> r.1 == Some(self->Mixed_1),
            self is WithAttachments ==> r.1 == Some(self->WithAttachments_1),
    {
        match self {
            ResponseType::Text(s) => (Some(s), None, None),
            ResponseType::Embed(e) => {
                let mut v = Vec::new();
                v.push(*e);
                proof {
                    assert(v@ =~= seq![*self->Embed_0]);
                }
                (None, Some(v), None)
            },
            ResponseType::Mixed(s, e) => (Some(s), Some(e), None),
            ResponseType::WithAttachments(s, e, a) => (Some(s), Some(e), Some(a)),
        }
    }
}

impl CommandResponse {
    /// A reply visible to everyone in the channel.
    pub fn public(value: ResponseType) -> (r: CommandResponse)
        ensures
            r == CommandResponse::Public(value),
    {
        CommandResponse::Public(value)
    }

    /// A reply visible only to the invoking user.
    pub fn private(value: ResponseType) -> (r: CommandResponse)
        ensures
            r == CommandResponse::Private(value),
    {
        CommandResponse::Private(value)
    }

    /// The message to send: its text (empty when the response has none),
    /// embeds, attachments, and whether it is private. `None` when nothing is
    /// to be sent.
    pub fn to_contents_and_flags(self) -> (r: Option<ContentAndFlags>)
        ensures
            r is None <==> self is Empty,
            self is Public ==> r is Some && !r->Some_0.3 && r->Some_0.0@ == text_or_empty(self->Public_0)
                && opt_count(r->Some_0.1) == self->Public_0.embed_count_spec()
                && opt_urls(r->Some_0.2) == self->Public_0.attachments_spec(),
            self is Private ==> r is Some && r->Some_0.3 && r->Some_0.0@ == text_or_empty(self->Private_0)
                && opt_count(r->Some_0.1) == self->Private_0.embed_count_spec()
                && opt_urls(r->Some_0.2) == self->Private_0.attachments_spec(),
    {
        match self {
            CommandResponse::Empty => None,
            CommandResponse::Public(resp) => {
                let (text, embeds, attachments) = resp.to_content();
                let text = match text {
                    Some(t) => t,
                    None => String::new(),
                };
                Some(ContentAndFlags(text, embeds, attachments, false))
            },
            CommandResponse::Private(resp) => {
                let (text, embeds, attachments) = resp.to_content();
                let text = match text {
                    Some(t) => t,
                    None => String::new(),
                };
                Some(ContentAndFlags(text, embeds, attachments, true))
            },
        }
    }
}

/// The text of `r`, or nothing.
pub open spec fn text_or_empty(r: ResponseType) -> Seq<char> {
    match r.text_spec() {
        Some(t) => t,
        None => Seq::empty(),
    }
}

pub open spec fn opt_text(o: Option<String>) -> Option<Seq<char>> {
    match o {
        Some(s) => Some(s@),
        None => None,
    }
}

pub open spec fn opt_count(o: Option<Vec<serenity::builder::CreateEmbed>>) -> Option<nat> {
    match o {
        Some(e) => Some(e@.len()),
        None => None,
    }
}

pub open spec fn opt_urls(o: Option<Vec<String>>) -> Option<Seq<String>> {
    match o {
        Some(a) => Some(a@),
        None => None,
    }
}

} // verus!
