//! Command-handling runtime for a chat bot: a module registry with
//! dependency-ordered initialization, a command router with per-audience
//! overrides, an autocomplete chain, an event bus and bounded poll sessions.
pub mod command;
pub mod text;
pub mod router;
pub mod events;
pub mod completion;
pub mod registry;
pub mod handler;
pub mod session;
pub mod seen;
pub mod poll;
pub mod options;
pub mod management;
pub mod tidal;
pub mod quotes;
pub mod autoreact;
