use serenity_command_handler::seen::SeenCache;
use serenity_command_handler::command::CommandKind;
use serenity_command_handler::completion::{ChainStep, CompletionChain, CompletionOutcome};
use serenity_command_handler::events::{EventHandlers, Subscription};
use serenity_command_handler::handler::{command_reply, DispatchError, Route};
use serenity_command_handler::command::{CommandResponse, ResponseType};
use serenity_command_handler::registry::{HandlerBuilder, ModuleDescriptor, ModuleError, SpecialCommand};
use serenity_command_handler::router::{CommandEntry, CommandKey, CommandStore};
use serenity_command_handler::session::{session_expired, SessionTable};

fn entry(name: &str, kind: CommandKind, handler: u64) -> CommandEntry {
    CommandEntry {
        key: CommandKey { name: name.to_string(), kind },
        permissions: 0,
        guild_restricted: false,
        handler,
    }
}

fn module(name: &str, deps: Vec<usize>, commands: Vec<CommandEntry>) -> ModuleDescriptor {
    ModuleDescriptor {
        name: name.to_string(),
        dependencies: deps,
        commands,
        completion_handlers: vec![],
        event_subscriptions: vec![],
    }
}

fn order(b: &HandlerBuilder) -> Vec<usize> {
    (0..b.modules.len()).map(|i| b.modules.get(i)).collect()
}

#[test]
fn registering_twice_initializes_once() {
    let cat = vec![module("quotes", vec![], vec![entry("quote", CommandKind::ChatInput, 1)])];
    let b = HandlerBuilder::new().module(&cat, 0).unwrap();
    let b = b.module(&cat, 0).unwrap();
    assert_eq!(order(&b), vec![0]);
    assert_eq!(b.commands.len(), 1);
}

#[test]
fn dependency_initialized_first_in_any_call_order() {
    let cat = vec![
        module("a", vec![], vec![entry("a", CommandKind::ChatInput, 1)]),
        module("b", vec![0], vec![entry("b", CommandKind::ChatInput, 2)]),
    ];
    let b1 = HandlerBuilder::new().module(&cat, 1).unwrap();
    assert_eq!(order(&b1), vec![0, 1]);
    let b2 = HandlerBuilder::new().module(&cat, 0).unwrap().module(&cat, 1).unwrap();
    assert_eq!(order(&b2), vec![0, 1]);
}

#[test]
fn lastfm_pulls_in_spotify_first() {
    let cat = vec![
        module("Spotify", vec![], vec![]),
        module("Lastfm", vec![0], vec![entry("aoty", CommandKind::ChatInput, 7)]),
    ];
    let b = HandlerBuilder::new().module(&cat, 1).unwrap();
    let spotify = b.modules.module(0).unwrap();
    let lastfm = b.modules.module(1).unwrap();
    assert!(spotify < lastfm);
}

#[test]
fn same_name_different_kind_registers_duplicate_fails() {
    let mut store = CommandStore::new();
    assert!(store.register(entry("quote", CommandKind::ChatInput, 1)).is_ok());
    assert!(store.register(entry("quote", CommandKind::Message, 2)).is_ok());
    let dup = store.register(entry("quote", CommandKind::ChatInput, 3)).unwrap_err();
    assert_eq!(dup.name, "quote");
    assert_eq!(dup.kind, CommandKind::ChatInput);
    assert_eq!(store.len(), 2);
}

#[test]
fn duplicate_key_across_modules_fails_startup() {
    let cat = vec![
        module("a", vec![], vec![entry("quote", CommandKind::ChatInput, 1)]),
        module("b", vec![], vec![entry("quote", CommandKind::ChatInput, 2)]),
    ];
    let b = HandlerBuilder::new().module(&cat, 0).unwrap();
    match b.module(&cat, 1) {
        Err(ModuleError::DuplicateRegistration(name, kind)) => {
            assert_eq!(name, "quote");
            assert_eq!(kind, CommandKind::ChatInput);
        }
        _ => panic!("expected a duplicate registration"),
    }
}

#[test]
fn dependency_cycle_and_unknown_module_fail() {
    let cat = vec![module("a", vec![1], vec![]), module("b", vec![0], vec![])];
    assert!(matches!(HandlerBuilder::new().module(&cat, 0), Err(ModuleError::DependencyCycle(_))));
    assert!(matches!(HandlerBuilder::new().module(&cat, 5), Err(ModuleError::UnknownModule(5))));
    let cat2 = vec![module("a", vec![3], vec![])];
    assert!(matches!(HandlerBuilder::new().module(&cat2, 0), Err(ModuleError::UnknownModule(3))));
}

#[test]
fn disabled_command_is_unknown_for_that_audience_only() {
    let cat = vec![module("m", vec![], vec![entry("foo", CommandKind::ChatInput, 9)])];
    let h = HandlerBuilder::new().module(&cat, 0).unwrap().build();
    // audience 123 has the override "disabled", audience 456 has none
    let for_123 = h.dispatch("foo", CommandKind::ChatInput, Some(false));
    match for_123 {
        Err(DispatchError::UnknownCommand(name)) => assert_eq!(name, "foo"),
        _ => panic!("expected an unknown command"),
    }
    assert_eq!(h.dispatch("foo", CommandKind::ChatInput, None).unwrap(), Route::Registered(9));
}

#[test]
fn dispatch_order_special_registry_default() {
    let cat = vec![module("m", vec![], vec![entry("foo", CommandKind::ChatInput, 9)])];
    let mut b = HandlerBuilder::new().module(&cat, 0).unwrap();
    b.special_commands.push(SpecialCommand { name: "help".to_string(), handler: 100 });
    let h = b.default_command_handler(50).build();
    assert_eq!(h.dispatch("help", CommandKind::ChatInput, Some(false)).unwrap(), Route::Special(100));
    assert_eq!(h.dispatch("foo", CommandKind::ChatInput, Some(true)).unwrap(), Route::Registered(9));
    assert_eq!(h.dispatch("foo", CommandKind::User, None).unwrap(), Route::Default(50));
    assert_eq!(h.dispatch("bar", CommandKind::ChatInput, None).unwrap(), Route::Default(50));
    assert!(h.dispatch("bar", CommandKind::ChatInput, Some(false)).is_err());
    // identical inputs, identical route
    assert_eq!(
        h.dispatch("foo", CommandKind::ChatInput, None).unwrap(),
        h.dispatch("foo", CommandKind::ChatInput, None).unwrap()
    );
}

#[test]
fn guild_restricted_needs_explicit_enable() {
    let mut e = entry("secret", CommandKind::ChatInput, 4);
    e.guild_restricted = true;
    let cat = vec![module("m", vec![], vec![e])];
    let h = HandlerBuilder::new().module(&cat, 0).unwrap().build();
    assert!(h.dispatch("secret", CommandKind::ChatInput, None).is_err());
    assert_eq!(h.dispatch("secret", CommandKind::ChatInput, Some(true)).unwrap(), Route::Registered(4));
}

#[test]
fn completion_chain_stops_at_first_claim() {
    let mut chain = CompletionChain::new();
    chain.push(1);
    chain.push(2);
    chain.push(3);
    let outcomes = vec![CompletionOutcome::Declined, CompletionOutcome::Handled, CompletionOutcome::Handled];
    let (step, ran) = chain.dispatch(&outcomes);
    assert_eq!(step, ChainStep::Answered(1));
    // the third handler never ran
    assert_eq!(ran, 2);
    assert_eq!(chain.next_step(0, CompletionOutcome::Declined), ChainStep::Invoke(1));
    assert_eq!(chain.next_step(2, CompletionOutcome::Declined), ChainStep::Unclaimed);
    let failing = vec![CompletionOutcome::Failed, CompletionOutcome::Handled, CompletionOutcome::Handled];
    assert_eq!(chain.dispatch(&failing), (ChainStep::Failed(0), 1));
    let none = vec![CompletionOutcome::Declined; 3];
    assert_eq!(chain.dispatch(&none), (ChainStep::Unclaimed, 3));
}

#[test]
fn publish_reaches_only_subscribers_of_that_event() {
    let mut bus = EventHandlers::new();
    let e: u64 = 1;
    let f: u64 = 2;
    bus.add_handler(e, 10);
    bus.add_handler(f, 20);
    bus.add_handler(e, 11);
    bus.add_handler(e, 12);
    assert_eq!(bus.emit(e), vec![10, 11, 12]);
    assert_eq!(bus.emit(f), vec![20]);
    assert!(bus.emit(3).is_empty());
    let s = Subscription { event: e, subscriber: 10 };
    assert_eq!(s.subscriber, 10);
}

#[test]
fn module_contributions_are_collected_in_order() {
    let mut a = module("a", vec![], vec![]);
    a.completion_handlers = vec![1];
    a.event_subscriptions = vec![Subscription { event: 5, subscriber: 1 }];
    let mut b = module("b", vec![0], vec![]);
    b.completion_handlers = vec![2, 3];
    b.event_subscriptions = vec![Subscription { event: 5, subscriber: 2 }];
    let cat = vec![a, b];
    let h = HandlerBuilder::new().module(&cat, 1).unwrap().build();
    let handlers: Vec<u64> = (0..h.completion_handlers.len()).map(|i| h.completion_handlers.handler(i)).collect();
    assert_eq!(handlers, vec![1, 2, 3]);
    assert_eq!(h.event_handlers.emit(5), vec![1, 2]);
    assert_eq!(h.module(1).unwrap(), 1);
    assert!(h.module(7).is_err());
}

#[test]
fn twenty_first_session_evicts_the_oldest() {
    let mut table = SessionTable::new(20);
    for id in 0..20u64 {
        assert!(table.create(id, 1000 + id).is_empty());
    }
    let evicted = table.create(20, 2000);
    assert_eq!(evicted, vec![0]);
    assert_eq!(table.len(), 20);
    assert_eq!(table.lookup(0), None);
    assert_eq!(table.lookup(1), Some(1001));
    assert_eq!(table.lookup(20), Some(2000));
}

#[test]
fn idle_session_expires() {
    assert!(session_expired(900_000, 900_000));
    assert!(session_expired(900_001, 900_000));
    assert!(!session_expired(899_999, 900_000));
}

#[test]
fn errors_become_private_text() {
    match command_reply(Err("Unknown command foo".to_string())) {
        CommandResponse::Private(ResponseType::Text(t)) => assert_eq!(t, "Unknown command foo"),
        _ => panic!("expected a private text"),
    }
    match command_reply(Ok(CommandResponse::public(ResponseType::from_text("hi".to_string())))) {
        CommandResponse::Public(ResponseType::Text(t)) => assert_eq!(t, "hi"),
        _ => panic!("expected the handler's reply"),
    }
}

#[test]
fn contents_and_flags() {
    assert!(CommandResponse::Empty.to_contents_and_flags().is_none());
    let c = CommandResponse::private(ResponseType::Text("x".to_string())).to_contents_and_flags().unwrap();
    assert_eq!(c.0, "x");
    assert!(c.3);
    assert!(c.1.is_none());
    let c = CommandResponse::public(ResponseType::WithAttachments("t".to_string(), vec![], vec!["u".to_string()]))
        .to_contents_and_flags()
        .unwrap();
    assert!(!c.3);
    assert_eq!(c.2, Some(vec!["u".to_string()]));
    let e = ResponseType::Embed(Box::new(serenity::builder::CreateEmbed::new()));
    let (t, embeds, att) = e.to_content();
    assert!(t.is_none());
    assert_eq!(embeds.unwrap().len(), 1);
    assert!(att.is_none());
}

#[test]
fn seen_cache_is_bounded() {
    let mut c = SeenCache::new(2);
    assert!(!c.check_and_mark(1));
    assert!(c.check_and_mark(1));
    assert!(!c.check_and_mark(2));
    assert!(!c.check_and_mark(3));
    // 1 was the oldest and made way; 65 does not alias 1
    assert!(!c.contains(1));
    assert!(!c.check_and_mark(65));
    assert!(c.contains(3));
    c.forget(3);
    assert!(!c.contains(3));
    assert!(!c.check_and_mark(3));
}
