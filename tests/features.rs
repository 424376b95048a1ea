use serenity_command_handler::autoreact::{AddAutoreact, RemoveAutoreact};
use serenity_command_handler::management::{
    DisableCommandForGuild, EnableCommandForGuild, ManagementCompletion, ManagementStep, ModManagement,
};
use serenity_command_handler::options::{get_focused_option, get_int_opt_ac, get_str_opt_ac, CommandOption, OptionValue};
use serenity_command_handler::poll::{
    build_message, countdown_messages, ModPoll, Poll, PollEvent, PollState, PollType, ReadyPoll, UserStatus, YES,
};
use serenity_command_handler::quotes::CaseInsensitiveString;
use serenity_command_handler::router::{CommandEntry, CommandKey, CommandStore};
use serenity_command_handler::command::CommandKind;
use serenity_command_handler::text::{contains_str, escape_str, parse_u64, push_decimal};
use serenity_command_handler::tidal::{
    album_share_url, ArtistAttributes, ArtworkAttributes, ArtworkFile, IncludedEntity, IncludedItem, TrackAttributes,
};

fn opt(name: &str, value: OptionValue) -> CommandOption {
    CommandOption { name: name.to_string(), value }
}

fn store_with(names: &[(&str, bool)]) -> CommandStore {
    let mut s = CommandStore::new();
    for (i, (n, restricted)) in names.iter().enumerate() {
        s.register(CommandEntry {
            key: CommandKey { name: n.to_string(), kind: CommandKind::ChatInput },
            permissions: 0,
            guild_restricted: *restricted,
            handler: i as u64,
        })
        .unwrap();
    }
    s
}

#[test]
fn escape_doubles_quotes() {
    assert_eq!(escape_str("it's"), "it''s");
    assert_eq!(escape_str("plain"), "plain");
    assert_eq!(escape_str("''"), "''''");
}

#[test]
fn decimal_and_parse() {
    let mut s = String::from("n=");
    push_decimal(&mut s, 1234567890);
    assert_eq!(s, "n=1234567890");
    assert_eq!(parse_u64("42"), Some(42));
    assert_eq!(parse_u64("+7"), Some(7));
    assert_eq!(parse_u64("18446744073709551615"), Some(u64::MAX));
    assert_eq!(parse_u64("18446744073709551616"), None);
    assert_eq!(parse_u64(""), None);
    assert_eq!(parse_u64("+"), None);
    assert_eq!(parse_u64("12a"), None);
    assert_eq!(parse_u64("-1"), None);
    assert!(contains_str("enable_command", "able"));
    assert!(!contains_str("abc", "abd"));
}

#[test]
fn share_url() {
    assert_eq!(album_share_url("123"), "https://tidal.com/album/123/u");
}

#[test]
fn included_item_accessors() {
    let artist = IncludedItem { id: "a1".to_string(), entity: IncludedEntity::Artist(ArtistAttributes { name: "X".to_string() }) };
    assert!(artist.track_ref().is_none());
    let (id, a) = artist.artist().unwrap();
    assert_eq!((id.as_str(), a.name.as_str()), ("a1", "X"));
    let art = IncludedItem {
        id: "w".to_string(),
        entity: IncludedEntity::Artwortk(ArtworkAttributes { files: vec![ArtworkFile { href: "h".to_string() }] }),
    };
    let (id, w) = art.artwork_ref().unwrap();
    assert_eq!(id, "w");
    assert_eq!(w.files[0].href, "h");
    assert!(art.album().is_none());
    let t = IncludedItem {
        id: "t".to_string(),
        entity: IncludedEntity::Track(TrackAttributes { title: "T".to_string(), duration: "PT3M".to_string() }),
    };
    assert_eq!(t.track_ref().unwrap().1.title, "T");
    assert_eq!(t.track().unwrap().0, "t");
}

#[test]
fn quotes_compare_loosely() {
    let a = CaseInsensitiveString("Hello, World!".to_string());
    let b = CaseInsensitiveString("hello world".to_string());
    let c = CaseInsensitiveString("hello there".to_string());
    assert_eq!(a.simplify_bytes(), b"helloworld".to_vec());
    assert!(a == b);
    assert!(a != c);
}

#[test]
fn option_lookups() {
    let opts = vec![
        opt("guild", OptionValue::Autocomplete("12".to_string())),
        opt("command", OptionValue::String("quote".to_string())),
        opt("count", OptionValue::Integer(3)),
    ];
    assert_eq!(get_focused_option(&opts), Some("guild"));
    assert_eq!(get_str_opt_ac(&opts, "guild"), Some("12"));
    assert_eq!(get_str_opt_ac(&opts, "command"), Some("quote"));
    assert_eq!(get_str_opt_ac(&opts, "count"), None);
    assert_eq!(get_int_opt_ac(&opts, "count"), Some(3));
    assert_eq!(get_int_opt_ac(&opts, "missing"), None);
}

#[test]
fn enable_command_plan() {
    let store = store_with(&[("quote", true), ("poll", false)]);
    let cmd = EnableCommandForGuild::parse(&vec![
        opt("command", OptionValue::String("quote".to_string())),
        opt("guild", OptionValue::String("123".to_string())),
    ])
    .unwrap();
    match cmd.plan(&store).unwrap() {
        ManagementStep::Apply { guild, entry } => {
            assert_eq!(guild, 123);
            assert_eq!(entry, 0);
        }
        _ => panic!("expected to apply"),
    }
    assert_eq!(cmd.done_message(), "Enabled command 'quote' for guild with id `123`");
    let missing = EnableCommandForGuild { command: "nope".to_string(), guild: "1".to_string() };
    match missing.plan(&store).unwrap() {
        ManagementStep::Reply(t) => assert_eq!(t, "command nope not found"),
        _ => panic!("expected a reply"),
    }
    let bad = DisableCommandForGuild { command: "quote".to_string(), guild: "abc".to_string() };
    assert_eq!(bad.plan(&store).unwrap_err(), "Invalid Guild Id, must be an integer");
    let ok = DisableCommandForGuild { command: "quote".to_string(), guild: "5".to_string() };
    assert_eq!(ok.done_message(), "Disabled command 'quote' for guild with id `5`");
    assert!(EnableCommandForGuild::parse(&vec![opt("command", OptionValue::String("q".to_string()))]).is_err());
    assert_eq!(EnableCommandForGuild::schema().len(), 2);
}

#[test]
fn management_completion() {
    let store = store_with(&[("quote", true), ("poll", false), ("quiz", true)]);
    assert_eq!(ModManagement::command_choices(&store, "qu"), vec!["quote".to_string(), "quiz".to_string()]);
    assert_eq!(ModManagement::command_choices(&store, ""), vec!["quote".to_string(), "quiz".to_string()]);
    assert!(matches!(ModManagement::completion_target("poll", &vec![]), ManagementCompletion::NotMine));
    assert!(matches!(
        ModManagement::completion_target("enable_command_for_guild", &vec![]),
        ManagementCompletion::NoFocus
    ));
    match ModManagement::completion_target(
        "disable_command_for_guild",
        &vec![opt("command", OptionValue::Autocomplete("qu".to_string()))],
    ) {
        ManagementCompletion::Command(p) => assert_eq!(p, "qu"),
        _ => panic!("expected command completion"),
    }
    let mut choices = vec![];
    let page = vec![(1, "Crab Club".to_string()), (2, "Fish".to_string()), (3, "Crabs".to_string())];
    ModManagement::add_guild_choices(&mut choices, &page, "Crab");
    assert_eq!(choices, vec![(1, "Crab Club".to_string()), (3, "Crabs".to_string())]);
}

#[test]
fn poll_messages() {
    let q = PollType::Question("Pizza?".to_string());
    assert_eq!(build_message(&q, &vec![], &vec![]), "Pizza?");
    assert_eq!(build_message(&q, &vec![1, 22], &vec![3]), "Pizza?\nYes: <@1>, <@22>\nNo: <@3>");
    let r = ReadyPoll { count_emote: None, go_emote: None }.poll_type();
    assert_eq!(build_message(&r, &vec![], &vec![5]), "Ready?");
    assert_eq!(build_message(&r, &vec![5], &vec![]), "Ready? (<@5> is ready)");
    assert_eq!(build_message(&r, &vec![5, 6], &vec![]), "Ready? (<@5>, <@6> are ready)");
    assert!(matches!(Poll { question: "a".to_string() }.poll_type(), PollType::Question(_)));
}

#[test]
fn poll_state_debounces_and_starts_once() {
    let typ = ReadyPoll { count_emote: None, go_emote: None }.poll_type();
    let mut s = PollState::new();
    assert!(!s.apply_event(&typ, PollEvent::AddStatus(7, UserStatus::Ready)));
    assert!(!s.apply_event(&typ, PollEvent::AddStatus(7, UserStatus::Ready)));
    assert!(!s.apply_event(&typ, PollEvent::AddStatus(8, UserStatus::Ready)));
    assert_eq!(s.users_yes, vec![7, 8]);
    assert_eq!(s.flush(&typ).unwrap(), "Ready? (<@7>, <@8> are ready)");
    assert!(s.flush(&typ).is_none());
    assert!(!s.apply_event(&typ, PollEvent::RemoveStatus(7, UserStatus::Ready)));
    assert_eq!(s.users_yes, vec![8]);
    assert!(s.apply_event(&typ, PollEvent::Start));
    assert!(!s.apply_event(&typ, PollEvent::Start));
    let q = PollType::Question("q".to_string());
    let mut t = PollState::new();
    assert!(!t.apply_event(&q, PollEvent::Start));
}

#[test]
fn reactions_become_poll_events() {
    let mut m = ModPoll::new(None, Some("no".to_string()), Some("go".to_string()), None, None);
    assert_eq!(m.yes, YES);
    m.sessions.create(100, 1);
    assert!(m.handle_ready_poll(YES, None, 100, None).is_err());
    assert_eq!(m.handle_ready_poll(YES, Some(2), 100, None).unwrap(), Some(PollEvent::AddStatus(2, UserStatus::Ready)));
    assert_eq!(m.handle_ready_poll("no", Some(2), 100, None).unwrap(), Some(PollEvent::AddStatus(2, UserStatus::NotReady)));
    assert_eq!(m.handle_ready_poll("go", Some(2), 100, None).unwrap(), None);
    assert_eq!(m.handle_ready_poll("go", Some(1), 100, None).unwrap(), Some(PollEvent::Start));
    assert_eq!(m.handle_ready_poll(YES, Some(9), 100, Some(9)).unwrap(), None);
    assert_eq!(m.handle_ready_poll(YES, Some(2), 555, None).unwrap(), None);
    assert_eq!(m.handle_remove_react("no", Some(2), 100).unwrap(), Some(PollEvent::RemoveStatus(2, UserStatus::NotReady)));
    assert_eq!(m.handle_remove_react("other", None, 100).unwrap(), None);
    assert!(m.handle_remove_react(YES, None, 100).is_err());
    assert_eq!(m.handle_remove_react(YES, Some(2), 555).unwrap(), None);
}

#[test]
fn countdown() {
    let m = countdown_messages("C", "GO");
    assert_eq!(m, vec!["Starting 3s countdown", "C C C", "C C", "C", "GO"]);
}

#[test]
fn command_options_parse() {
    let opts = vec![
        opt("trigger", OptionValue::String("crab".to_string())),
        opt("emote", OptionValue::String("C".to_string())),
    ];
    let a = AddAutoreact::parse(&opts).unwrap();
    assert_eq!((a.trigger.as_str(), a.emote.as_str()), ("crab", "C"));
    let r = RemoveAutoreact::parse(&opts).unwrap();
    assert_eq!(r.emote, "C");
    assert_eq!(
        RemoveAutoreact::parse(&vec![opt("trigger", OptionValue::String("x".to_string()))]).unwrap_err(),
        "Value is required"
    );
    assert!(AddAutoreact::schema()[0].required);
    assert!(RemoveAutoreact::schema()[1].autocomplete);
    let rp = ReadyPoll::parse(&vec![opt("go_emote", OptionValue::String("G".to_string()))]);
    assert_eq!(rp.go_emote.as_deref(), Some("G"));
    assert!(rp.count_emote.is_none());
    assert_eq!(ReadyPoll::schema().len(), 2);
    assert!(Poll::parse(&vec![]).is_err());
    assert_eq!(Poll::parse(&vec![opt("question", OptionValue::String("Q".to_string()))]).unwrap().question, "Q");
    assert!(Poll::schema()[0].required);
}
