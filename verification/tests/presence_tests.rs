use rustyz::activity::{
    current_game, host_uptime, last_played_message, last_seen_message, shows_online, span_words, uptime, LastGame,
};
use rustyz::presence::{
    game_name, game_of, startup_presences, user_status, Activity, GuildMembership, OnlineState, PresenceMemory,
};

#[test]
fn game_names_are_cleaned() {
    assert_eq!(game_name("Overwatch\u{ae}"), Some("Overwatch".to_string()));
    assert_eq!(game_name("  Halo\u{2122} Infinite "), Some("Halo Infinite".to_string()));
    let long = "a".repeat(600);
    assert_eq!(game_name(&long), Some("a".repeat(512)));
    let cut_inside = format!("{}\u{e9}", "a".repeat(511));
    assert_eq!(game_name(&cut_inside), None);
    let fits = format!("{}\u{e9}", "a".repeat(510));
    assert_eq!(game_name(&fits), Some(fits.clone()));
}

#[test]
fn the_first_game_being_played_counts() {
    let acts = vec![
        Activity { playing: false, name: "Spotify".to_string() },
        Activity { playing: true, name: "Doom\u{ae}".to_string() },
        Activity { playing: true, name: "Quake".to_string() },
    ];
    assert_eq!(game_of(&acts), Ok(Some("Doom".to_string())));
    assert_eq!(game_of(&vec![Activity { playing: false, name: "x".to_string() }]), Ok(None));
    assert_eq!(game_of(&vec![]), Ok(None));
}

#[test]
fn server_membership_read_after_write() {
    let mut m = GuildMembership::new();
    assert!(!m.contains(1, 10));
    m.record(1, 10);
    m.record(1, 11);
    m.record(1, 10);
    assert!(m.contains(1, 10) && m.contains(1, 11));
    assert!(!m.contains(2, 10));
    assert!(!m.leave(1, 10));
    assert!(!m.contains(1, 10));
    assert!(m.contains(1, 11));
    assert!(m.leave(1, 11));
    assert!(m.leave(3, 10));
}

#[test]
fn presence_memory_read_after_write() {
    let mut p = PresenceMemory::new();
    assert_eq!(p.get(1), None);
    assert!(!p.repeats(1, OnlineState::Online, &None));
    p.remember(1, OnlineState::Online, Some("Doom".to_string()));
    assert!(p.repeats(1, OnlineState::Online, &Some("Doom".to_string())));
    assert!(!p.repeats(1, OnlineState::Idle, &Some("Doom".to_string())));
    assert!(!p.repeats(1, OnlineState::Online, &None));
    assert_eq!(p.get(1), Some((OnlineState::Online, Some("Doom".to_string()))));
    assert_eq!(user_status(&p, 1, Some(OnlineState::Offline)), Some(OnlineState::Online));
    assert_eq!(user_status(&p, 2, Some(OnlineState::Offline)), Some(OnlineState::Offline));
    assert_eq!(OnlineState::DoNotDisturb.name(), "dnd");
    assert!(startup_presences(None));
    assert!(startup_presences(Some(false)));
    assert!(!startup_presences(Some(true)));
}

const SEC: i128 = 1_000_000_000;

#[test]
fn spans_in_words() {
    assert_eq!(span_words(-5 * SEC), "less than a second");
    assert_eq!(span_words(SEC - 1), "less than a second");
    assert_eq!(span_words(SEC), "1 seconds");
    assert_eq!(span_words(119 * SEC + 999), "119 seconds");
    assert_eq!(span_words(120 * SEC), "2 minutes");
    assert_eq!(span_words(7199 * SEC), "119 minutes");
    assert_eq!(span_words(7200 * SEC), "2 hours");
    assert_eq!(span_words(48 * 3600 * SEC - 1), "47 hours");
    assert_eq!(span_words(48 * 3600 * SEC), "2 days");
}

#[test]
fn last_seen_replies() {
    assert!(shows_online(Some(OnlineState::DoNotDisturb)));
    assert!(!shows_online(Some(OnlineState::Idle)));
    assert_eq!(last_seen_message(Some("ann"), Some(OnlineState::Online), None), "ann is currently online");
    assert_eq!(last_seen_message(None, Some(OnlineState::DoNotDisturb), Some(SEC)), "They're currently online");
    assert_eq!(last_seen_message(Some("ann"), Some(OnlineState::Idle), None), "I've never seen ann");
    assert_eq!(last_seen_message(None, None, None), "I've never seen them");
    assert_eq!(last_seen_message(Some("ann"), None, Some(300 * SEC)), "ann was last seen 5 minutes ago");
    assert_eq!(last_seen_message(None, Some(OnlineState::Offline), Some(3 * 86_400 * SEC)), "last seen 3 days ago");
}

#[test]
fn last_played_replies() {
    assert_eq!(current_game(Some((OnlineState::Online, Some("Doom".to_string())))), Some("Doom".to_string()));
    assert_eq!(current_game(Some((OnlineState::Invisible, Some("Doom".to_string())))), None);
    assert_eq!(current_game(Some((OnlineState::Idle, None))), None);
    assert_eq!(last_played_message(Some("ann"), &LastGame::PlayingNow("Doom".to_string())), "ann is currently playing Doom");
    assert_eq!(last_played_message(None, &LastGame::Never), "I've never seen them play anything");
    assert_eq!(last_played_message(Some("ann"), &LastGame::Never), "I've never seen ann play anything");
    assert_eq!(
        last_played_message(None, &LastGame::Played { game: "Doom".to_string(), stopped_for: None }),
        "currently playing Doom"
    );
    assert_eq!(
        last_played_message(Some("ann"), &LastGame::Played { game: "Doom".to_string(), stopped_for: Some(30 * SEC) }),
        "ann was playing Doom 30 seconds ago"
    );
}

#[test]
fn uptimes() {
    assert_eq!(uptime(0), Vec::<String>::new());
    assert_eq!(uptime(1), vec!["1 second"]);
    assert_eq!(uptime(694_861), vec!["1 week", "1 day", "1 hour", "1 minute", "1 second"]);
    assert_eq!(uptime(2 * 604_800 + 7_200 + 59), vec!["2 weeks", "2 hours", "59 seconds"]);
    assert_eq!(host_uptime("up 2 weeks, 3 days, 1 hour\n"), "2 weeks\n3 days\n1 hour\n");
}
