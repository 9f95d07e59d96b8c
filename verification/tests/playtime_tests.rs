use rustyz::playtime::{
    create_components, first_seen_format, member_ids, no_playtime_message, parse_button_press, playtime_log_in_order,
    playtime_message, playtime_page, playtime_spans_fit, summarize_playtime, turn_page, GameTime, PageButton, PlaytimeError, PlaytimeSummary, PresenceRow,
    OFFSET_INC,
};

const SEC: i128 = 1_000_000_000;

fn row(date: i128, user: i64, game: Option<&str>) -> PresenceRow {
    PresenceRow { date, user_id: user, game: game.map(|g| g.to_string()) }
}

fn games(summary: PlaytimeSummary) -> Vec<(String, i128)> {
    match summary {
        PlaytimeSummary::Games(v) => v.into_iter().map(|g| (g.game, g.span)).collect(),
        PlaytimeSummary::NoPlaytime => panic!("expected games"),
    }
}

#[test]
fn playtime_sums_sessions_and_open_games() {
    let rows = vec![row(0, 1, Some("A")), row(5 * SEC, 2, Some("B")), row(10 * SEC, 1, None)];
    let got = games(summarize_playtime(&rows, 20 * SEC).ok().unwrap());
    assert_eq!(got, vec![
        ("All Games".to_string(), 25 * SEC),
        ("B".to_string(), 15 * SEC),
        ("A".to_string(), 10 * SEC),
    ]);
}

#[test]
fn switching_games_closes_the_previous_one() {
    let rows = vec![row(0, 1, Some("A")), row(4 * SEC, 1, Some("A")), row(6 * SEC, 1, Some("C")), row(9 * SEC, 1, None)];
    let got = games(summarize_playtime(&rows, 9 * SEC).ok().unwrap());
    assert_eq!(got, vec![
        ("All Games".to_string(), 9 * SEC),
        ("A".to_string(), 6 * SEC),
        ("C".to_string(), 3 * SEC),
    ]);
}

#[test]
fn no_rows_or_no_games_is_no_playtime() {
    assert!(matches!(summarize_playtime(&[], 0), Ok(PlaytimeSummary::NoPlaytime)));
    let rows = vec![row(0, 1, None), row(3 * SEC, 2, None)];
    assert!(matches!(summarize_playtime(&rows, 5 * SEC), Ok(PlaytimeSummary::NoPlaytime)));
}

#[test]
fn total_beyond_the_longest_duration_overflows() {
    let big: i128 = 9_223_372_036_854_775_807_000_000;
    let rows = vec![row(0, 1, Some("A")), row(0, 2, Some("B"))];
    assert!(matches!(summarize_playtime(&rows, big), Err(PlaytimeError::TimeOverflow)));
}

#[test]
fn pages_and_messages() {
    let entries: Vec<GameTime> = (0..20).map(|i| GameTime { game: format!("g{i}"), span: (20 - i) as i128 }).collect();
    let page = playtime_page(&entries, 15);
    assert_eq!(page.entries.len(), 5);
    assert_eq!(page.entries[0].game, "g15");
    assert_eq!(page.page, 2);
    assert_eq!(page.pages, 2);
    assert_eq!(page.name_width, 3);
    let first = playtime_page(&entries, 0);
    assert_eq!(first.entries.len(), OFFSET_INC as usize);
    assert_eq!(first.page, 1);
    assert_eq!(playtime_message(Some("bob"), "Jan 01, 2024", &page, "x\n"), "```bob since Jan 01, 2024 - Page 2/2\n\nx\n```");
    assert_eq!(playtime_message(None, "Jan 01, 2024", &first, ""), "```Since Jan 01, 2024 - Page 1/2\n\n```");
    assert_eq!(no_playtime_message(Some("bob")), "```No recorded playtime for bob```");
    assert_eq!(no_playtime_message(None), "```No recorded playtime```");
    assert_eq!(GameTime { game: String::new(), span: 90 * SEC + 5 }.seconds(), 90);
}

#[test]
fn first_seen_is_a_time_within_a_day() {
    let day = 86_400 * SEC;
    assert_eq!(first_seen_format(Some(0), day - 1), "%l:%M%p");
    assert_eq!(first_seen_format(Some(0), day), "%b %d, %Y");
    assert_eq!(first_seen_format(None, 5), "%b %d, %Y");
}

#[test]
fn buttons_and_presses() {
    let buttons = create_components(0, "a\nb", 42, false);
    assert_eq!(buttons.len(), 3);
    assert!(matches!(buttons[0].kind, PageButton::First));
    assert_eq!(buttons[0].custom_id, "playtime:first:42");
    assert_eq!(buttons[1].custom_id, "playtime:prev:42");
    assert_eq!(buttons[2].custom_id, "playtime:next:42");
    assert_eq!(buttons[2].label, "Next");
    assert!(buttons[0].disabled && buttons[1].disabled && buttons[2].disabled);
    let content: String = "line\n".repeat(17);
    let later = create_components(15, &content, -3, false);
    assert_eq!(later[0].custom_id, "playtime:first:-3");
    assert!(!later[0].disabled && !later[1].disabled && !later[2].disabled);
    assert!(create_components(15, &content, 1, true)[2].disabled);

    let press = parse_button_press("playtime:next:17").unwrap();
    assert_eq!(press.direction, "next");
    assert_eq!(press.button_id, 17);
    assert!(parse_button_press("other:next:17").is_none());
    assert!(parse_button_press("playtime:next:x").is_none());
    assert_eq!(turn_page("next", 15), Some(30));
    assert_eq!(turn_page("prev", 15), Some(0));
    assert_eq!(turn_page("prev", 5), Some(0));
    assert_eq!(turn_page("first", 15), Some(0));
    assert_eq!(turn_page("last", 15), None);
}

#[test]
fn member_ids_must_fit_storage() {
    assert_eq!(member_ids(&vec![1, 2, 3]), Some(vec![1, 2, 3]));
    assert_eq!(member_ids(&vec![1, u64::MAX]), None);
}

#[test]
fn log_checks() {
    let rows = vec![row(0, 1, Some("A")), row(5 * SEC, 2, Some("B")), row(10 * SEC, 1, None)];
    assert!(playtime_log_in_order(&rows, 20 * SEC));
    assert!(!playtime_log_in_order(&rows, 9 * SEC));
    let shuffled = vec![row(5 * SEC, 1, Some("A")), row(0, 2, None)];
    assert!(!playtime_log_in_order(&shuffled, 20 * SEC));
    assert!(playtime_spans_fit(&rows, 20 * SEC));
    let limit: i128 = 9_223_372_036_854_775_807_000_000_000;
    let far = vec![row(-limit, 1, Some("A"))];
    assert!(!playtime_spans_fit(&far, limit));
}

#[test]
fn button_ids_read_back() {
    for id in [0, 7, -3, i32::MAX, i32::MIN] {
        for b in create_components(0, "", id, false) {
            let press = parse_button_press(&b.custom_id).unwrap();
            assert_eq!(press.button_id, id);
            assert_eq!(b.custom_id, format!("playtime:{}:{id}", press.direction));
        }
    }
}
