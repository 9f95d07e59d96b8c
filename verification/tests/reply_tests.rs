use rustyz::embeds::{
    affix_fields, bot_fields, card_title, invite_link, roubles, server_fields, trader_price, user_fields, Affix,
    BotFacts, ServerFacts, UserFacts,
};
use rustyz::fun::{clip_file, die_sides, leave_voice, playback_step, random_clip, roll, zalgo, PlaybackReport, PlaybackStep};
use rustyz::images::{links_image, needs_shrink, newest_image, no_answer_message, ImageSource, PostedMessage};
use rustyz::members::{
    display_name, leader_line, length_list_limit, list_limit, listing_capacity, tally_words, usage_heading,
    usage_pattern, whois_target, MessageRow, TallyError,
};
use rustyz::weather::{
    check_timeline, condition, forecast_hours, forecast_report, weather_report, Conditions, ForecastHour, parse_location, place_name, read_geocode, worst_air, GeocodeResult,
    LocationQuery, LookupError, Observation, TimelineError,
};

fn fields(v: Vec<rustyz::embeds::EmbedField>) -> Vec<(String, String, bool)> {
    v.into_iter().map(|f| (f.name, f.value, f.inline)).collect()
}

#[test]
fn user_card() {
    let facts = UserFacts {
        bot: false,
        boosting_since: Some("Jan  5, 2021"),
        joined_discord: "Mar  1, 2016",
        joined_server: None,
        first_message: None,
        server_messages: 1_234_567,
        channel_messages: 0,
        karma: -1_500,
    };
    let got = fields(user_fields(&facts));
    assert_eq!(got[0], ("Bot?".to_string(), "\u{274C}".to_string(), true));
    assert_eq!(got[1].1, "Since Jan  5, 2021");
    assert_eq!(got[3].1, "`Unknown`");
    assert_eq!(got[4].1, "Unavailable");
    assert_eq!(got[5].1, "1,234,567");
    assert_eq!(got[6].1, "0");
    assert_eq!(got[7], ("Karma".to_string(), "-1,500".to_string(), true));
    assert_eq!(card_title(Some("nick"), "name"), ("nick".to_string(), Some("name".to_string())));
    assert_eq!(card_title(None, "name"), ("name".to_string(), None));
}

#[test]
fn server_and_bot_cards() {
    let s = ServerFacts { created: "May  4, 2016", boost_tier: 2, boosts: Some(14), messages: 1_000_000, members: None, online_members: Some(1234) };
    let got = fields(server_fields(&s));
    let names: Vec<&str> = got.iter().map(|f| f.0.as_str()).collect();
    assert_eq!(names, vec!["Created on", "Boost Tier", "Boosts", "Messages", "Members", "Online Members"]);
    assert_eq!(got[1].1, "Level 2");
    assert_eq!(got[3].1, "1,000,000");
    assert_eq!(got[4].1, "?");
    assert_eq!(got[5].1, "1,234");
    let s2 = ServerFacts { boost_tier: 9, boosts: None, ..s };
    let got2 = fields(server_fields(&s2));
    assert_eq!(got2.len(), 5);
    assert_eq!(got2[1].1, "?");
    let b = BotFacts { joined_discord: "d", joined_server: Some("s"), servers: 3, host_uptime: "h", bot_uptime: "1 day" };
    let got3 = fields(bot_fields(&b));
    assert_eq!(got3[2], ("Member of".to_string(), "3 servers".to_string(), true));
    assert_eq!(got3[4].1, "1 day");
}

#[test]
fn affixes_and_prices() {
    let affix = |n: &str| Affix { name: n.to_string(), description: format!("{n} does things") };
    let four = vec![affix("Fortified"), affix("Bolstering"), affix("Storming"), affix("Tyrannical")];
    let got = fields(affix_fields(&four).unwrap());
    assert_eq!(got.len(), 5);
    assert_eq!(got[1].0, "Bolstering (+4)");
    assert_eq!(got[3].0, "Tyrannical (+10)");
    assert_eq!(got[4].0, "Xal'atath's Guile (+12)");
    assert!(!got[0].2);
    assert!(affix_fields(&vec![affix("a"), affix("b")]).is_none());
    assert_eq!(roubles(1_234_567), "1,234,567 \u{20bd}");
    assert_eq!(trader_price(1500, "$"), "$1,500");
    assert_eq!(trader_price(1500, "\u{20ac}"), "1,500 \u{20ac}");
    assert_eq!(
        invite_link(123),
        "https://discord.com/api/oauth2/authorize?client_id=123&permissions=2147552256&scope=bot%20applications.commands"
    );
}

#[test]
fn dice_zalgo_and_clips() {
    assert_eq!(die_sides(None), Some(100));
    assert_eq!(die_sides(Some(6)), Some(6));
    assert_eq!(die_sides(Some(-1)), None);
    assert_eq!(die_sides(Some(5_000_000_000)), None);
    for _ in 0..100 {
        let r = roll(6);
        assert!((1..=6).contains(&r));
    }
    assert_eq!(roll(1), 1);
    let z: Vec<char> = zalgo("hey").chars().collect();
    assert_eq!(z.len(), 9);
    assert_eq!((z[0], z[3], z[6]), ('h', 'e', 'y'));
    assert!(z.iter().enumerate().all(|(i, c)| i % 3 == 0 || (0x300..=0x369).contains(&(*c as u32))));
    assert_eq!(zalgo(""), "");
    assert_eq!(clip_file(7), "suh/suh7.mp3");
    let clip = random_clip();
    let n: u32 = clip.trim_start_matches("suh/suh").trim_end_matches(".mp3").parse().unwrap();
    assert!(n <= 76);
    assert!(matches!(playback_step(PlaybackReport::State { done: false }), PlaybackStep::KeepPlaying));
    assert!(matches!(playback_step(PlaybackReport::State { done: true }), PlaybackStep::Done));
    assert!(matches!(playback_step(PlaybackReport::TimedOut), PlaybackStep::Done));
    assert!(matches!(playback_step(PlaybackReport::Finished), PlaybackStep::Done));
    assert!(matches!(playback_step(PlaybackReport::Failed("x".to_string())),
        PlaybackStep::Error(m) if m == "Unexpected error during playback: x"));
    assert!(leave_voice(0));
    assert!(!leave_voice(1));
}

#[test]
fn members_and_leaderboards() {
    assert_eq!(display_name(Some((Some("nick"), "name")), None), "nick");
    assert_eq!(display_name(Some((None, "name")), Some("other")), "name");
    assert_eq!(display_name(None, Some("fetched")), "fetched");
    assert_eq!(display_name(None, None), "`<UNKNOWN>`");
    assert_eq!(leader_line("ann", 12), "ann \u{2014} 12\n");
    assert_eq!(leader_line("bob", -3), "bob \u{2014} -3\n");
    assert_eq!(list_limit(None), 5);
    assert_eq!(list_limit(Some(20)), 20);
    assert_eq!(listing_capacity(-1), None);
    assert_eq!(listing_capacity(7), Some(7));
    assert_eq!(length_list_limit(None), 5);
    assert_eq!(length_list_limit(Some(20)), 20);
    assert_eq!(length_list_limit(Some(-1)), u32::MAX);
    assert_eq!(length_list_limit(Some(0x1_0000_0003)), 3);
    assert_eq!(whois_target("1234"), Some(1234));
    assert_eq!(whois_target("abc"), None);
    assert_eq!(usage_heading("roll"), "usage of `roll`\n");
    assert_eq!(usage_pattern("roll"), "/roll%");
}

#[test]
fn word_tallies() {
    let rows = vec![
        MessageRow { author_id: 1, content: Some("hello there".to_string()) },
        MessageRow { author_id: 2, content: Some("hi".to_string()) },
        MessageRow { author_id: 1, content: Some("a  b".to_string()) },
    ];
    assert_eq!(tally_words(&rows), Ok(vec![(1, 2, 5), (2, 1, 1)]));
    assert_eq!(tally_words(&vec![]), Ok(vec![]));
    let bad = vec![MessageRow { author_id: -1, content: Some("x".to_string()) }];
    assert_eq!(tally_words(&bad), Err(TallyError::BadUserId));
    let missing = vec![MessageRow { author_id: 1, content: None }];
    assert_eq!(tally_words(&missing), Err(TallyError::MissingContent));
    // the first row that cannot be counted decides the error
    let both = vec![
        MessageRow { author_id: 1, content: Some("ok".to_string()) },
        MessageRow { author_id: 2, content: None },
        MessageRow { author_id: -3, content: Some("x".to_string()) },
    ];
    assert_eq!(tally_words(&both), Err(TallyError::MissingContent));
    let both_in_one = vec![MessageRow { author_id: -3, content: None }];
    assert_eq!(tally_words(&both_in_one), Err(TallyError::BadUserId));
}

#[test]
fn weather_pieces() {
    assert_eq!(condition(Some(1000)), "clear");
    assert_eq!(condition(Some(7101)), "heavy ice pellets");
    assert_eq!(condition(Some(1)), "unknown");
    assert_eq!(condition(None), "unknown");
    let obs = vec![
        Observation { aqi: 40, category: "Good".to_string() },
        Observation { aqi: 60, category: "Moderate".to_string() },
        Observation { aqi: 60, category: "Second".to_string() },
    ];
    assert_eq!(worst_air(&obs), Some((60, "Moderate".to_string())));
    assert_eq!(worst_air(&vec![]), None);
    assert!(matches!(parse_location("30.27, -97.74"), LocationQuery::Coordinates(a, b) if a == "30.27" && b == "-97.74"));
    assert!(matches!(parse_location("austin tx"), LocationQuery::Search(s) if s == "austin tx"));
    assert!(matches!(parse_location(""), LocationQuery::Default));
    assert_eq!(place_name(Some("Austin"), "atx"), "austin");
    assert_eq!(place_name(None, "ATX"), "atx");
    assert_eq!(forecast_hours(None), 6);
    assert_eq!(forecast_hours(Some(12)), 12);
}

#[test]
fn service_replies() {
    let located = GeocodeResult { has_location: true, first_component: Some(Some("Austin".to_string())) };
    assert!(matches!(read_geocode("OK", &vec![located]), Ok(Some(n)) if n == "Austin"));
    let unnamed = GeocodeResult { has_location: true, first_component: Some(None) };
    assert!(matches!(read_geocode("OK", &vec![unnamed]), Ok(None)));
    let nowhere = GeocodeResult { has_location: false, first_component: None };
    assert!(matches!(read_geocode("OK", &vec![nowhere]), Err(LookupError::MissingGeometry)));
    assert!(matches!(read_geocode("OK", &vec![]), Err(LookupError::NoResults)));
    let denied = read_geocode("REQUEST_DENIED", &vec![]);
    assert!(matches!(&denied, Err(LookupError::Status(s)) if s == "REQUEST_DENIED"));
    assert_eq!(denied.err().unwrap().message(), "expected OK status, got REQUEST_DENIED");
    assert_eq!(LookupError::NoResults.message(), "0 geocoding results");
    assert_eq!(LookupError::InvalidTz("bad".to_string()).message(), "invalid timezone ID: bad");
    assert!(check_timeline(Some(("1h", 3)), "1h").is_ok());
    assert!(matches!(check_timeline(None, "1h"), Err(TimelineError::MissingTimelines)));
    assert!(matches!(check_timeline(Some(("1h", 0)), "1h"), Err(TimelineError::MissingIntervals)));
    let wrong = check_timeline(Some(("1d", 3)), "current");
    assert_eq!(wrong.err().unwrap().message(), "expect timeline interval current, got 1d");
    assert_eq!(TimelineError::MissingTimelines.message(), "response missing timelines");
}

#[test]
fn pictures_and_answers() {
    assert!(links_image("https://example.com/cat.PNG"));
    assert!(links_image("http://x.org/a/b.jpg?size=2"));
    assert!(!links_image("look https://example.com/cat.png"));
    assert!(!links_image("https://example.com/page"));
    assert!(needs_shrink(401, 10));
    assert!(!needs_shrink(400, 400));
    assert_eq!(no_answer_message("2+"), "\u{26A0} `No suitable answer found for \"2+\"`");
}

#[test]
fn weather_and_forecast_replies() {
    let full = Conditions {
        temperature: Some("72"),
        feels_like: Some("75"),
        humidity: Some("40"),
        dew_point: Some("50"),
        wind_speed: Some("5.5"),
        wind_direction: Some("180"),
        wind_gust: Some("10.2"),
        uv_index: Some(3),
        weather_code: Some(1000),
        air_quality: Some((42, "Good")),
    };
    let expected = format!(
        "weather in {}\ntemperature | {} {}\nconditions | {}\nrelative humidty | {} {}\nwind | {} {} {}\nuv index | {}\nair quality index | {}",
        "austin, tx",
        "72 \u{b0}F",
        "(feels like 75 \u{b0}F)",
        "clear",
        "40%",
        "(dew point: 50 \u{b0}F)",
        "5.5 mph",
        "from 180\u{b0}",
        "(gusts: 10.2 mph)",
        3,
        "42 (Good)"
    );
    assert_eq!(weather_report("austin, tx", &full), expected);

    let empty = Conditions {
        temperature: None,
        feels_like: None,
        humidity: None,
        dew_point: None,
        wind_speed: None,
        wind_direction: None,
        wind_gust: None,
        uv_index: None,
        weather_code: None,
        air_quality: None,
    };
    assert_eq!(
        weather_report("home", &empty),
        "weather in home\ntemperature | -- \nconditions | unknown\nrelative humidty | -- \nwind | --  \nuv index | --\nair quality index | --"
    );

    let hours = vec![
        ForecastHour {
            time: " 3p",
            temperature: Some("71"),
            humidity: Some("45"),
            dew_point: Some("48"),
            rain: Some("10"),
            wind: Some(("12", "SW")),
            uv_index: Some(5),
        },
        ForecastHour {
            time: "11a",
            temperature: None,
            humidity: None,
            dew_point: None,
            rain: None,
            wind: None,
            uv_index: None,
        },
    ];
    let mut expected = String::from(
        "forecast for there\n``` Time |  Temp  |  RH  | Dewpoint |  Rain  |   Wind   | UV\n      |        |      |          |        |          |\n",
    );
    expected.push_str(&format!(
        "{:^6}|{:^8}|{:^6}|{:^10}|{:^8}|{:^10}|{}\n",
        " 3p",
        "71 \u{b0}F",
        "45%",
        "48 \u{b0}F",
        "10%",
        format!("{:<5} {}", "12mph", "SW"),
        " 5"
    ));
    expected.push_str(&format!(
        "{:^6}|{:^8}|{:^6}|{:^10}|{:^8}|{:^10}|{}\n",
        "11a", "--", "--", "--", "--", "--", " --"
    ));
    expected.push_str("```");
    assert_eq!(forecast_report("there", &hours), expected);
    assert_eq!(
        forecast_report("nowhere", &Vec::new()),
        "forecast for nowhere\n``` Time |  Temp  |  RH  | Dewpoint |  Rain  |   Wind   | UV\n      |        |      |          |        |          |\n```"
    );
}

fn posted(types: Vec<Option<&str>>, content: &str) -> PostedMessage {
    PostedMessage {
        attachment_types: types.into_iter().map(|t| t.map(|m| m.to_string())).collect(),
        content: content.to_string(),
    }
}

#[test]
fn newest_picture_is_taken() {
    let messages = vec![
        posted(vec![], "just talk"),
        posted(vec![Some("text/plain"), None, Some("image/png")], "with files"),
        posted(vec![], "https://example.com/cat.jpg"),
    ];
    assert_eq!(newest_image(Some("image/jpeg"), &messages), Some(ImageSource::Upload));
    assert_eq!(newest_image(Some("application/pdf"), &messages), Some(ImageSource::Attachment(1, 2)));
    assert_eq!(newest_image(None, &messages), Some(ImageSource::Attachment(1, 2)));
    // a newer link wins over an older attachment
    let link_first = vec![posted(vec![], "https://example.com/dog.PNG?size=2"), posted(vec![Some("image/gif")], "")];
    assert_eq!(newest_image(None, &link_first), Some(ImageSource::Link(0)));
    // an attachment of the same message comes before its link
    let both = vec![posted(vec![Some("image/webp")], "https://example.com/dog.png")];
    assert_eq!(newest_image(None, &both), Some(ImageSource::Attachment(0, 0)));
    assert_eq!(newest_image(None, &vec![posted(vec![Some("video/mp4")], "no picture here")]), None);
    assert_eq!(newest_image(None, &vec![]), None);
}
