use rustyz::commands::{
    error_reply, error_report, global_commands, guild_commands, log_name, missing_command_report, route,
    twenty_four_hour, Clock, OptionKind, Route, WowRoute,
};
use rustyz::weather::{clock_zone, read_time_zone, LookupError};

#[test]
fn every_registered_command_has_a_handler() {
    let guild = guild_commands();
    let global = global_commands();
    assert_eq!(guild.len(), 5);
    assert_eq!(global.len(), 29);
    for c in guild.iter().chain(global.iter()) {
        assert_ne!(route(c.name, None), Route::Unknown, "{}", c.name);
    }
}

#[test]
fn registry_contents() {
    let global = global_commands();
    let names: Vec<&str> = global.iter().map(|c| c.name).collect();
    assert_eq!(names[0], "affixes");
    assert_eq!(names[28], "zalgo");
    let forecast = global.iter().find(|c| c.name == "forecast").unwrap();
    assert_eq!(forecast.options.len(), 2);
    assert_eq!(forecast.options[1].name, "hours");
    assert_eq!(forecast.options[1].kind, OptionKind::Integer);
    assert_eq!(forecast.options[1].min, Some(2));
    assert_eq!(forecast.options[1].max, Some(12));
    let track = global.iter().find(|c| c.name == "track").unwrap();
    assert_eq!(track.options[0].choices, vec![("FedEx", "fedex"), ("UPS", "ups"), ("USPS", "usps")]);
    assert!(track.options[0].required && !track.options[2].required);
    let wow = global.iter().find(|c| c.name == "wow").unwrap();
    let subs: Vec<&str> = wow.subcommands.iter().map(|s| s.name).collect();
    assert_eq!(subs, vec!["character", "realm", "search", "transmog"]);
    let roll = global.iter().find(|c| c.name == "roll").unwrap();
    assert_eq!(roll.options[0].max, Some(u32::MAX as i64));
    assert_eq!(guild_commands()[3].description, "Sends the current time for the mainlanders");
}

#[test]
fn routing() {
    assert_eq!(route("birdtime", None), Route::Time(Clock::Oslo));
    assert_eq!(route("realtime", None), Route::Time(Clock::Chicago));
    assert_eq!(route("upvote", None), Route::Vote(true));
    assert_eq!(route("downvote", None), Route::Vote(false));
    assert_eq!(route("wow", Some("transmog")), Route::Wow(WowRoute::Transmog));
    assert_eq!(route("wow", Some("dance")), Route::Wow(WowRoute::Unrecognized));
    assert_eq!(route("wow", None), Route::Wow(WowRoute::Missing));
    assert_eq!(route("tarkov", None), Route::Tarkov);
    assert_eq!(route("nope", None), Route::Unknown);
    assert!(twenty_four_hour(Clock::Chicago));
    assert!(!twenty_four_hour(Clock::Helsinki));
    assert_eq!(Clock::Copenhagen.zone(), "Europe/Copenhagen");
}

#[test]
fn command_log_and_error_texts() {
    assert_eq!(log_name("wow", Some("realm")), "wow realm");
    assert_eq!(log_name("ping", None), "ping");
    assert_eq!(error_reply("boom"), "\u{26A0} `Error: boom`");
    assert_eq!(error_report("ping", "boom"), "error running ping: `boom`");
    assert_eq!(missing_command_report("x"), "missing command: x");
}

#[test]
fn time_zones() {
    assert!(clock_zone(Clock::Oslo).is_ok());
    assert_eq!(clock_zone(Clock::Chicago).unwrap(), chrono_tz::Tz::America__Chicago);
    assert!(matches!(read_time_zone("OK", Some("Europe/Paris")), Ok(tz) if tz == chrono_tz::Tz::Europe__Paris));
    assert!(matches!(read_time_zone("OK", Some("Mars/Olympus")), Err(LookupError::InvalidTz(e)) if e == "failed to parse timezone"));
    assert!(matches!(read_time_zone("OK", None), Err(LookupError::NoResults)));
    assert!(matches!(read_time_zone("ZERO_RESULTS", Some("Europe/Paris")), Err(LookupError::Status(s)) if s == "ZERO_RESULTS"));
}
