use rustyz::raiderio::{best_runs, character_slug, format_runs, realm_slug, RunSummary};
use rustyz::twitch::{announcement, channel_in, needs_new_token, token_lifetime, AuthResponse, Stream, StreamsResponse};
use rustyz::wow::{armory_token_lifetime, choose_imagery, crop_box, parse_character_realm, CropBox, Imagery, MediaAsset};

fn stream(kind: &str, viewers: u64) -> Stream {
    Stream {
        user_name: "streamer".to_string(),
        game_name: "Doom".to_string(),
        title: "speedruns".to_string(),
        stream_type: kind.to_string(),
        viewer_count: viewers,
    }
}

#[test]
fn live_streams_only() {
    let live = StreamsResponse { data: vec![stream("live", 5)] };
    assert_eq!(live.live_stream().map(|s| s.user_name), Some("streamer".to_string()));
    let rerun = StreamsResponse { data: vec![stream("rerun", 5)] };
    assert!(rerun.live_stream().is_none());
    let two = StreamsResponse { data: vec![stream("live", 5), stream("live", 6)] };
    assert!(two.live_stream().is_none());
    assert!(StreamsResponse { data: vec![] }.live_stream().is_none());
}

#[test]
fn stream_announcement_groups_viewers() {
    assert_eq!(announcement(&stream("live", 1_234_567)), "streamer playing Doom\nspeedruns\n1,234,567 viewers");
    assert_eq!(announcement(&stream("live", 999)), "streamer playing Doom\nspeedruns\n999 viewers");
    assert_eq!(announcement(&stream("live", 1_000)), "streamer playing Doom\nspeedruns\n1,000 viewers");
}

#[test]
fn twitch_tokens_and_links() {
    let auth = AuthResponse { access_token: "t".to_string(), expires_in: 3600 };
    assert_eq!(token_lifetime(auth.expires_in), 3540);
    assert_eq!(token_lifetime(60), 60);
    assert_eq!(token_lifetime(61), 1);
    assert!(needs_new_token(None, 5));
    assert!(needs_new_token(Some(4), 5));
    assert!(!needs_new_token(Some(5), 5));
    assert_eq!(channel_in("watch https://www.twitch.tv/somebody now"), Some("somebody".to_string()));
    assert_eq!(channel_in("HTTP://TWITCH.TV/Loud_1"), Some("Loud_1".to_string()));
    assert_eq!(channel_in("https://youtube.com/x"), None);
}

fn run(name: &str, level: u8, up: u8) -> RunSummary {
    RunSummary { short_name: name.to_string(), mythic_level: level, num_keystone_upgrades: up }
}

#[test]
fn run_listings() {
    assert_eq!(format_runs(&vec![], 5), "No runs");
    let runs = vec![run("AD", 15, 2), run("FH", 14, 0), run("WM", 12, 3)];
    assert_eq!(format_runs(&runs, 5), "AD 15++\nFH 14\nWM 12+++");
    assert_eq!(format_runs(&runs, 2), "AD 15++\nFH 14");
    assert_eq!(format_runs(&runs, 0), "");
}

#[test]
fn best_run_per_dungeon() {
    assert_eq!(best_runs(&vec![], 8), "No runs");
    let runs = vec![run("TOP", 20, 1), run("AD", 18, 0), run("TOP", 25, 3), run("SIEGE", 17, 2)];
    assert_eq!(best_runs(&runs, 8), "`AD   ` 18\n`SIEGE` 17++\n`TOP  ` 20+");
    assert_eq!(best_runs(&runs, 2), "`AD ` 18\n`TOP` 20+");
    assert_eq!(best_runs(&runs, 0), "");
}

#[test]
fn character_and_realm_names() {
    assert_eq!(character_slug("  Thrall "), "thrall");
    assert_eq!(realm_slug(" Area 52 "), "area-52");
    assert_eq!(realm_slug("Kel'Thuzad"), "kelthuzad");
    assert_eq!(parse_character_realm("Thrall-Area 52"), Some(("thrall".to_string(), "area-52".to_string())));
    assert_eq!(parse_character_realm(" Jaina - Kel'Thuzad-x"), Some(("jaina".to_string(), "kelthuzad-x".to_string())));
    assert_eq!(parse_character_realm("nodash"), None);
    assert_eq!(armory_token_lifetime(86_399), 86_339);
}

#[test]
fn armory_pictures() {
    let assets = vec![
        MediaAsset { key: "avatar".to_string(), value: "a.jpg".to_string() },
        MediaAsset { key: "main".to_string(), value: "main.jpg".to_string() },
        MediaAsset { key: "main-raw".to_string(), value: "raw.png".to_string() },
    ];
    assert!(matches!(choose_imagery(&Some(assets), &None), Imagery::Raw(u) if u == "raw.png"));
    let no_raw = vec![MediaAsset { key: "main".to_string(), value: "main.jpg".to_string() }];
    assert!(matches!(choose_imagery(&Some(no_raw), &Some("r".to_string())), Imagery::Plain(u) if u == "main.jpg"));
    assert!(matches!(choose_imagery(&Some(vec![]), &Some("r".to_string())), Imagery::Plain(u) if u == "r"));
    assert!(matches!(choose_imagery(&None, &None), Imagery::Missing));
}

#[test]
fn crop_to_visible_pixels() {
    // 4 wide, 3 tall; opaque pixels at (1,1) and (2,2)
    let mut alpha = vec![0u8; 12];
    alpha[1 * 4 + 1] = 255;
    alpha[2 * 4 + 2] = 10;
    assert_eq!(crop_box(&alpha, 4, 3), CropBox { left: 1, top: 1, right: 3, bottom: 3 });
    assert_eq!(crop_box(&vec![0u8; 6], 3, 2), CropBox { left: 0, top: 0, right: 3, bottom: 2 });
    assert_eq!(crop_box(&vec![], 0, 0), CropBox { left: 0, top: 0, right: 0, bottom: 0 });
    let full = vec![1u8; 6];
    assert_eq!(crop_box(&full, 3, 2), CropBox { left: 0, top: 0, right: 3, bottom: 2 });
}
