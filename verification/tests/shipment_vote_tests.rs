use rustyz::shippo::{delivery_message, poll_action, track_reply, tracks_shipment, PollAction, Status, TrackingNumber};
use rustyz::vote::{
    decide_vote, is_self_upvote, judge_vote, karma_change, vote_in, vote_to_record, EarlierVote, VoteHistory,
    VoteOutcome, VoteRequest, MAX_COOLDOWN_SECS, MIN_COOLDOWN_SECS,
};

#[test]
fn tracking_numbers_round_trip() {
    let t = TrackingNumber::from_carrier("ups", "1Z999").unwrap();
    assert_eq!(t.carrier(), "ups");
    assert_eq!(t.number(), "1Z999");
    assert_eq!(t.to_text(), "ups/1Z999");
    for carrier in ["fedex", "ups", "usps"] {
        let t = TrackingNumber::from_carrier(carrier, "n").unwrap();
        assert_eq!(t.carrier(), carrier);
    }
    assert!(TrackingNumber::from_carrier("dhl", "n").is_none());
    assert!(matches!(TrackingNumber::from_carrier("usps", "9"), Some(TrackingNumber::Usps(_))));
}

#[test]
fn statuses_and_polling() {
    assert_eq!(Status::PreTransit.name(), "pre_transit");
    assert_eq!(Status::Delivered.name(), "delivered");
    assert_eq!(poll_action("transit", None), PollAction::Nothing);
    assert_eq!(poll_action("transit", Some(Status::Transit)), PollAction::Nothing);
    assert_eq!(poll_action("transit", Some(Status::Delivered)), PollAction::NotifyAndMarkDelivered);
    assert_eq!(poll_action("unknown", Some(Status::Transit)), PollAction::Record(Status::Transit));
    assert_eq!(poll_action("pre_transit", Some(Status::Transit)), PollAction::Record(Status::Transit));
    assert_eq!(poll_action("transit", Some(Status::Returned)), PollAction::Record(Status::Returned));
    assert!(tracks_shipment(Some(Status::Transit)));
    assert!(!tracks_shipment(Some(Status::Delivered)));
    assert!(!tracks_shipment(None));
}

#[test]
fn shipment_texts() {
    assert_eq!(
        delivery_message(12, "ups", "1Z", Some("shoes"), "2024-01-01 10:00:00 UTC", "Left at door"),
        "<@12>: Your ups shipment 1Z (shoes) was marked as delivered at 2024-01-01 10:00:00 UTC with the following message: Left at door"
    );
    assert_eq!(
        delivery_message(12, "ups", "1Z", None, "t", "d"),
        "<@12>: Your ups shipment 1Z was marked as delivered at t with the following message: d"
    );
    assert_eq!(track_reply(None, None), "Status Unknown");
    assert_eq!(track_reply(Some("In transit"), Some("Monday, Jan 01")), "In transit\nETA: Monday, Jan 01");
}

#[test]
fn votes_in_messages() {
    assert_eq!(vote_in("<@123> ++"), Some((123, true)));
    assert_eq!(vote_in("hey <@!45>--"), Some((45, false)));
    assert_eq!(vote_in("<@123>"), None);
    assert_eq!(vote_in("<@99999999999999999999> ++"), None);
    assert_eq!(vote_in("nothing here"), None);
}

const SEC: i128 = 1_000_000_000;

fn history(now: i128, last_vote: i128) -> VoteHistory {
    VoteHistory { last_vote, last_against: None, last_from: None, now }
}

#[test]
fn vote_decisions() {
    let up = VoteRequest { is_upvote: true, author_id: 1, user_id: 2 };
    let now = 1_000_000 * SEC;
    assert_eq!(decide_vote(VoteRequest { is_upvote: true, author_id: 1, user_id: 1 }, history(now, 0), 300), VoteOutcome::SelfUpvote);
    assert!(is_self_upvote(VoteRequest { is_upvote: true, author_id: 1, user_id: 1 }));
    assert!(!is_self_upvote(VoteRequest { is_upvote: false, author_id: 1, user_id: 1 }));
    assert_eq!(decide_vote(up, history(now, now - 299 * SEC), 300), VoteOutcome::TooSoon);
    assert_eq!(decide_vote(up, history(now, now - 300 * SEC), 300), VoteOutcome::Counted);
    let mut h = history(now, 0);
    h.last_against = Some(EarlierVote { other: 2, at: now - 3600 * SEC });
    assert_eq!(decide_vote(up, h, 300), VoteOutcome::Retaliation);
    h.last_against = Some(EarlierVote { other: 3, at: now - 3600 * SEC });
    h.last_from = Some(EarlierVote { other: 2, at: now - 43_200 * SEC });
    assert_eq!(decide_vote(up, h, 300), VoteOutcome::Counted);
    h.last_from = Some(EarlierVote { other: 2, at: now - 43_199 * SEC });
    assert_eq!(decide_vote(up, h, 300), VoteOutcome::Retaliation);
    // a downvote on oneself is an ordinary vote
    let down_self = VoteRequest { is_upvote: false, author_id: 5, user_id: 5 };
    assert_eq!(decide_vote(down_self, history(now, 0), 300), VoteOutcome::Counted);
}

#[test]
fn vote_replies_and_records() {
    let up = VoteRequest { is_upvote: true, author_id: 1, user_id: 2 };
    assert_eq!(VoteOutcome::SelfUpvote.reply(), Some("No."));
    assert_eq!(VoteOutcome::TooSoon.reply(), Some("Slow down champ."));
    assert_eq!(VoteOutcome::Retaliation.reply(), Some("Really?..."));
    assert_eq!(VoteOutcome::Counted.reply(), None);
    let me = VoteRequest { is_upvote: true, author_id: 7, user_id: 7 };
    assert_eq!(vote_to_record(me, VoteOutcome::SelfUpvote), Some((false, 7, 7)));
    assert_eq!(vote_to_record(up, VoteOutcome::Counted), Some((true, 1, 2)));
    assert_eq!(vote_to_record(up, VoteOutcome::TooSoon), None);
    assert_eq!(karma_change(true), 1);
    assert_eq!(karma_change(false), -1);
}

#[test]
fn drawn_cooldowns_stay_in_range() {
    let up = VoteRequest { is_upvote: true, author_id: 1, user_id: 2 };
    let now = 1_000_000 * SEC;
    assert!(MIN_COOLDOWN_SECS <= MAX_COOLDOWN_SECS);
    for _ in 0..50 {
        assert_eq!(judge_vote(up, history(now, now - 299 * SEC)), VoteOutcome::TooSoon);
        assert_eq!(judge_vote(up, history(now, now - 601 * SEC)), VoteOutcome::Counted);
    }
}
