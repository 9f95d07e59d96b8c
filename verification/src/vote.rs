//! Karma votes: reading a vote out of a message, and deciding whether a vote
//! counts or what the voter is told instead.

use vstd::prelude::*;
use crate::pattern::{captures, captures_view, group, group_of, regex_captures};
use crate::text::{lemma_parse_unsigned_nonneg, parse_int, parse_u64, same_text};
use crate::window::{EARLIEST_NANOS, LATEST_NANOS};

verus! {

/// A mention of a user followed by `++` or `--`; group 1 is the user's ID,
/// group 2 the sign.
pub const VOTE_PATTERN: &'static str = "<@!?(\\d+?)>\\s*(\\+\\+|--)";

/// The least time, in seconds, between two votes of one voter is drawn from
/// `MIN_COOLDOWN_SECS` to `MAX_COOLDOWN_SECS`.
pub const MIN_COOLDOWN_SECS: i64 = 300;

/// See `MIN_COOLDOWN_SECS`.
pub const MAX_COOLDOWN_SECS: i64 = 599;

/// How long, in seconds, two users cannot vote on each other back and forth.
pub const RETALIATION_SECS: i64 = 43200;

/// The vote a message holds: the user voted on and whether it is an upvote.
pub open spec fn message_vote(content: Seq<char>) -> Option<(int, bool)> {
    match regex_captures(VOTE_PATTERN@, content) {
        None => None,
        Some(caps) => match (group(caps, 1), group(caps, 2)) {
            (Some(id), Some(sign)) => match parse_int(id, false) {
                Some(v) => if v <= u64::MAX { Some((v, sign == "++"@)) } else { None },
                None => None,
            },
            _ => None,
        },
    }
}

/// The vote in a message, if it holds one whose user ID is a `u64`.
pub fn vote_in(content: &str) -> (res: Option<(u64, bool)>)
    ensures
        (match res {
            Some((u, up)) => Some((u as int, up)),
            None => None,
        }) == message_vote(content@),
{
    let caps = match captures(VOTE_PATTERN, content) {
        Some(c) => c,
        None => return None,
    };
    let id = group_of(&caps, 1);
    let sign = group_of(&caps, 2);
    match (id, sign) {
        (Some(id), Some(sign)) => match parse_u64(id.as_str()) {
            Some(v) => {
                proof {
                    lemma_parse_unsigned_nonneg(id@);
                }
                Some((v, same_text(sign.as_str(), "++")))
            },
            None => None,
        },
        _ => None,
    }
}

/// A vote to decide on.
#[derive(Debug, PartialEq, Eq, Structural, Clone, Copy)]
pub struct VoteRequest {
    pub is_upvote: bool,
    pub author_id: i64,
    pub user_id: i64,
}

/// An earlier vote between the voter and another user: who the other user is,
/// and when it was cast (nanoseconds since the Unix epoch).
#[derive(Debug, PartialEq, Eq, Structural, Clone, Copy)]
pub struct EarlierVote {
    pub other: i64,
    pub at: i128,
}

/// What is known of earlier votes when a vote comes in; instants are in
/// nanoseconds since the Unix epoch.
#[derive(Debug, PartialEq, Eq, Structural, Clone, Copy)]
pub struct VoteHistory {
    /// When the voter last voted (the epoch where never).
    pub last_vote: i128,
    /// The latest vote in the server on the voter: who cast it, and when.
    pub last_against: Option<EarlierVote>,
    /// The voter's latest vote in the server: on whom, and when.
    pub last_from: Option<EarlierVote>,
    /// Now.
    pub now: i128,
}

/// What comes of a vote.
#[derive(Debug, PartialEq, Eq, Structural, Clone, Copy)]
pub enum VoteOutcome {
    /// Upvoting oneself: recorded as a downvote on oneself, answered "No.".
    SelfUpvote,
    /// The voter voted less than the cooldown ago: "Slow down champ.".
    TooSoon,
    /// The two users voted on each other within the last twelve hours: "Really?...".
    Retaliation,
    /// The vote is recorded.
    Counted,
}

/// Whether an earlier vote between the voter and `other` at `at` rules the vote out.
pub open spec fn recent_exchange(earlier: Option<EarlierVote>, user_id: i64, now: i128) -> bool {
    match earlier {
        Some(EarlierVote { other, at }) => other == user_id && now - at < RETALIATION_SECS * 1_000_000_000,
        None => false,
    }
}

/// The outcome of a vote, given the history and the cooldown drawn for it.
pub open spec fn vote_outcome(req: VoteRequest, hist: VoteHistory, cooldown_secs: int) -> VoteOutcome {
    if req.author_id == req.user_id && req.is_upvote {
        VoteOutcome::SelfUpvote
    } else if hist.now - hist.last_vote < cooldown_secs * 1_000_000_000 {
        VoteOutcome::TooSoon
    } else if recent_exchange(hist.last_against, req.user_id, hist.now)
        || recent_exchange(hist.last_from, req.user_id, hist.now) {
        VoteOutcome::Retaliation
    } else {
        VoteOutcome::Counted
    }
}

/// Whether the vote is one's own upvote, decided before any history is read.
pub fn is_self_upvote(req: VoteRequest) -> (res: bool)
    ensures
        res == (req.author_id == req.user_id && req.is_upvote),
{
    req.author_id == req.user_id && req.is_upvote
}

/// Whether `t` is an instant the clock library represents.
pub open spec fn on_clock(t: i128) -> bool {
    EARLIEST_NANOS <= t <= LATEST_NANOS
}

/// Whether every instant of the history is one the clock library represents.
pub open spec fn history_on_clock(hist: VoteHistory) -> bool {
    &&& on_clock(hist.now)
    &&& on_clock(hist.last_vote)
    &&& (hist.last_against matches Some(EarlierVote { at, .. }) ==> on_clock(at))
    &&& (hist.last_from matches Some(EarlierVote { at, .. }) ==> on_clock(at))
}

fn exchanged_recently(earlier: Option<EarlierVote>, user_id: i64, now: i128) -> (res: bool)
    requires
        on_clock(now),
        earlier matches Some(EarlierVote { at, .. }) ==> on_clock(at),
    ensures
        res == recent_exchange(earlier, user_id, now),
{
    match earlier {
        Some(EarlierVote { other, at }) => other == user_id && now - at < RETALIATION_SECS as i128 * 1_000_000_000,
        None => false,
    }
}

/// Decides a vote, given its history and the cooldown drawn for it.
pub fn decide_vote(req: VoteRequest, hist: VoteHistory, cooldown_secs: i64) -> (res: VoteOutcome)
    requires
        history_on_clock(hist),
    ensures
        res == vote_outcome(req, hist, cooldown_secs as int),
{
    if req.author_id == req.user_id && req.is_upvote {
        VoteOutcome::SelfUpvote
    } else if hist.now - hist.last_vote < cooldown_secs as i128 * 1_000_000_000 {
        VoteOutcome::TooSoon
    } else if exchanged_recently(hist.last_against, req.user_id, hist.now)
        || exchanged_recently(hist.last_from, req.user_id, hist.now) {
        VoteOutcome::Retaliation
    } else {
        VoteOutcome::Counted
    }
}

/// Draws the cooldown, in seconds, with `rand::Rng::gen_range` over
/// `MIN_COOLDOWN_SECS..=MAX_COOLDOWN_SECS` on the thread's generator: claimed
/// only to lie in that range.
#[verifier::external_body]
fn draw_cooldown() -> (res: i64)
    ensures
        MIN_COOLDOWN_SECS <= res <= MAX_COOLDOWN_SECS,
{
    rand::Rng::gen_range(&mut rand::thread_rng(), MIN_COOLDOWN_SECS..=MAX_COOLDOWN_SECS)
}

/// Decides a vote with a freshly drawn cooldown.
pub fn judge_vote(req: VoteRequest, hist: VoteHistory) -> (res: VoteOutcome)
    requires
        history_on_clock(hist),
    ensures
        exists|c: int| MIN_COOLDOWN_SECS <= c <= MAX_COOLDOWN_SECS && res == vote_outcome(req, hist, c),
{
    let c = draw_cooldown();
    let res = decide_vote(req, hist, c);
    assert(MIN_COOLDOWN_SECS <= c as int <= MAX_COOLDOWN_SECS && res == vote_outcome(req, hist, c as int));
    res
}

/// What the voter is told (`None` for a counted vote).
pub open spec fn outcome_reply(o: VoteOutcome) -> Option<Seq<char>> {
    match o {
        VoteOutcome::SelfUpvote => Some("No."@),
        VoteOutcome::TooSoon => Some("Slow down champ."@),
        VoteOutcome::Retaliation => Some("Really?..."@),
        VoteOutcome::Counted => None,
    }
}

impl VoteOutcome {
    /// The reply to the voter, if any.
    pub fn reply(&self) -> (res: Option<&'static str>)
        ensures
            (match res {
                Some(r) => Some(r@),
                None => None,
            }) == outcome_reply(*self),
    {
        match self {
            VoteOutcome::SelfUpvote => Some("No."),
            VoteOutcome::TooSoon => Some("Slow down champ."),
            VoteOutcome::Retaliation => Some("Really?..."),
            VoteOutcome::Counted => None,
        }
    }
}

/// The vote that is stored: (upvote, voter, user voted on).
pub open spec fn recorded_vote(req: VoteRequest, o: VoteOutcome) -> Option<(bool, i64, i64)> {
    match o {
        VoteOutcome::SelfUpvote => Some((false, req.author_id, req.author_id)),
        VoteOutcome::Counted => Some((req.is_upvote, req.author_id, req.user_id)),
        _ => None,
    }
}

/// The vote to store for an outcome, if any.
pub fn vote_to_record(req: VoteRequest, o: VoteOutcome) -> (res: Option<(bool, i64, i64)>)
    ensures
        res == recorded_vote(req, o),
{
    match o {
        VoteOutcome::SelfUpvote => Some((false, req.author_id, req.author_id)),
        VoteOutcome::Counted => Some((req.is_upvote, req.author_id, req.user_id)),
        _ => None,
    }
}

/// What a vote is worth: one point up or down.
pub open spec fn vote_value(is_upvote: bool) -> int {
    if is_upvote { 1 } else { -1 }
}

/// The change a recorded vote makes to the karma of the user voted on.
pub fn karma_change(is_upvote: bool) -> (res: i32)
    ensures
        res == vote_value(is_upvote),
{
    if is_upvote {
        1
    } else {
        -1
    }
}

/// No one raises their own karma: a vote that is stored with the voter as the
/// user voted on is a downvote.
pub proof fn lemma_no_self_upvote(req: VoteRequest, hist: VoteHistory, c: int)
    ensures
        recorded_vote(req, vote_outcome(req, hist, c)) matches Some((up, voter, votee))
            ==> (voter == votee ==> !up),
{
}

/// A voter cannot vote again within the least cooldown of their last vote
/// (other than upvoting themselves, which is always answered "No.").
pub proof fn lemma_votes_spaced(req: VoteRequest, hist: VoteHistory, c: int)
    requires
        MIN_COOLDOWN_SECS <= c <= MAX_COOLDOWN_SECS,
        hist.now - hist.last_vote < MIN_COOLDOWN_SECS * 1_000_000_000,
        !(req.author_id == req.user_id && req.is_upvote),
    ensures
        vote_outcome(req, hist, c) == VoteOutcome::TooSoon,
        recorded_vote(req, vote_outcome(req, hist, c)) is None,
{
}

/// Within twelve hours of a vote between two users, neither can vote on the
/// other: such a vote is never recorded.
pub proof fn lemma_no_vote_back(req: VoteRequest, hist: VoteHistory, c: int)
    requires
        recent_exchange(hist.last_against, req.user_id, hist.now) || recent_exchange(hist.last_from, req.user_id, hist.now),
        !(req.author_id == req.user_id && req.is_upvote),
    ensures
        recorded_vote(req, vote_outcome(req, hist, c)) is None,
{
}

/// A stored vote: (server, voter, user voted on, upvote).
pub type VoteRow = (int, int, int, bool);

/// The karma the votes give `user` in `guild`: upvotes less downvotes on them.
pub open spec fn karma_from_votes(votes: Seq<VoteRow>, guild: int, user: int) -> int
    decreases votes.len(),
{
    if votes.len() == 0 {
        0
    } else {
        let v = votes.last();
        karma_from_votes(votes.drop_last(), guild, user) + if v.0 == guild && v.2 == user { vote_value(v.3) } else { 0 }
    }
}

/// The karma stored for `user` in `guild` (0 without a row).
pub open spec fn stored_karma(karma: Map<(int, int), int>, guild: int, user: int) -> int {
    if karma.contains_key((guild, user)) { karma[(guild, user)] } else { 0 }
}

/// The karma table after a vote is recorded: the row of the user voted on is
/// added to by the vote's value (made where missing).
pub open spec fn karma_after_vote(karma: Map<(int, int), int>, guild: int, votee: int, is_upvote: bool) -> Map<(int, int), int> {
    karma.insert((guild, votee), stored_karma(karma, guild, votee) + vote_value(is_upvote))
}

/// Whether the karma table agrees with the votes for every user of every server.
pub open spec fn karma_consistent(karma: Map<(int, int), int>, votes: Seq<VoteRow>) -> bool {
    forall|guild: int, user: int| #[trigger] stored_karma(karma, guild, user) == karma_from_votes(votes, guild, user)
}

/// Recording a vote (its row, then its value added to the karma of the user
/// voted on) keeps the karma table in agreement with the votes: that user's
/// karma moves by the vote's value, and no other karma changes.
pub proof fn lemma_recording_keeps_karma(
    karma: Map<(int, int), int>,
    votes: Seq<VoteRow>,
    guild: int,
    voter: int,
    votee: int,
    is_upvote: bool,
)
    requires
        karma_consistent(karma, votes),
    ensures
        karma_consistent(karma_after_vote(karma, guild, votee, is_upvote), votes.push((guild, voter, votee, is_upvote))),
        stored_karma(karma_after_vote(karma, guild, votee, is_upvote), guild, votee) == stored_karma(karma, guild, votee)
            + vote_value(is_upvote),
        forall|g: int, u: int| (g, u) != (guild, votee) ==> stored_karma(karma_after_vote(karma, guild, votee, is_upvote), g, u)
            == #[trigger] stored_karma(karma, g, u),
{
    let after = karma_after_vote(karma, guild, votee, is_upvote);
    let more = votes.push((guild, voter, votee, is_upvote));
    assert(more.drop_last() =~= votes);
    assert forall|g: int, u: int| #[trigger] stored_karma(after, g, u) == karma_from_votes(more, g, u) by {
        assert(stored_karma(karma, g, u) == karma_from_votes(votes, g, u));
    }
}

} // verus!
