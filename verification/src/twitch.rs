//! Twitch: which stream a link names, whether it is live, the access token's
//! lifetime, and the announcement the bot posts.

use vstd::prelude::*;
use crate::pattern::{captures, captures_view, group, group_of, regex_captures};
use crate::text::{english_grouped, grouped_decimal, same_text};

verus! {

/// A stream, as the streams endpoint describes it.
pub struct Stream {
    pub user_name: String,
    pub game_name: String,
    pub title: String,
    /// "live" for a stream that is on the air.
    pub stream_type: String,
    pub viewer_count: u64,
}

/// The streams endpoint's reply.
pub struct StreamsResponse {
    pub data: Vec<Stream>,
}

/// The token endpoint's reply.
pub struct AuthResponse {
    pub access_token: String,
    /// Seconds until the token expires.
    pub expires_in: u64,
}

impl Stream {
    /// A copy of the stream.
    pub fn duplicate(&self) -> (res: Stream)
        ensures
            res.user_name@ == self.user_name@,
            res.game_name@ == self.game_name@,
            res.title@ == self.title@,
            res.stream_type@ == self.stream_type@,
            res.viewer_count == self.viewer_count,
    {
        Stream {
            user_name: self.user_name.clone(),
            game_name: self.game_name.clone(),
            title: self.title.clone(),
            stream_type: self.stream_type.clone(),
            viewer_count: self.viewer_count,
        }
    }
}

/// Whether the reply names exactly one stream, and that one is live.
pub open spec fn has_live_stream(resp: StreamsResponse) -> bool {
    resp.data@.len() == 1 && resp.data@[0].stream_type@ == "live"@
}

impl StreamsResponse {
    /// The stream, where the reply holds exactly one and it is live.
    pub fn live_stream(&self) -> (res: Option<Stream>)
        ensures
            has_live_stream(*self) ==> (res matches Some(s) && s.user_name@ == self.data@[0].user_name@
                && s.game_name@ == self.data@[0].game_name@ && s.title@ == self.data@[0].title@
                && s.stream_type@ == self.data@[0].stream_type@
                && s.viewer_count == self.data@[0].viewer_count),
            !has_live_stream(*self) ==> res is None,
    {
        if self.data.len() == 1 && same_text(self.data[0].stream_type.as_str(), "live") {
            Some(self.data[0].duplicate())
        } else {
            None
        }
    }
}

/// How long a fresh token is kept, in seconds: a minute less than it lives,
/// where it lives longer than a minute, so that it is renewed before it lapses.
pub fn token_lifetime(expires_in: u64) -> (res: u64)
    ensures
        res == if expires_in > 60 { (expires_in - 60) as u64 } else { expires_in },
{
    if expires_in > 60 {
        expires_in - 60
    } else {
        expires_in
    }
}

/// Whether a new token must be asked for: there is none, or it expired before `now`.
pub fn needs_new_token(expires_at: Option<i128>, now: i128) -> (res: bool)
    ensures
        res == match expires_at {
            None => true,
            Some(t) => t < now,
        },
{
    match expires_at {
        None => true,
        Some(t) => t < now,
    }
}

/// The message announcing a live stream.
pub open spec fn announcement_text(user_name: Seq<char>, game_name: Seq<char>, title: Seq<char>, viewers: nat) -> Seq<char> {
    user_name + " playing "@ + game_name + "\n"@ + title + "\n"@ + grouped_decimal(viewers) + " viewers"@
}

/// Writes the announcement of a live stream.
pub fn announcement(stream: &Stream) -> (res: String)
    ensures
        res@ == announcement_text(stream.user_name@, stream.game_name@, stream.title@, stream.viewer_count as nat),
{
    let mut s = stream.user_name.clone();
    s.append(" playing ");
    s.append(stream.game_name.as_str());
    s.append("\n");
    s.append(stream.title.as_str());
    s.append("\n");
    let viewers = english_grouped(stream.viewer_count);
    s.append(viewers.as_str());
    s.append(" viewers");
    s
}

/// Links to a Twitch channel, matched without regard to case; group 2 is the channel.
pub const TWITCH_PATTERN: &'static str = "(?i)https?://(www\\.)?twitch.tv/(\\w+)";

/// The channel a message links to: group 2 of the first link's match.
pub open spec fn linked_channel(content: Seq<char>) -> Option<Seq<char>> {
    match regex_captures(TWITCH_PATTERN@, content) {
        Some(caps) => group(caps, 2),
        None => None,
    }
}

/// The Twitch channel a message links to, if any.
pub fn channel_in(content: &str) -> (res: Option<String>)
    ensures
        (match res {
            Some(c) => Some(c@),
            None => None,
        }) == linked_channel(content@),
{
    match captures(TWITCH_PATTERN, content) {
        Some(caps) => group_of(&caps, 2),
        None => None,
    }
}

} // verus!
