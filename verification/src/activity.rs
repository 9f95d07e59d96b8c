//! How long ago something happened, in words, and the replies of the
//! last-seen, last-played and bot-info commands built on it.

use vstd::prelude::*;
use crate::presence::OnlineState;
use crate::text::{chars_of, decimal, fit_bytes, fit_count, fit_prefix, push_char, u64_decimal};

verus! {

/// Whole seconds in a span of `nanos` nanoseconds, rounded toward zero.
pub open spec fn whole_seconds(nanos: int) -> int {
    if nanos >= 0 { nanos / 1_000_000_000 } else { -((-nanos) / 1_000_000_000) }
}

/// A span in words: under a second; else in seconds below two minutes, in
/// minutes below two hours, in hours below two days, and in days beyond.
pub open spec fn span_text(nanos: int) -> Seq<char> {
    let secs = whole_seconds(nanos);
    if secs < 1 {
        "less than a second"@
    } else if secs < 120 {
        decimal(secs as nat) + " seconds"@
    } else if secs / 60 < 120 {
        decimal((secs / 60) as nat) + " minutes"@
    } else if secs / 3600 < 48 {
        decimal((secs / 3600) as nat) + " hours"@
    } else {
        decimal((secs / 86400) as nat) + " days"@
    }
}

/// A span is written in the largest unit that fits the band it falls in, as the
/// whole number of that unit it holds: from 1 s below 2 min in seconds, below
/// 2 h in whole minutes, below 48 h in whole hours, and from 48 h on in whole
/// days; under a second it is "less than a second".
pub proof fn lemma_span_in_whole_units(nanos: int, count: nat)
    ensures
        whole_seconds(nanos) < 1 ==> span_text(nanos) == "less than a second"@,
        1 <= whole_seconds(nanos) < 120 && count == whole_seconds(nanos) ==> span_text(nanos) == decimal(count)
            + " seconds"@,
        120 <= whole_seconds(nanos) < 7200 && count * 60 <= whole_seconds(nanos) < (count + 1) * 60 ==> span_text(
            nanos,
        ) == decimal(count) + " minutes"@,
        7200 <= whole_seconds(nanos) < 172_800 && count * 3600 <= whole_seconds(nanos) < (count + 1) * 3600
            ==> span_text(nanos) == decimal(count) + " hours"@,
        172_800 <= whole_seconds(nanos) && count * 86400 <= whole_seconds(nanos) < (count + 1) * 86400
            ==> span_text(nanos) == decimal(count) + " days"@,
{
    let secs = whole_seconds(nanos);
    if 120 <= secs {
        assert(secs / 60 >= 2) by (nonlinear_arith)
            requires
                120 <= secs,
        ;
        assert(secs < 7200 <==> secs / 60 < 120) by (nonlinear_arith)
            requires
                120 <= secs,
        ;
        assert(secs < 172_800 <==> secs / 3600 < 48) by (nonlinear_arith)
            requires
                120 <= secs,
        ;
        if count * 60 <= secs < (count + 1) * 60 {
            assert(secs / 60 == count) by (nonlinear_arith)
                requires
                    count * 60 <= secs < (count + 1) * 60,
            ;
        }
        if count * 3600 <= secs < (count + 1) * 3600 {
            assert(secs / 3600 == count) by (nonlinear_arith)
                requires
                    count * 3600 <= secs < (count + 1) * 3600,
            ;
        }
        if count * 86400 <= secs < (count + 1) * 86400 {
            assert(secs / 86400 == count) by (nonlinear_arith)
                requires
                    count * 86400 <= secs < (count + 1) * 86400,
            ;
        }
    }
}

/// Writes a span (of at most a few hundred thousand years) in words.
pub fn span_words(nanos: i128) -> (res: String)
    requires
        -0x1_0000_0000_0000_0000_0000_0000 <= nanos <= 0x1_0000_0000_0000_0000_0000_0000,
    ensures
        res@ == span_text(nanos as int),
{
    if nanos < 1_000_000_000 {
        return "less than a second".to_string();
    }
    let secs: i128 = nanos / 1_000_000_000;
    assert(secs <= 0x1_0000_0000_0000_0000_0000_0000int / 1_000_000_000int);
    let (n, unit): (i128, &str) = if secs < 120 {
        (secs, " seconds")
    } else if secs / 60 < 120 {
        (secs / 60, " minutes")
    } else if secs / 3600 < 48 {
        (secs / 3600, " hours")
    } else {
        (secs / 86400, " days")
    };
    let mut s = u64_decimal(n as u64);
    s.append(unit);
    s
}

/// The last-seen reply.
pub open spec fn last_seen_text(username: Option<Seq<char>>, status: Option<OnlineState>, offline_for: Option<int>) -> Seq<char> {
    if status == Some(OnlineState::Online) || status == Some(OnlineState::DoNotDisturb) {
        match username {
            Some(u) => u + " is currently online"@,
            None => "They're currently online"@,
        }
    } else {
        match offline_for {
            None => match username {
                Some(u) => "I've never seen "@ + u,
                None => "I've never seen them"@,
            },
            Some(n) => match username {
                Some(u) => u + " was last seen "@ + span_text(n) + " ago"@,
                None => "last seen "@ + span_text(n) + " ago"@,
            },
        }
    }
}

/// Whether the last-seen reply is that the user is online now (no need to look
/// up when they were last offline).
pub fn shows_online(status: Option<OnlineState>) -> (res: bool)
    ensures
        res == (status == Some(OnlineState::Online) || status == Some(OnlineState::DoNotDisturb)),
{
    match status {
        Some(OnlineState::Online) | Some(OnlineState::DoNotDisturb) => true,
        _ => false,
    }
}

/// Writes the last-seen reply: `status` is the user's current status where
/// known, `offline_for` how long ago (in nanoseconds) the user was last recorded
/// idle, invisible or offline, where ever.
pub fn last_seen_message(username: Option<&str>, status: Option<OnlineState>, offline_for: Option<i128>) -> (res: String)
    requires
        offline_for matches Some(n) ==> -0x1_0000_0000_0000_0000_0000_0000 <= n <= 0x1_0000_0000_0000_0000_0000_0000,
    ensures
        res@ == last_seen_text(
            match username {
                Some(u) => Some(u@),
                None => None,
            },
            status,
            match offline_for {
                Some(n) => Some(n as int),
                None => None,
            },
        ),
{
    if shows_online(status) {
        return match username {
            Some(u) => {
                let mut s = u.to_string();
                s.append(" is currently online");
                s
            },
            None => "They're currently online".to_string(),
        };
    }
    match offline_for {
        None => match username {
            Some(u) => {
                let mut s = "I've never seen ".to_string();
                s.append(u);
                s
            },
            None => "I've never seen them".to_string(),
        },
        Some(n) => {
            let span = span_words(n);
            let mut s = match username {
                Some(u) => {
                    let mut s = u.to_string();
                    s.append(" was last seen ");
                    s
                },
                None => "last seen ".to_string(),
            };
            s.append(span.as_str());
            s.append(" ago");
            s
        },
    }
}

/// What is known of the last game a user played.
pub enum LastGame {
    /// The last recorded presence shows the user online and playing this game.
    PlayingNow(String),
    /// No game was ever recorded for the user.
    Never,
    /// The user's last game, and whether and how long ago (nanoseconds) they stopped.
    Played { game: String, stopped_for: Option<i128> },
}

/// The game a remembered presence shows the user playing now: one where the
/// user is neither offline nor invisible.
pub open spec fn playing_now(last: Option<(OnlineState, Option<Seq<char>>)>) -> Option<Seq<char>> {
    match last {
        Some((s, Some(g))) => if s != OnlineState::Offline && s != OnlineState::Invisible { Some(g) } else { None },
        _ => None,
    }
}

/// The game a remembered presence shows the user playing now, if any.
pub fn current_game(last: Option<(OnlineState, Option<String>)>) -> (res: Option<String>)
    ensures
        (match res {
            Some(g) => Some(g@),
            None => None,
        }) == playing_now(match last {
            Some((s, g)) => Some((s, match g {
                Some(x) => Some(x@),
                None => None,
            })),
            None => None,
        }),
{
    match last {
        Some((s, Some(g))) => {
            if s != OnlineState::Offline && s != OnlineState::Invisible {
                Some(g)
            } else {
                None
            }
        },
        _ => None,
    }
}

/// The last-played reply.
pub open spec fn last_played_text(username: Option<Seq<char>>, game: Seq<char>, stopped_for: Option<int>) -> Seq<char> {
    match stopped_for {
        None => match username {
            Some(u) => u + " is currently playing "@ + game,
            None => "currently playing "@ + game,
        },
        Some(n) => match username {
            Some(u) => u + " was playing "@ + game + " "@ + span_text(n) + " ago"@,
            None => "was playing "@ + game + " "@ + span_text(n) + " ago"@,
        },
    }
}

/// The reply when no game was ever recorded.
pub open spec fn never_played_text(username: Option<Seq<char>>) -> Seq<char> {
    "I've never seen "@ + match username {
        Some(u) => u,
        None => "them"@,
    } + " play anything"@
}

/// Writes the last-played reply.
pub fn last_played_message(username: Option<&str>, last: &LastGame) -> (res: String)
    requires
        last matches LastGame::Played { stopped_for: Some(n), .. } ==>
            -0x1_0000_0000_0000_0000_0000_0000 <= *n <= 0x1_0000_0000_0000_0000_0000_0000,
    ensures
        res@ == match *last {
            LastGame::PlayingNow(g) => last_played_text(match username {
                Some(u) => Some(u@),
                None => None,
            }, g@, None),
            LastGame::Never => never_played_text(match username {
                Some(u) => Some(u@),
                None => None,
            }),
            LastGame::Played { game, stopped_for } => last_played_text(match username {
                Some(u) => Some(u@),
                None => None,
            }, game@, match stopped_for {
                Some(n) => Some(n as int),
                None => None,
            }),
        },
{
    let (game, stopped_for) = match last {
        LastGame::Never => {
            let mut s = "I've never seen ".to_string();
            match username {
                Some(u) => s.append(u),
                None => s.append("them"),
            }
            s.append(" play anything");
            return s;
        },
        LastGame::PlayingNow(g) => (g, None),
        LastGame::Played { game, stopped_for } => (game, *stopped_for),
    };
    match stopped_for {
        None => {
            let mut s = match username {
                Some(u) => {
                    let mut s = u.to_string();
                    s.append(" is currently playing ");
                    s
                },
                None => "currently playing ".to_string(),
            };
            s.append(game.as_str());
            s
        },
        Some(n) => {
            let span = span_words(n);
            let mut s = match username {
                Some(u) => {
                    let mut s = u.to_string();
                    s.append(" was playing ");
                    s
                },
                None => "was playing ".to_string(),
            };
            s.append(game.as_str());
            s.append(" ");
            s.append(span.as_str());
            s.append(" ago");
            s
        },
    }
}

/// One part of an uptime: the count and its unit, "s" added unless the count is one.
pub open spec fn uptime_part(n: nat, unit: Seq<char>) -> Seq<Seq<char>> {
    if n > 0 {
        seq![decimal(n) + " "@ + unit + if n == 1 { ""@ } else { "s"@ }]
    } else {
        seq![]
    }
}

/// The bot's uptime as lines of weeks, days, hours, minutes and seconds, each
/// line present where its count is not zero.
pub open spec fn uptime_lines(secs: nat) -> Seq<Seq<char>> {
    uptime_part(secs / 604_800, "week"@) + uptime_part((secs % 604_800) / 86_400, "day"@)
        + uptime_part((secs % 86_400) / 3600, "hour"@) + uptime_part((secs % 3600) / 60, "minute"@)
        + uptime_part(secs % 60, "second"@)
}

fn push_part(lines: &mut Vec<String>, n: u64, unit: &str)
    ensures
        final(lines)@.map_values(|l: String| l@) == old(lines)@.map_values(|l: String| l@) + uptime_part(n as nat, unit@),
{
    if n > 0 {
        let mut s = u64_decimal(n);
        s.append(" ");
        s.append(unit);
        if n != 1 {
            s.append("s");
        }
        proof {
            reveal_strlit("");
            assert(s@ == decimal(n as nat) + " "@ + unit@ + if n == 1 { ""@ } else { "s"@ });
        }
        let ghost before = lines@.map_values(|l: String| l@);
        lines.push(s);
        assert(lines@.map_values(|l: String| l@) =~= before + uptime_part(n as nat, unit@));
    } else {
        assert(lines@.map_values(|l: String| l@) =~= lines@.map_values(|l: String| l@) + uptime_part(n as nat, unit@));
    }
}

/// The lines of the bot's uptime, `secs` seconds since it started.
pub fn uptime(secs: u64) -> (res: Vec<String>)
    ensures
        res@.map_values(|l: String| l@) == uptime_lines(secs as nat),
{
    let mut lines: Vec<String> = Vec::new();
    assert(lines@.map_values(|l: String| l@) =~= Seq::<Seq<char>>::empty());
    push_part(&mut lines, secs / 604_800, "week");
    push_part(&mut lines, (secs % 604_800) / 86_400, "day");
    push_part(&mut lines, (secs % 86_400) / 3600, "hour");
    push_part(&mut lines, (secs % 3600) / 60, "minute");
    push_part(&mut lines, secs % 60, "second");
    lines
}

/// The host's uptime as `uptime -p` prints it ("up 1 week, 2 days, ..."): the
/// text after its first three bytes, one part per line.
pub open spec fn host_uptime_text(output: Seq<char>) -> Seq<char> {
    comma_lines(output.skip(fit_count(output, 3) as int))
}

/// `s` with every ", " made a line break.
pub open spec fn comma_lines(s: Seq<char>) -> Seq<char>
    decreases s.len(),
{
    if s.len() >= 2 && s[0] == ',' && s[1] == ' ' {
        seq!['\n'] + comma_lines(s.skip(2))
    } else if s.len() == 0 {
        s
    } else {
        seq![s[0]] + comma_lines(s.drop_first())
    }
}

/// Writes the host's uptime from the output of `uptime -p`, whose first three
/// bytes are whole characters (as "up " is).
pub fn host_uptime(output: &str) -> (res: String)
    requires
        fit_bytes(output@, 3) == 3,
    ensures
        res@ == host_uptime_text(output@),
{
    let v = chars_of(output);
    let (start, _) = fit_prefix(&v, 3);
    let mut res = String::new();
    let mut i: usize = start;
    assert(res@ + comma_lines(v@.skip(i as int)) =~= comma_lines(v@.skip(start as int)));
    while i < v.len()
        invariant
            start <= i <= v.len(),
            v@ == output@,
            start == fit_count(output@, 3),
            res@ + comma_lines(v@.skip(i as int)) == comma_lines(v@.skip(start as int)),
        decreases v.len() - i,
    {
        let ghost rest = v@.skip(i as int);
        if i + 1 < v.len() && v[i] == ',' && v[i + 1] == ' ' {
            assert(rest.skip(2) =~= v@.skip(i + 2));
            push_char(&mut res, '\n');
            i = i + 2;
        } else {
            assert(rest.drop_first() =~= v@.skip(i + 1));
            push_char(&mut res, v[i]);
            i = i + 1;
        }
    }
    assert(v@.skip(i as int).len() == 0);
    res
}

} // verus!
