//! The dice, zalgo and audio commands: what is drawn at random, and what is
//! made of it.

use vstd::prelude::*;
use crate::text::{chars_of, decimal, push_char, u64_decimal};

verus! {

/// The sides of the die: the option's value where given (`None` where it is
/// not a `u32`), else 100.
pub fn die_sides(option: Option<i64>) -> (res: Option<u32>)
    ensures
        match option {
            None => res == Some(100u32),
            Some(s) => if 0 <= s <= u32::MAX { res == Some(s as u32) } else { res is None },
        },
{
    match option {
        None => Some(100),
        Some(s) => if 0 <= s && s <= u32::MAX as i64 {
            Some(s as u32)
        } else {
            None
        },
    }
}

/// Rolls the die with `rand::Rng::gen_range(1..=sides)` on the thread's
/// generator: claimed only to land on a side.
#[verifier::external_body]
fn draw_side(sides: u32) -> (res: u32)
    requires
        sides >= 1,
    ensures
        1 <= res <= sides,
{
    rand::Rng::gen_range(&mut rand::thread_rng(), 1..=sides)
}

/// Rolls a die with `sides` sides.
pub fn roll(sides: u32) -> (res: u32)
    requires
        sides >= 1,
    ensures
        1 <= res <= sides,
{
    draw_side(sides)
}

/// Whether `c` is one of the combining marks zalgo text is made with
/// (U+0300 to U+0369).
pub open spec fn is_zalgo_mark(c: char) -> bool {
    0x300 <= (c as u32) <= 0x369
}

/// Draws a combining mark with `rand::Rng::gen_range(0x300..=0x369)` on the
/// thread's generator and `char::from_u32`: claimed only to be one of them.
#[verifier::external_body]
fn zalgo_mark() -> (res: char)
    ensures
        is_zalgo_mark(res),
{
    match char::from_u32(rand::Rng::gen_range(&mut rand::thread_rng(), 0x300u32..=0x369)) {
        Some(c) => c,
        None => '\u{300}',
    }
}

/// Whether `out` is `input` with two combining marks after each character.
pub open spec fn zalgo_of(input: Seq<char>, out: Seq<char>) -> bool {
    &&& out.len() == 3 * input.len()
    &&& forall|k: int| 0 <= k < input.len() ==> #[trigger] out[3 * k] == input[k]
        && is_zalgo_mark(out[3 * k + 1]) && is_zalgo_mark(out[3 * k + 2])
}

/// Writes the message with two random combining marks after each character.
pub fn zalgo(input: &str) -> (res: String)
    ensures
        zalgo_of(input@, res@),
{
    let v = chars_of(input);
    let mut res = String::new();
    let mut i: usize = 0;
    while i < v.len()
        invariant
            i <= v.len(),
            v@ == input@,
            res@.len() == 3 * i,
            forall|k: int| 0 <= k < i ==> #[trigger] res@[3 * k] == v@[k]
                && is_zalgo_mark(res@[3 * k + 1]) && is_zalgo_mark(res@[3 * k + 2]),
        decreases v.len() - i,
    {
        let ghost before = res@;
        push_char(&mut res, v[i]);
        push_char(&mut res, zalgo_mark());
        push_char(&mut res, zalgo_mark());
        assert forall|k: int| 0 <= k < i + 1 implies #[trigger] res@[3 * k] == v@[k]
            && is_zalgo_mark(res@[3 * k + 1]) && is_zalgo_mark(res@[3 * k + 2]) by {
            if k < i {
                assert(res@[3 * k] == before[3 * k]);
                assert(res@[3 * k + 1] == before[3 * k + 1]);
                assert(res@[3 * k + 2] == before[3 * k + 2]);
            }
        }
        i = i + 1;
    }
    res
}

/// The number of the last audio clip (clips are numbered from 0).
pub const LAST_CLIP: u32 = 76;

/// The file of clip `n`.
pub open spec fn clip_path(n: nat) -> Seq<char> {
    "suh/suh"@ + decimal(n) + ".mp3"@
}

/// The file of clip `n`.
pub fn clip_file(n: u32) -> (res: String)
    ensures
        res@ == clip_path(n as nat),
{
    let mut s = "suh/suh".to_string();
    let d = u64_decimal(n as u64);
    s.append(d.as_str());
    s.append(".mp3");
    s
}

/// Draws a clip number with `rand::Rng::gen_range(0..=LAST_CLIP)` on the
/// thread's generator: claimed only to be a clip's number.
#[verifier::external_body]
fn draw_clip() -> (res: u32)
    ensures
        res <= LAST_CLIP,
{
    rand::Rng::gen_range(&mut rand::thread_rng(), 0..=LAST_CLIP)
}

/// The file of a clip drawn at random.
pub fn random_clip() -> (res: String)
    ensures
        exists|n: nat| n <= LAST_CLIP && res@ == clip_path(n),
{
    let n = draw_clip();
    let res = clip_file(n);
    assert(n as nat <= LAST_CLIP && res@ == clip_path(n as nat));
    res
}

/// What the player reports when it is polled during playback.
pub enum PlaybackReport {
    /// The report did not come within a second (the bot was likely kicked).
    TimedOut,
    /// The track's state: whether it has stopped or ended.
    State { done: bool },
    /// The track is already finished.
    Finished,
    /// Another error, as text.
    Failed(String),
}

/// What comes of a playback poll.
pub enum PlaybackStep {
    /// Keep playing and poll again in a second.
    KeepPlaying,
    /// Playback is over.
    Done,
    /// Playback went wrong.
    Error(String),
}

/// Decides what a playback poll comes to.
pub fn playback_step(report: PlaybackReport) -> (res: PlaybackStep)
    ensures
        match report {
            PlaybackReport::TimedOut => res is Done,
            PlaybackReport::State { done } => if done { res is Done } else { res is KeepPlaying },
            PlaybackReport::Finished => res is Done,
            PlaybackReport::Failed(e) => res matches PlaybackStep::Error(m)
                && m@ == "Unexpected error during playback: "@ + e@,
        },
{
    match report {
        PlaybackReport::TimedOut => PlaybackStep::Done,
        PlaybackReport::State { done } => if done {
            PlaybackStep::Done
        } else {
            PlaybackStep::KeepPlaying
        },
        PlaybackReport::Finished => PlaybackStep::Done,
        PlaybackReport::Failed(e) => {
            let mut m = "Unexpected error during playback: ".to_string();
            m.append(e.as_str());
            PlaybackStep::Error(m)
        },
    }
}

/// Whether the bot leaves the voice channel: only when no other request is
/// waiting to play in this server.
pub fn leave_voice(waiting: i16) -> (res: bool)
    ensures
        res == (waiting < 1),
{
    waiting < 1
}

} // verus!
