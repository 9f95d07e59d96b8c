//! Play time per game, summed from the presence log.
//!
//! The presence log holds, for each user, the moments at which the user started
//! or stopped playing a game. Walking it in time order gives, for each game, how
//! long it has been played; users still playing are counted up to the end of the
//! window. Times are in nanoseconds since the Unix epoch.

use vstd::prelude::*;
use crate::text::{byte_len, lemma_signed_decimal_reads_back, lemma_split_append_plain, lemma_split_push_sep, same_text, count_char, count_occurrences, decimal, i64_decimal, parse_i32, parse_int, signed_decimal, split_chars, split_on, u64_decimal};

verus! {

broadcast use vstd::seq_lib::group_to_multiset_ensures;

/// Entries shown per page of a play time listing.
pub const OFFSET_INC: u16 = 15;

/// Longest span the time library's durations can hold: `i64::MAX` milliseconds, in nanoseconds.
pub const MAX_SPAN_NANOS: i128 = 9_223_372_036_854_775_807_000_000;

/// Bound on timestamps (nanoseconds): a timestamp's whole seconds fit in an `i64`.
pub const TIMESTAMP_LIMIT_NANOS: i128 = 9_223_372_036_854_775_807_000_000_000;

/// Nanoseconds in one day.
pub const NANOS_PER_DAY: i128 = 86_400_000_000_000;

/// One row of the presence log: when, whose, and the game played from then on (if any).
pub struct PresenceRow {
    pub date: i128,
    pub user_id: i64,
    pub game: Option<String>,
}

/// The characters of an optional string.
pub open spec fn opt_chars(g: Option<String>) -> Option<Seq<char>> {
    match g {
        Some(s) => Some(s@),
        None => None,
    }
}

impl View for PresenceRow {
    type V = (int, int, Option<Seq<char>>);

    open spec fn view(&self) -> (int, int, Option<Seq<char>>) {
        (self.date as int, self.user_id as int, opt_chars(self.game))
    }
}

/// Total time spent on one game (nanoseconds).
pub struct GameTime {
    pub game: String,
    pub span: i128,
}

impl View for GameTime {
    type V = (Seq<char>, int);

    open spec fn view(&self) -> (Seq<char>, int) {
        (self.game@, self.span as int)
    }
}

impl GameTime {
    /// Whole seconds of the span (the span is never negative).
    pub fn seconds(&self) -> (secs: i128)
        requires
            self.span >= 0,
        ensures
            secs == self.span / 1_000_000_000,
    {
        self.span / 1_000_000_000
    }
}

/// The rows of the log as plain values.
pub open spec fn rows_view(rows: Seq<PresenceRow>) -> Seq<(int, int, Option<Seq<char>>)> {
    rows.map_values(|r: PresenceRow| r@)
}

/// The entries of a list of game times as plain values.
pub open spec fn times_view(v: Seq<GameTime>) -> Seq<(Seq<char>, int)> {
    v.map_values(|g: GameTime| g@)
}

/// What each user is playing: (user, since, game).
pub open spec fn playing_view(v: Seq<(i64, i128, String)>) -> Seq<(int, int, Seq<char>)> {
    v.map_values(|p: (i64, i128, String)| (p.0 as int, p.1 as int, p.2@))
}

/// The first index at which `key` occurs in `keys`, or -1.
pub open spec fn first_slot<K>(keys: Seq<K>, key: K) -> int
    decreases keys.len(),
{
    if keys.len() == 0 {
        -1
    } else {
        let i = first_slot(keys.drop_last(), key);
        if i >= 0 {
            i
        } else if keys.last() == key {
            keys.len() - 1
        } else {
            -1
        }
    }
}

/// The slot of `user` among the users now playing, or -1.
pub open spec fn user_slot(playing: Seq<(int, int, Seq<char>)>, user: int) -> int {
    first_slot(playing.map_values(|p: (int, int, Seq<char>)| p.0), user)
}

/// The slot of `game` in a list of game times, or -1.
pub open spec fn game_slot(times: Seq<(Seq<char>, int)>, game: Seq<char>) -> int {
    first_slot(times.map_values(|t: (Seq<char>, int)| t.0), game)
}

/// Adds `span` to the time of `game`, listing the game last when it is new.
pub open spec fn add_time(times: Seq<(Seq<char>, int)>, game: Seq<char>, span: int) -> Seq<(Seq<char>, int)> {
    let i = game_slot(times, game);
    if i >= 0 {
        times.update(i, (game, times[i].1 + span))
    } else {
        times.push((game, span))
    }
}

/// One row of the log: a user who stops playing (or switches game) has the time
/// since they started added to the game they played.
pub open spec fn tally_step(
    state: (Seq<(int, int, Seq<char>)>, Seq<(Seq<char>, int)>),
    row: (int, int, Option<Seq<char>>),
) -> (Seq<(int, int, Seq<char>)>, Seq<(Seq<char>, int)>) {
    let (playing, times) = state;
    let (date, user, game) = row;
    let i = user_slot(playing, user);
    if i < 0 {
        match game {
            Some(g) => (playing.push((user, date, g)), times),
            None => state,
        }
    } else if game == Some(playing[i].2) {
        state
    } else {
        let times2 = add_time(times, playing[i].2, date - playing[i].1);
        match game {
            Some(g) => (playing.update(i, (user, date, g)), times2),
            None => (playing.remove(i), times2),
        }
    }
}

/// The state after the rows, in order.
pub open spec fn tally(rows: Seq<(int, int, Option<Seq<char>>)>) -> (
    Seq<(int, int, Seq<char>)>,
    Seq<(Seq<char>, int)>,
)
    decreases rows.len(),
{
    if rows.len() == 0 {
        (seq![], seq![])
    } else {
        tally_step(tally(rows.drop_last()), rows.last())
    }
}

/// Users still playing at `end` are counted up to `end`.
pub open spec fn close_out(
    playing: Seq<(int, int, Seq<char>)>,
    times: Seq<(Seq<char>, int)>,
    end: int,
) -> Seq<(Seq<char>, int)>
    decreases playing.len(),
{
    if playing.len() == 0 {
        times
    } else {
        add_time(
            close_out(playing.drop_last(), times, end),
            playing.last().2,
            end - playing.last().1,
        )
    }
}

/// Time played per game over the rows, counted up to `end`.
pub open spec fn game_totals(rows: Seq<(int, int, Option<Seq<char>>)>, end: int) -> Seq<(Seq<char>, int)> {
    close_out(tally(rows).0, tally(rows).1, end)
}

/// The sum of the times in a list.
pub open spec fn sum_times(times: Seq<(Seq<char>, int)>) -> int
    decreases times.len(),
{
    if times.len() == 0 {
        0
    } else {
        sum_times(times.drop_last()) + times.last().1
    }
}

/// Every time in the list fits in a duration.
pub open spec fn within_span(times: Seq<(Seq<char>, int)>) -> bool {
    forall|i: int| 0 <= i < times.len() ==> #[trigger] times[i].1 <= MAX_SPAN_NANOS
}

/// No per-game time exceeds the longest duration at any point of the walk (the
/// time library stops the program when a sum of durations exceeds it).
pub open spec fn spans_fit(rows: Seq<(int, int, Option<Seq<char>>)>, end: int) -> bool {
    &&& forall|k: int| 0 <= k <= rows.len() ==> within_span(#[trigger] tally(rows.take(k)).1)
    &&& forall|k: int|
        0 <= k <= tally(rows).0.len() ==> within_span(
            #[trigger] close_out(tally(rows).0.take(k), tally(rows).1, end),
        )
}

/// Rows are in time order, within the timestamp range, and none is after `end`.
pub open spec fn log_in_order(rows: Seq<(int, int, Option<Seq<char>>)>, end: int) -> bool {
    &&& forall|i: int, j: int| 0 <= i <= j < rows.len() ==> rows[i].0 <= rows[j].0
    &&& forall|i: int| 0 <= i < rows.len() ==> -TIMESTAMP_LIMIT_NANOS <= #[trigger] rows[i].0 <= end
    &&& end <= TIMESTAMP_LIMIT_NANOS
}

proof fn lemma_first_slot<K>(keys: Seq<K>, key: K)
    ensures
        -1 <= first_slot(keys, key) < keys.len(),
        first_slot(keys, key) >= 0 ==> keys[first_slot(keys, key)] == key,
        forall|j: int| 0 <= j < first_slot(keys, key) ==> keys[j] != key,
        first_slot(keys, key) == -1 ==> forall|j: int| 0 <= j < keys.len() ==> keys[j] != key,
    decreases keys.len(),
{
    if keys.len() > 0 {
        let init = keys.drop_last();
        lemma_first_slot(init, key);
        assert forall|j: int| 0 <= j < init.len() implies init[j] == keys[j] by {}
    }
}

/// Finds the first index `i` with `keys[i] == key` given a scan that saw none before `i`.
proof fn lemma_first_slot_found<K>(keys: Seq<K>, key: K, i: int)
    requires
        0 <= i < keys.len(),
        keys[i] == key,
        forall|j: int| 0 <= j < i ==> keys[j] != key,
    ensures
        first_slot(keys, key) == i,
{
    lemma_first_slot(keys, key);
}

/// The index of `user` in `playing`, if any.
fn find_user(playing: &Vec<(i64, i128, String)>, user: i64) -> (r: Option<usize>)
    ensures
        match r {
            Some(i) => i < playing@.len() && i as int == user_slot(playing_view(playing@), user as int),
            None => user_slot(playing_view(playing@), user as int) == -1,
        },
{
    let ghost keys = playing_view(playing@).map_values(|p: (int, int, Seq<char>)| p.0);
    let mut i: usize = 0;
    while i < playing.len()
        invariant
            i <= playing.len(),
            keys == playing_view(playing@).map_values(|p: (int, int, Seq<char>)| p.0),
            keys.len() == playing.len(),
            forall|j: int| 0 <= j < i ==> keys[j] != user as int,
        decreases playing.len() - i,
    {
        if playing[i].0 == user {
            proof {
                lemma_first_slot_found(keys, user as int, i as int);
            }
            return Some(i);
        }
        i = i + 1;
    }
    proof {
        lemma_first_slot(keys, user as int);
    }
    None
}

/// The index of `game` in `times`, if any.
fn find_game(times: &Vec<GameTime>, game: &String) -> (r: Option<usize>)
    ensures
        match r {
            Some(i) => i < times@.len() && i as int == game_slot(times_view(times@), game@),
            None => game_slot(times_view(times@), game@) == -1,
        },
{
    let ghost keys = times_view(times@).map_values(|t: (Seq<char>, int)| t.0);
    let mut i: usize = 0;
    while i < times.len()
        invariant
            i <= times.len(),
            keys == times_view(times@).map_values(|t: (Seq<char>, int)| t.0),
            keys.len() == times.len(),
            forall|j: int| 0 <= j < i ==> keys[j] != game@,
        decreases times.len() - i,
    {
        if times[i].game == *game {
            proof {
                lemma_first_slot_found(keys, game@, i as int);
            }
            return Some(i);
        }
        i = i + 1;
    }
    proof {
        lemma_first_slot(keys, game@);
    }
    None
}

/// Every entry of the list is at least zero.
pub open spec fn nonnegative(times: Seq<(Seq<char>, int)>) -> bool {
    forall|i: int| 0 <= i < times.len() ==> #[trigger] times[i].1 >= 0
}

proof fn lemma_add_time_bounds(times: Seq<(Seq<char>, int)>, game: Seq<char>, span: int)
    requires
        nonnegative(times),
        span >= 0,
    ensures
        nonnegative(add_time(times, game, span)),
        game_slot(times, game) >= 0 ==> add_time(times, game, span)[game_slot(times, game)].1 == times[game_slot(times, game)].1 + span,
        game_slot(times, game) < 0 ==> add_time(times, game, span).last().1 == span,
{
    lemma_first_slot(times.map_values(|t: (Seq<char>, int)| t.0), game);
}

/// Adds `span` to `game` in place.
fn add_span(times: &mut Vec<GameTime>, game: &String, span: i128)
    requires
        within_span(add_time(times_view(old(times)@), game@, span as int)),
        nonnegative(times_view(old(times)@)),
        0 <= span,
    ensures
        times_view(final(times)@) == add_time(times_view(old(times)@), game@, span as int),
        nonnegative(times_view(final(times)@)),
{
    let ghost before = times_view(times@);
    proof {
        lemma_first_slot(before.map_values(|t: (Seq<char>, int)| t.0), game@);
        lemma_add_time_bounds(before, game@, span as int);
    }
    match find_game(times, game) {
        Some(i) => {
            assert(add_time(before, game@, span as int)[i as int].1 == before[i as int].1 + span);
            assert(before[i as int].1 >= 0);
            let total = times[i].span + span;
            let g = times[i].game.clone();
            times.set(i, GameTime { game: g, span: total });
            assert(times_view(times@) =~= add_time(before, game@, span as int));
        },
        None => {
            times.push(GameTime { game: game.clone(), span });
            assert(times_view(times@) =~= add_time(before, game@, span as int));
        },
    }
}


/// The state of the walk after the rows, computed in place.
fn tally_rows(rows: &[PresenceRow], end: i128) -> (res: (Vec<(i64, i128, String)>, Vec<GameTime>))
    requires
        log_in_order(rows_view(rows@), end as int),
        spans_fit(rows_view(rows@), end as int),
    ensures
        playing_view(res.0@) == tally(rows_view(rows@)).0,
        times_view(res.1@) == tally(rows_view(rows@)).1,
        nonnegative(times_view(res.1@)),
        forall|k: int|
            0 <= k < res.0@.len() ==> -TIMESTAMP_LIMIT_NANOS <= #[trigger] res.0@[k].1 <= end,
{
    let ghost rv = rows_view(rows@);
    let mut playing: Vec<(i64, i128, String)> = Vec::new();
    let mut times: Vec<GameTime> = Vec::new();
    let mut i: usize = 0;
    proof {
        assert(rv.take(0) =~= Seq::<(int, int, Option<Seq<char>>)>::empty());
        assert(playing_view(playing@) =~= Seq::<(int, int, Seq<char>)>::empty());
        assert(times_view(times@) =~= Seq::<(Seq<char>, int)>::empty());
    }
    while i < rows.len()
        invariant
            rv == rows_view(rows@),
            rv.len() == rows@.len(),
            log_in_order(rv, end as int),
            spans_fit(rv, end as int),
            i <= rows.len(),
            playing_view(playing@) == tally(rv.take(i as int)).0,
            times_view(times@) == tally(rv.take(i as int)).1,
            nonnegative(times_view(times@)),
            forall|k: int|
                0 <= k < playing@.len() ==> -TIMESTAMP_LIMIT_NANOS <= #[trigger] playing@[k].1 <= end,
            forall|k: int|
                0 <= k < playing@.len() && i < rows@.len() ==> #[trigger] playing@[k].1 <= rv[i as int].0,
        decreases rows.len() - i,
    {
        let ghost before = (playing_view(playing@), times_view(times@));
        let ghost row = rv[i as int];
        proof {
            assert(rv.take(i + 1).drop_last() =~= rv.take(i as int));
            assert(rv.take(i + 1).last() == row);
            assert(tally(rv.take(i + 1)) == tally_step(before, row));
            assert(within_span(tally(rv.take(i + 1)).1));
            assert(row == rows@[i as int]@);
        }
        let date = rows[i].date;
        let user = rows[i].user_id;
        match find_user(&playing, user) {
            None => {
                match &rows[i].game {
                    Some(g) => {
                        playing.push((user, date, g.clone()));
                        assert(playing_view(playing@) =~= before.0.push((user as int, date as int, g@)));
                    },
                    None => {},
                }
            },
            Some(k) => {
                let same = match &rows[i].game {
                    Some(g) => *g == playing[k].2,
                    None => false,
                };
                assert(before.0[k as int] == (playing@[k as int].0 as int, playing@[k as int].1 as int, playing@[k as int].2@));
                if !same {
                    let last_game = playing[k].2.clone();
                    let span = date - playing[k].1;
                    add_span(&mut times, &last_game, span);
                    match &rows[i].game {
                        Some(g) => {
                            playing.set(k, (user, date, g.clone()));
                            assert(playing_view(playing@) =~= before.0.update(k as int, (user as int, date as int, g@)));
                        },
                        None => {
                            playing.remove(k);
                            assert(playing_view(playing@) =~= before.0.remove(k as int));
                        },
                    }
                }
            },
        }
        i = i + 1;
    }
    proof {
        assert(rv.take(rv.len() as int) =~= rv);
    }
    (playing, times)
}


/// Game times after counting still-playing users up to `end`.
fn close_out_playing(playing: &Vec<(i64, i128, String)>, times: Vec<GameTime>, end: i128, Ghost(rows): Ghost<Seq<(int, int, Option<Seq<char>>)>>) -> (res: Vec<GameTime>)
    requires
        spans_fit(rows, end as int),
        playing_view(playing@) == tally(rows).0,
        times_view(times@) == tally(rows).1,
        nonnegative(times_view(times@)),
        forall|k: int|
            0 <= k < playing@.len() ==> -TIMESTAMP_LIMIT_NANOS <= #[trigger] playing@[k].1 <= end,
        end <= TIMESTAMP_LIMIT_NANOS,
    ensures
        times_view(res@) == game_totals(rows, end as int),
        nonnegative(times_view(res@)),
        within_span(times_view(res@)),
{
    let ghost pv = playing_view(playing@);
    let ghost t0 = times_view(times@);
    let mut times = times;
    let mut j: usize = 0;
    proof {
        assert(pv.take(0) =~= Seq::<(int, int, Seq<char>)>::empty());
    }
    while j < playing.len()
        invariant
            pv == playing_view(playing@),
            pv.len() == playing@.len(),
            pv == tally(rows).0,
            t0 == tally(rows).1,
            spans_fit(rows, end as int),
            j <= playing.len(),
            times_view(times@) == close_out(pv.take(j as int), t0, end as int),
            nonnegative(times_view(times@)),
            forall|k: int|
                0 <= k < playing@.len() ==> -TIMESTAMP_LIMIT_NANOS <= #[trigger] playing@[k].1 <= end,
            end <= TIMESTAMP_LIMIT_NANOS,
        decreases playing.len() - j,
    {
        proof {
            assert(pv.take(j + 1).drop_last() =~= pv.take(j as int));
            assert(pv.take(j + 1).last() == pv[j as int]);
            assert(within_span(close_out(pv.take(j + 1), t0, end as int)));
        }
        let span = end - playing[j].1;
        add_span(&mut times, &playing[j].2, span);
        j = j + 1;
    }
    proof {
        assert(pv.take(pv.len() as int) =~= pv);
        assert(within_span(close_out(pv.take(pv.len() as int), t0, end as int)));
    }
    times
}

proof fn lemma_sum_nonnegative(times: Seq<(Seq<char>, int)>)
    requires
        nonnegative(times),
    ensures
        sum_times(times) >= 0,
    decreases times.len(),
{
    if times.len() > 0 {
        assert(times.last().1 >= 0);
        lemma_sum_nonnegative(times.drop_last());
    }
}

proof fn lemma_sum_prefix(times: Seq<(Seq<char>, int)>, k: int)
    requires
        nonnegative(times),
        0 <= k <= times.len(),
    ensures
        sum_times(times.take(k)) <= sum_times(times),
        sum_times(times.take(k)) >= 0,
    decreases times.len(),
{
    lemma_sum_nonnegative(times.take(k));
    if k < times.len() {
        lemma_sum_prefix(times.drop_last(), k);
        assert(times.drop_last().take(k) =~= times.take(k));
        assert(times.last().1 >= 0);
    } else {
        assert(times.take(k) =~= times);
    }
}

/// The sum of the times, or `None` when a partial sum exceeds the longest duration.
fn total_span(times: &Vec<GameTime>) -> (res: Option<i128>)
    requires
        nonnegative(times_view(times@)),
        within_span(times_view(times@)),
    ensures
        match res {
            Some(t) => t as int == sum_times(times_view(times@)) && t <= MAX_SPAN_NANOS,
            None => sum_times(times_view(times@)) > MAX_SPAN_NANOS,
        },
{
    let ghost tv = times_view(times@);
    let mut total: i128 = 0;
    let mut i: usize = 0;
    proof {
        assert(tv.take(0) =~= Seq::<(Seq<char>, int)>::empty());
    }
    while i < times.len()
        invariant
            tv == times_view(times@),
            tv.len() == times@.len(),
            nonnegative(tv),
            within_span(tv),
            i <= times.len(),
            total as int == sum_times(tv.take(i as int)),
            0 <= total <= MAX_SPAN_NANOS,
        decreases times.len() - i,
    {
        proof {
            assert(tv.take(i + 1).drop_last() =~= tv.take(i as int));
            assert(tv[i as int].1 == times@[i as int].span);
            assert(tv[i as int].1 <= MAX_SPAN_NANOS && tv[i as int].1 >= 0);
        }
        let t = times[i].span;
        if total > MAX_SPAN_NANOS - t {
            proof {
                lemma_sum_prefix(tv, i + 1);
            }
            return None;
        }
        total = total + t;
        i = i + 1;
    }
    proof {
        assert(tv.take(tv.len() as int) =~= tv);
    }
    Some(total)
}

/// Every time in the list is at least the time after it.
pub open spec fn sorted_desc(times: Seq<(Seq<char>, int)>) -> bool {
    forall|i: int, j: int| 0 <= i < j < times.len() ==> times[i].1 >= times[j].1
}

proof fn lemma_insert_multiset<A>(s: Seq<A>, i: int, x: A)
    requires
        0 <= i <= s.len(),
    ensures
        s.insert(i, x).to_multiset() =~= s.to_multiset().insert(x),
{
    broadcast use vstd::multiset::group_multiset_axioms;
    let t = s.insert(i, x);
    assert(t.remove(i) =~= s);
    assert(t[i] == x);
    assert(t.to_multiset().count(x) > 0);
}

/// The times ordered from longest to shortest; equal times keep their order.
fn sort_by_span_desc(v: Vec<GameTime>) -> (res: Vec<GameTime>)
    ensures
        sorted_desc(times_view(res@)),
        times_view(res@).to_multiset() =~= times_view(v@).to_multiset(),
{
    broadcast use vstd::multiset::group_multiset_axioms;
    let ghost orig = times_view(v@);
    let mut rest = v;
    let mut res: Vec<GameTime> = Vec::new();
    proof {
        assert(times_view(res@) =~= Seq::<(Seq<char>, int)>::empty());
    }
    while rest.len() > 0
        invariant
            sorted_desc(times_view(res@)),
            times_view(res@).to_multiset().add(times_view(rest@).to_multiset()) =~= orig.to_multiset(),
        decreases rest.len(),
    {
        let ghost rest_before = times_view(rest@);
        let ghost res_before = times_view(res@);
        let x = rest.remove(0);
        proof {
            assert(times_view(rest@) =~= rest_before.remove(0));
            assert(rest_before[0] == x@);
        }
        let mut p: usize = 0;
        while p < res.len() && res[p].span >= x.span
            invariant
                p <= res@.len(),
                res_before == times_view(res@),
                forall|j: int| 0 <= j < p ==> #[trigger] res_before[j].1 >= x.span,
            decreases res.len() - p,
        {
            p = p + 1;
        }
        res.insert(p, x);
        proof {
            assert(times_view(res@) =~= res_before.insert(p as int, x@));
            lemma_insert_multiset(res_before, p as int, x@);
            let r = times_view(res@);
            assert forall|i: int, j: int| 0 <= i < j < r.len() implies r[i].1 >= r[j].1 by {
                if j < p {
                } else if j == p {
                } else if i < p {
                    assert(res_before[i].1 >= x.span);
                    assert(r[j] == res_before[j - 1]);
                    if p < res_before.len() {
                        assert(res_before[p as int].1 < x.span);
                        assert(res_before[p as int].1 >= res_before[j - 1].1);
                    }
                } else if i == p {
                    assert(res_before[p as int].1 < x.span);
                    assert(res_before[p as int].1 >= res_before[j - 1].1 || p as int == j - 1);
                } else {
                    assert(r[i] == res_before[i - 1]);
                }
            }
        }
    }
    res
}


/// No two entries of a list of game times name the same game.
pub open spec fn distinct_games(times: Seq<(Seq<char>, int)>) -> bool {
    forall|i: int, j: int| 0 <= i < j < times.len() ==> times[i].0 != times[j].0
}

/// The time listed for `game`: the sum of the times of every entry that names it.
pub open spec fn time_listed(times: Seq<(Seq<char>, int)>, game: Seq<char>) -> int
    decreases times.len(),
{
    if times.len() == 0 {
        0
    } else {
        time_listed(times.drop_last(), game) + if times.last().0 == game { times.last().1 } else { 0 }
    }
}

/// The game `user` played from their last row of the log on: `None` where the
/// user has no row, else the game of that last row (itself `None` for a row
/// that says they stopped).
pub open spec fn last_game_of(rows: Seq<(int, int, Option<Seq<char>>)>, user: int) -> Option<Option<Seq<char>>>
    decreases rows.len(),
{
    if rows.len() == 0 {
        None
    } else if rows.last().1 == user {
        Some(rows.last().2)
    } else {
        last_game_of(rows.drop_last(), user)
    }
}

/// Whether `user` is among those playing.
pub open spec fn plays(playing: Seq<(int, int, Seq<char>)>, user: int) -> bool {
    exists|j: int| 0 <= j < playing.len() && playing[j].0 == user
}

/// Whether no user appears twice among those playing.
pub open spec fn distinct_players(playing: Seq<(int, int, Seq<char>)>) -> bool {
    forall|i: int, j: int| 0 <= i < j < playing.len() ==> playing[i].0 != playing[j].0
}

proof fn lemma_user_slot(playing: Seq<(int, int, Seq<char>)>, user: int)
    ensures
        user_slot(playing, user) >= 0 <==> plays(playing, user),
        user_slot(playing, user) >= 0 ==> user_slot(playing, user) < playing.len() && playing[user_slot(playing, user)].0
            == user,
{
    let keys = playing.map_values(|p: (int, int, Seq<char>)| p.0);
    lemma_first_slot(keys, user);
    if plays(playing, user) {
        let j = choose|j: int| 0 <= j < playing.len() && playing[j].0 == user;
        assert(keys[j] == user);
    }
}

proof fn lemma_add_time_distinct(times: Seq<(Seq<char>, int)>, game: Seq<char>, span: int)
    requires
        distinct_games(times),
    ensures
        distinct_games(add_time(times, game, span)),
{
    let keys = times.map_values(|t: (Seq<char>, int)| t.0);
    lemma_first_slot(keys, game);
    let r = add_time(times, game, span);
    if game_slot(times, game) < 0 {
        assert forall|i: int, j: int| 0 <= i < j < r.len() implies r[i].0 != r[j].0 by {
            if j == times.len() {
                assert(keys[i] != game);
            }
        }
    }
}

proof fn lemma_tally_distinct(rows: Seq<(int, int, Option<Seq<char>>)>)
    ensures
        distinct_games(tally(rows).1),
    decreases rows.len(),
{
    if rows.len() > 0 {
        lemma_tally_distinct(rows.drop_last());
        let (playing, times) = tally(rows.drop_last());
        let (date, user, game) = rows.last();
        let i = user_slot(playing, user);
        if i >= 0 && game != Some(playing[i].2) {
            lemma_add_time_distinct(times, playing[i].2, date - playing[i].1);
        }
    }
}

proof fn lemma_close_out_distinct(playing: Seq<(int, int, Seq<char>)>, times: Seq<(Seq<char>, int)>, end: int)
    requires
        distinct_games(times),
    ensures
        distinct_games(close_out(playing, times, end)),
    decreases playing.len(),
{
    if playing.len() > 0 {
        lemma_close_out_distinct(playing.drop_last(), times, end);
        lemma_add_time_distinct(close_out(playing.drop_last(), times, end), playing.last().2, end - playing.last().1);
    }
}

/// A play time listing names each game once: all the time of a game, over all
/// its sessions and players, is gathered into one entry.
pub proof fn lemma_games_listed_once(rows: Seq<(int, int, Option<Seq<char>>)>, end: int)
    ensures
        distinct_games(game_totals(rows, end)),
{
    lemma_tally_distinct(rows);
    lemma_close_out_distinct(tally(rows).0, tally(rows).1, end);
}

proof fn lemma_time_listed_update(times: Seq<(Seq<char>, int)>, i: int, span: int, game: Seq<char>)
    requires
        0 <= i < times.len(),
    ensures
        time_listed(times.update(i, (times[i].0, times[i].1 + span)), game) == time_listed(times, game) + if times[i].0
            == game { span } else { 0 },
    decreases times.len(),
{
    let u = times.update(i, (times[i].0, times[i].1 + span));
    if i < times.len() - 1 {
        assert(u.drop_last() =~= times.drop_last().update(i, (times[i].0, times[i].1 + span)));
        lemma_time_listed_update(times.drop_last(), i, span, game);
    } else {
        assert(u.drop_last() =~= times.drop_last());
    }
}

proof fn lemma_time_listed_add(times: Seq<(Seq<char>, int)>, game: Seq<char>, span: int, other: Seq<char>)
    ensures
        time_listed(add_time(times, game, span), other) == time_listed(times, other) + if game == other { span } else { 0 },
{
    let keys = times.map_values(|t: (Seq<char>, int)| t.0);
    lemma_first_slot(keys, game);
    let i = game_slot(times, game);
    if i >= 0 {
        assert(times[i].0 == game);
        lemma_time_listed_update(times, i, span, other);
    } else {
        assert(times.push((game, span)).drop_last() =~= times);
    }
}

proof fn lemma_close_out_adds(
    playing: Seq<(int, int, Seq<char>)>,
    times: Seq<(Seq<char>, int)>,
    end: int,
    game: Seq<char>,
    span: int,
    other: Seq<char>,
)
    ensures
        time_listed(close_out(playing, add_time(times, game, span), end), other) == time_listed(
            close_out(playing, times, end),
            other,
        ) + if game == other { span } else { 0 },
    decreases playing.len(),
{
    if playing.len() == 0 {
        lemma_time_listed_add(times, game, span, other);
    } else {
        lemma_close_out_adds(playing.drop_last(), times, end, game, span, other);
        lemma_time_listed_add(
            close_out(playing.drop_last(), add_time(times, game, span), end),
            playing.last().2,
            end - playing.last().1,
            other,
        );
        lemma_time_listed_add(close_out(playing.drop_last(), times, end), playing.last().2, end - playing.last().1, other);
    }
}

/// Who is playing after the rows is exactly who started a game in their last
/// row, and no one is counted twice.
proof fn lemma_playing_follows_log(rows: Seq<(int, int, Option<Seq<char>>)>, user: int)
    ensures
        distinct_players(tally(rows).0),
        plays(tally(rows).0, user) <==> last_game_of(rows, user) matches Some(Some(_)),
    decreases rows.len(),
{
    if rows.len() > 0 {
        let init = rows.drop_last();
        lemma_playing_follows_log(init, user);
        let (p, t) = tally(init);
        let (date, v, game) = rows.last();
        lemma_playing_follows_log(init, v);
        lemma_user_slot(p, v);
        lemma_user_slot(p, user);
        let i = user_slot(p, v);
        let after = tally(rows).0;
        if i < 0 {
            if let Some(g) = game {
                assert(after == p.push((v, date, g)));
                assert(plays(after, user) == (plays(p, user) || v == user)) by {
                    if plays(after, user) {
                        let j = choose|j: int| 0 <= j < after.len() && after[j].0 == user;
                        if j < p.len() {
                            assert(p[j].0 == user);
                        }
                    }
                    if plays(p, user) {
                        let j = choose|j: int| 0 <= j < p.len() && p[j].0 == user;
                        assert(after[j].0 == user);
                    }
                    if v == user {
                        assert(after[p.len() as int].0 == user);
                    }
                }
                assert forall|a: int, b: int| 0 <= a < b < after.len() implies after[a].0 != after[b].0 by {
                    if b == p.len() {
                        assert(p[a].0 != v);
                    }
                }
            }
        } else if game == Some(p[i].2) {
        } else {
            if let Some(g) = game {
                assert(after == p.update(i, (v, date, g)));
                assert(plays(after, user) == plays(p, user)) by {
                    if plays(after, user) {
                        let j = choose|j: int| 0 <= j < after.len() && after[j].0 == user;
                        assert(p[j].0 == user);
                    }
                    if plays(p, user) {
                        let j = choose|j: int| 0 <= j < p.len() && p[j].0 == user;
                        assert(after[j].0 == user);
                    }
                }
            } else {
                assert(after == p.remove(i));
                assert(plays(after, user) == (plays(p, user) && user != v)) by {
                    if plays(after, user) {
                        let j = choose|j: int| 0 <= j < after.len() && after[j].0 == user;
                        if j < i {
                            assert(p[j].0 == user);
                            assert(p[j].0 != p[i].0);
                        } else {
                            assert(p[j + 1].0 == user);
                            assert(p[i].0 != p[j + 1].0);
                        }
                    }
                    if plays(p, user) && user != v {
                        let j = choose|j: int| 0 <= j < p.len() && p[j].0 == user;
                        if j < i {
                            assert(after[j].0 == user);
                        } else {
                            assert(j != i);
                            assert(after[j - 1].0 == user);
                        }
                    }
                }
                assert forall|a: int, b: int| 0 <= a < b < after.len() implies after[a].0 != after[b].0 by {
                    if a < i {
                        if b < i {
                        } else {
                            assert(after[b] == p[b + 1]);
                        }
                    } else {
                        assert(after[a] == p[a + 1]);
                        assert(after[b] == p[b + 1]);
                    }
                }
            }
        }
    }
}

/// A session adds its length to its game and to no other: where a user who is
/// not playing starts game `game` at `start` and stops at `stop`, the time
/// listed for that game grows by `stop - start`, and the time listed for every
/// other game stays as it was. With `lemma_games_listed_once`, a game's one
/// entry holds the sum of all its sessions.
pub proof fn lemma_session_adds_its_length(
    rows: Seq<(int, int, Option<Seq<char>>)>,
    end: int,
    user: int,
    game: Seq<char>,
    start: int,
    stop: int,
    other: Seq<char>,
)
    requires
        !(last_game_of(rows, user) matches Some(Some(_))),
    ensures
        time_listed(game_totals(rows.push((start, user, Some(game))).push((stop, user, None)), end), other)
            == time_listed(game_totals(rows, end), other) + if other == game { stop - start } else { 0 },
{
    let (p, t) = tally(rows);
    lemma_playing_follows_log(rows, user);
    lemma_user_slot(p, user);
    let one = rows.push((start, user, Some(game)));
    let two = one.push((stop, user, None));
    assert(one.drop_last() =~= rows);
    assert(two.drop_last() =~= one);
    let p1 = p.push((user, start, game));
    assert(tally(one) == (p1, t));
    let keys = p.map_values(|x: (int, int, Seq<char>)| x.0);
    let keys1 = p1.map_values(|x: (int, int, Seq<char>)| x.0);
    lemma_first_slot(keys, user);
    assert(keys1.drop_last() =~= keys);
    assert(user_slot(p1, user) == p.len());
    assert(p1.remove(p.len() as int) =~= p);
    assert(tally(two) == (p, add_time(t, game, stop - start)));
    lemma_close_out_adds(p, t, end, game, stop - start, other);
}

/// The label of the line that sums all games.
pub open spec fn all_games_label() -> Seq<char> {
    "All Games"@
}

/// What a play time listing shows.
pub enum PlaytimeSummary {
    /// Nothing was played in the window.
    NoPlaytime,
    /// Time per game, longest first, with one more line for all games together.
    Games(Vec<GameTime>),
}

/// Why a listing could not be made.
#[derive(Debug, PartialEq, Eq)]
pub enum PlaytimeError {
    /// The time of all games together exceeds the longest duration.
    TimeOverflow,
}

/// Sums the presence log into play time per game, up to `end`.
///
/// Users who stop playing, or switch game, have the time since they started
/// added to their game; users still playing at `end` are counted up to `end`.
/// The games come longest first, together with an "All Games" entry holding
/// their sum.
pub fn summarize_playtime(rows: &[PresenceRow], end: i128) -> (res: Result<PlaytimeSummary, PlaytimeError>)
    requires
        log_in_order(rows_view(rows@), end as int),
        spans_fit(rows_view(rows@), end as int),
    ensures
        rows@.len() == 0 ==> res matches Ok(PlaytimeSummary::NoPlaytime),
        rows@.len() > 0 ==> {
            let totals = game_totals(rows_view(rows@), end as int);
            &&& (res is Err <==> sum_times(totals) > MAX_SPAN_NANOS)
            &&& (sum_times(totals) <= MAX_SPAN_NANOS && totals.len() == 0 ==> res matches Ok(
                PlaytimeSummary::NoPlaytime,
            ))
            &&& (sum_times(totals) <= MAX_SPAN_NANOS && totals.len() > 0 ==> (res matches Ok(
                PlaytimeSummary::Games(v),
            ) && sorted_desc(times_view(v@)) && times_view(v@).to_multiset() =~= totals.push(
                (all_games_label(), sum_times(totals)),
            ).to_multiset()))
        },
{
    if rows.len() == 0 {
        return Ok(PlaytimeSummary::NoPlaytime);
    }
    let (playing, times) = tally_rows(rows, end);
    let times = close_out_playing(&playing, times, end, Ghost(rows_view(rows@)));
    let total = match total_span(&times) {
        Some(t) => t,
        None => return Err(PlaytimeError::TimeOverflow),
    };
    if times.len() == 0 {
        return Ok(PlaytimeSummary::NoPlaytime);
    }
    let ghost totals = times_view(times@);
    let mut all = times;
    all.push(GameTime { game: "All Games".to_string(), span: total });
    proof {
        assert(times_view(all@) =~= totals.push((all_games_label(), sum_times(totals))));
    }
    let sorted = sort_by_span_desc(all);
    Ok(PlaytimeSummary::Games(sorted))
}

/// The largest byte length among the game names.
pub open spec fn widest_name(times: Seq<(Seq<char>, int)>) -> nat
    decreases times.len(),
{
    if times.len() == 0 {
        0
    } else {
        let w = byte_len(times.last().0);
        let rest = widest_name(times.drop_last());
        if w > rest { w } else { rest }
    }
}

/// One page of a listing.
pub struct PlaytimePage {
    /// The entries on this page, in listing order.
    pub entries: Vec<GameTime>,
    /// Width the game names are padded to: the longest name's length in bytes.
    pub name_width: usize,
    /// This page's number, from 1.
    pub page: usize,
    /// The number of pages shown in the header.
    pub pages: usize,
}

/// The page of `entries` that starts at `offset`: up to `OFFSET_INC` entries.
pub fn playtime_page(entries: &[GameTime], offset: usize) -> (page: PlaytimePage)
    requires
        offset <= entries@.len(),
    ensures
        times_view(page.entries@) == times_view(entries@).subrange(
            offset as int,
            if entries@.len() - offset < OFFSET_INC { entries@.len() as int } else { offset + OFFSET_INC },
        ),
        page.name_width == widest_name(times_view(page.entries@)),
        page.page == (offset as nat) / (OFFSET_INC as nat) + 1,
        page.pages == entries@.len() / (OFFSET_INC as nat) + 1,
{
    let stop: usize = if entries.len() - offset < OFFSET_INC as usize {
        entries.len()
    } else {
        offset + OFFSET_INC as usize
    };
    let ghost all = times_view(entries@);
    let mut shown: Vec<GameTime> = Vec::new();
    let mut width: usize = 0;
    let mut i: usize = offset;
    proof {
        assert(times_view(shown@) =~= all.subrange(offset as int, offset as int));
    }
    while i < stop
        invariant
            offset <= i <= stop <= entries@.len(),
            all == times_view(entries@),
            times_view(shown@) == all.subrange(offset as int, i as int),
            width == widest_name(times_view(shown@)),
            shown@.len() == i - offset,
        decreases stop - i,
    {
        let ghost before = times_view(shown@);
        let name = entries[i].game.clone();
        let w = name.as_str().len();
        shown.push(GameTime { game: name, span: entries[i].span });
        proof {
            assert(times_view(shown@) =~= before.push(all[i as int]));
            assert(times_view(shown@).drop_last() =~= before);
            assert(times_view(shown@) =~= all.subrange(offset as int, i + 1));
            assert(times_view(shown@).last().0 == name@);
            assert(w == byte_len(name@));
        }
        if w > width {
            width = w;
        }
        i = i + 1;
    }
    PlaytimePage {
        entries: shown,
        name_width: width,
        page: offset / OFFSET_INC as usize + 1,
        pages: entries.len() / OFFSET_INC as usize + 1,
    }
}

/// "```No recorded playtime```", naming the user when there is one.
pub open spec fn no_playtime_text(username: Option<Seq<char>>) -> Seq<char> {
    "```No recorded playtime"@ + match username {
        Some(u) => " for "@ + u,
        None => Seq::<char>::empty(),
    } + "```"@
}

/// The reply when nothing was played.
pub fn no_playtime_message(username: Option<&str>) -> (res: String)
    ensures
        res@ == no_playtime_text(
            match username {
                Some(u) => Some(u@),
                None => None,
            },
        ),
{
    let mut s = "```No recorded playtime".to_string();
    if let Some(u) = username {
        s.append(" for ");
        s.append(u);
    }
    s.append("```");
    s
}

/// The text of a listing page: a header naming the user (or everyone) and the
/// first recorded moment, the page number, then the lines.
pub open spec fn playtime_text(
    username: Option<Seq<char>>,
    first_seen: Seq<char>,
    page: int,
    pages: int,
    lines: Seq<char>,
) -> Seq<char> {
    "```"@ + match username {
        Some(u) => u + " since"@,
        None => "Since"@,
    } + " "@ + first_seen + " - Page "@ + decimal(page as nat) + "/"@ + decimal(pages as nat) + "\n\n"@
        + lines + "```"@
}

/// Puts a listing page's text together; `first_seen` is the first recorded
/// moment as shown to the user, `lines` the rendered entries.
pub fn playtime_message(username: Option<&str>, first_seen: &str, page: &PlaytimePage, lines: &str) -> (res: String)
    ensures
        res@ == playtime_text(
            match username {
                Some(u) => Some(u@),
                None => None,
            },
            first_seen@,
            page.page as int,
            page.pages as int,
            lines@,
        ),
{
    let mut s = "```".to_string();
    match username {
        Some(u) => {
            s.append(u);
            s.append(" since");
        },
        None => s.append("Since"),
    }
    s.append(" ");
    s.append(first_seen);
    s.append(" - Page ");
    let p = u64_decimal(page.page as u64);
    s.append(p.as_str());
    s.append("/");
    let n = u64_decimal(page.pages as u64);
    s.append(n.as_str());
    s.append("\n\n");
    s.append(lines);
    s.append("```");
    s
}

/// How the first recorded moment is shown: the time of day when the window
/// began less than a day before its end, the date otherwise.
pub fn first_seen_format(start: Option<i128>, end: i128) -> (fmt: &'static str)
    requires
        -TIMESTAMP_LIMIT_NANOS <= end <= TIMESTAMP_LIMIT_NANOS,
        start matches Some(s) ==> -TIMESTAMP_LIMIT_NANOS <= s <= TIMESTAMP_LIMIT_NANOS,
    ensures
        fmt@ == if start matches Some(s) && end - s < NANOS_PER_DAY { "%l:%M%p"@ } else { "%b %d, %Y"@ },
{
    match start {
        Some(s) => {
            if end - s < NANOS_PER_DAY {
                "%l:%M%p"
            } else {
                "%b %d, %Y"
            }
        },
        None => "%b %d, %Y",
    }
}

/// The three paging buttons of a listing.
pub enum PageButton {
    First,
    Prev,
    Next,
}

impl PageButton {
    /// The word in the button's id and, capitalised, its label.
    pub open spec fn word(&self) -> Seq<char> {
        match self {
            PageButton::First => "first"@,
            PageButton::Prev => "prev"@,
            PageButton::Next => "next"@,
        }
    }
}

/// A paging button as shown.
pub struct PlaytimeButton {
    pub kind: PageButton,
    /// "playtime:<word>:<listing id>"
    pub custom_id: String,
    pub label: String,
    pub disabled: bool,
}

/// The id a button of a listing carries.
pub open spec fn button_id_text(kind: PageButton, button_id: int) -> Seq<char> {
    "playtime:"@ + kind.word() + ":"@ + signed_decimal(button_id)
}

fn make_button(kind: PageButton, word: &str, label: &str, button_id: i32, disabled: bool) -> (b: PlaytimeButton)
    requires
        word@ == kind.word(),
    ensures
        b.kind == kind,
        b.custom_id@ == button_id_text(kind, button_id as int),
        b.label@ == label@,
        b.disabled == disabled,
{
    let mut id = "playtime:".to_string();
    id.append(word);
    id.append(":");
    let n = i64_decimal(button_id as i64);
    id.append(n.as_str());
    PlaytimeButton { kind, custom_id: id, label: label.to_string(), disabled }
}

/// The paging buttons under a listing page: "First" and "Prev" are off on the
/// first page, "Next" when the page shows fewer than a full page of lines, and
/// all are off while `disabled`.
pub fn create_components(offset: i32, content: &str, button_id: i32, disabled: bool) -> (res: Vec<PlaytimeButton>)
    ensures
        res@.len() == 3,
        res@[0].kind == PageButton::First,
        res@[1].kind == PageButton::Prev,
        res@[2].kind == PageButton::Next,
        forall|i: int| 0 <= i < 3 ==> #[trigger] res@[i].custom_id@ == button_id_text(res@[i].kind, button_id as int),
        res@[0].label@ == "First"@,
        res@[1].label@ == "Prev"@,
        res@[2].label@ == "Next"@,
        res@[0].disabled == (disabled || offset < 1),
        res@[1].disabled == (disabled || offset < 1),
        res@[2].disabled == (disabled || count_char(content@, '\n') < OFFSET_INC + 2),
{
    let lines = count_occurrences(content, '\n');
    let mut v: Vec<PlaytimeButton> = Vec::new();
    v.push(make_button(PageButton::First, "first", "First", button_id, disabled || offset < 1));
    v.push(make_button(PageButton::Prev, "prev", "Prev", button_id, disabled || offset < 1));
    v.push(make_button(PageButton::Next, "next", "Next", button_id, disabled || lines < OFFSET_INC as usize + 2));
    v
}

/// A press on a listing's paging button.
pub struct ButtonPress {
    /// The word after "playtime:" in the id.
    pub direction: String,
    pub button_id: i32,
}

/// Reads a pressed button's id "playtime:<direction>:<listing id>": `None` when
/// the id is not a listing's, or its listing id is no `i32`.
pub fn parse_button_press(custom_id: &str) -> (res: Option<ButtonPress>)
    requires
        split_on(custom_id@, ':')[0] == "playtime"@ ==> split_on(custom_id@, ':').len() >= 3,
    ensures
        ({
            let fields = split_on(custom_id@, ':');
            if fields[0] != "playtime"@ {
                res is None
            } else {
                match parse_int(fields[2], true) {
                    Some(v) if i32::MIN <= v <= i32::MAX => res matches Some(p) && p.direction@
                        == fields[1] && p.button_id == v,
                    _ => res is None,
                }
            }
        }),
{
    let fields = split_chars(custom_id, ':');
    let ghost parts = split_on(custom_id@, ':');
    proof {
        assert(fields@[0]@ == parts[0]);
    }
    if !same_text(fields[0].as_str(), "playtime") {
        return None;
    }
    proof {
        assert(fields@.len() == parts.len());
        assert(fields@[1]@ == parts[1]);
        assert(fields@[2]@ == parts[2]);
    }
    match parse_i32(fields[2].as_str()) {
        Some(id) => Some(ButtonPress { direction: fields[1].clone(), button_id: id }),
        None => None,
    }
}

/// The listing offset after a press: "first" goes back to the first page,
/// "prev" back a page (not before the start), "next" forward a page; other
/// presses leave the listing as it is.
pub fn turn_page(direction: &str, start_offset: i32) -> (res: Option<i32>)
    requires
        direction@ == "prev"@ ==> start_offset >= i32::MIN + OFFSET_INC,
        direction@ == "next"@ ==> start_offset <= i32::MAX - OFFSET_INC,
    ensures
        direction@ == "first"@ ==> res == Some(0i32),
        direction@ == "prev"@ ==> res == Some(
            if start_offset - OFFSET_INC > 0 { (start_offset - OFFSET_INC) as i32 } else { 0i32 },
        ),
        direction@ == "next"@ ==> res == Some((start_offset + OFFSET_INC) as i32),
        direction@ != "first"@ && direction@ != "prev"@ && direction@ != "next"@ ==> res is None,
{
    proof {
        reveal_strlit("first");
        reveal_strlit("prev");
        reveal_strlit("next");
        assert("next"@[0] != "prev"@[0]);
        assert("first"@[0] != "prev"@[0]);
        assert("first"@[0] != "next"@[0]);
    }
    if same_text(direction, "first") {
        Some(0)
    } else if same_text(direction, "prev") {
        let back = start_offset - OFFSET_INC as i32;
        Some(if back > 0 { back } else { 0 })
    } else if same_text(direction, "next") {
        Some(start_offset + OFFSET_INC as i32)
    } else {
        None
    }
}

/// The users whose play time is shown, as stored: `None` where an ID does not
/// fit an `i64`.
pub fn member_ids(ids: &Vec<u64>) -> (res: Option<Vec<i64>>)
    ensures
        (forall|i: int| 0 <= i < ids@.len() ==> #[trigger] ids@[i] <= i64::MAX) ==> (res matches Some(v)
            && v@.len() == ids@.len() && forall|i: int| 0 <= i < ids@.len() ==> #[trigger] v@[i] == ids@[i]),
        !(forall|i: int| 0 <= i < ids@.len() ==> #[trigger] ids@[i] <= i64::MAX) ==> res is None,
{
    let mut v: Vec<i64> = Vec::new();
    let mut i: usize = 0;
    while i < ids.len()
        invariant
            i <= ids.len(),
            v@.len() == i,
            forall|k: int| 0 <= k < i ==> #[trigger] ids@[k] <= i64::MAX && v@[k] == ids@[k],
        decreases ids.len() - i,
    {
        if ids[i] > i64::MAX as u64 {
            return None;
        }
        v.push(ids[i] as i64);
        i = i + 1;
    }
    Some(v)
}

/// A button's id reads back as the listing it belongs to: split at its colons
/// it is "playtime", the button's word and the listing id, and the listing id's
/// text reads back as the listing id.
pub proof fn lemma_button_id_reads_back(kind: PageButton, button_id: i32)
    ensures
        split_on(button_id_text(kind, button_id as int), ':') == seq!["playtime"@, kind.word(), signed_decimal(button_id as int)],
        parse_int(signed_decimal(button_id as int), true) == Some(button_id as int),
{
    reveal_strlit("playtime:");
    reveal_strlit("playtime");
    reveal_strlit(":");
    reveal_strlit("first");
    reveal_strlit("prev");
    reveal_strlit("next");
    let e = Seq::<char>::empty();
    let head = "playtime"@;
    let word = kind.word();
    let id = signed_decimal(button_id as int);
    lemma_signed_decimal_reads_back(button_id as int);
    assert(!head.contains(':')) by {
        if head.contains(':') {
            let i = choose|i: int| 0 <= i < head.len() && head[i] == ':';
            assert(head[i] != ':');
        }
    }
    assert(!word.contains(':')) by {
        if word.contains(':') {
            let i = choose|i: int| 0 <= i < word.len() && word[i] == ':';
            assert(word[i] != ':');
        }
    }
    assert(split_on(e, ':') == seq![e]);
    lemma_split_append_plain(e, head, ':');
    assert(e + head =~= head);
    assert(split_on(head, ':') =~= seq![head]);
    lemma_split_push_sep(head, ':');
    let a = head.push(':');
    assert(a =~= "playtime:"@);
    assert(split_on(a, ':') =~= seq![head, e]);
    lemma_split_append_plain(a, word, ':');
    assert(split_on(a + word, ':') =~= seq![head, word]);
    lemma_split_push_sep(a + word, ':');
    let b = (a + word).push(':');
    assert(split_on(b, ':') =~= seq![head, word, e]);
    lemma_split_append_plain(b, id, ':');
    assert(split_on(b + id, ':') =~= seq![head, word, id]);
    assert(b + id =~= button_id_text(kind, button_id as int));
}

/// Adds `span` to `game` in place where the game's new time stays within the
/// longest duration; whether it did.
fn try_add_span(times: &mut Vec<GameTime>, game: &String, span: i128) -> (ok: bool)
    requires
        within_span(times_view(old(times)@)),
        nonnegative(times_view(old(times)@)),
        0 <= span <= 2 * TIMESTAMP_LIMIT_NANOS,
    ensures
        ok == within_span(add_time(times_view(old(times)@), game@, span as int)),
        ok ==> times_view(final(times)@) == add_time(times_view(old(times)@), game@, span as int),
        ok ==> nonnegative(times_view(final(times)@)),
{
    let ghost before = times_view(times@);
    proof {
        lemma_first_slot(before.map_values(|t: (Seq<char>, int)| t.0), game@);
        lemma_add_time_bounds(before, game@, span as int);
    }
    let fits = match find_game(times, game) {
        Some(i) => {
            assert(before[i as int].1 == times@[i as int].span);
            times[i].span <= MAX_SPAN_NANOS - span
        },
        None => span <= MAX_SPAN_NANOS,
    };
    proof {
        let after = add_time(before, game@, span as int);
        let slot = game_slot(before, game@);
        if slot >= 0 {
            assert forall|j: int| 0 <= j < after.len() && j != slot implies after[j].1 == before[j].1 by {}
        } else {
            assert forall|j: int| 0 <= j < before.len() implies after[j].1 == before[j].1 by {}
        }
        if !fits {
            if slot >= 0 {
                assert(after[slot].1 > MAX_SPAN_NANOS);
            } else {
                assert(after[after.len() - 1].1 > MAX_SPAN_NANOS);
            }
        }
    }
    if fits {
        add_span(times, game, span);
    }
    fits
}

/// Whether the presence log is in time order, within the timestamp range, with
/// no row after `end`.
pub fn playtime_log_in_order(rows: &[PresenceRow], end: i128) -> (res: bool)
    ensures
        res == log_in_order(rows_view(rows@), end as int),
{
    let ghost rv = rows_view(rows@);
    if end > TIMESTAMP_LIMIT_NANOS {
        return false;
    }
    let mut i: usize = 0;
    while i < rows.len()
        invariant
            rv == rows_view(rows@),
            i <= rows.len(),
            end <= TIMESTAMP_LIMIT_NANOS,
            forall|a: int, b: int| 0 <= a <= b < i ==> rv[a].0 <= rv[b].0,
            forall|a: int| 0 <= a < i ==> -TIMESTAMP_LIMIT_NANOS <= #[trigger] rv[a].0 <= end,
        decreases rows.len() - i,
    {
        assert(rv[i as int] == rows@[i as int]@);
        let d = rows[i].date;
        if d < -TIMESTAMP_LIMIT_NANOS || d > end {
            assert(!(-TIMESTAMP_LIMIT_NANOS <= rv[i as int].0 <= end));
            return false;
        }
        if i > 0 && rows[i - 1].date > d {
            assert(rv[i - 1] == rows@[i - 1]@);
            return false;
        }
        i = i + 1;
    }
    true
}

/// Whether no game's time exceeds the longest duration at any point of the walk
/// (where the bot's clock arithmetic would give up).
pub fn playtime_spans_fit(rows: &[PresenceRow], end: i128) -> (res: bool)
    requires
        log_in_order(rows_view(rows@), end as int),
    ensures
        res == spans_fit(rows_view(rows@), end as int),
{
    let ghost rv = rows_view(rows@);
    let mut playing: Vec<(i64, i128, String)> = Vec::new();
    let mut times: Vec<GameTime> = Vec::new();
    let mut i: usize = 0;
    proof {
        assert(rv.take(0) =~= Seq::<(int, int, Option<Seq<char>>)>::empty());
        assert(playing_view(playing@) =~= Seq::<(int, int, Seq<char>)>::empty());
        assert(times_view(times@) =~= Seq::<(Seq<char>, int)>::empty());
    }
    while i < rows.len()
        invariant
            rv == rows_view(rows@),
            rv.len() == rows@.len(),
            log_in_order(rv, end as int),
            i <= rows.len(),
            playing_view(playing@) == tally(rv.take(i as int)).0,
            times_view(times@) == tally(rv.take(i as int)).1,
            nonnegative(times_view(times@)),
            forall|k: int| 0 <= k <= i ==> within_span(#[trigger] tally(rv.take(k)).1),
            forall|k: int|
                0 <= k < playing@.len() ==> -TIMESTAMP_LIMIT_NANOS <= #[trigger] playing@[k].1 <= end,
            forall|k: int|
                0 <= k < playing@.len() && i < rows@.len() ==> #[trigger] playing@[k].1 <= rv[i as int].0,
        decreases rows.len() - i,
    {
        let ghost before = (playing_view(playing@), times_view(times@));
        let ghost row = rv[i as int];
        proof {
            assert(rv.take(i + 1).drop_last() =~= rv.take(i as int));
            assert(rv.take(i + 1).last() == row);
            assert(tally(rv.take(i + 1)) == tally_step(before, row));
            assert(row == rows@[i as int]@);
            assert(within_span(tally(rv.take(i as int)).1));
        }
        let date = rows[i].date;
        let user = rows[i].user_id;
        match find_user(&playing, user) {
            None => {
                match &rows[i].game {
                    Some(g) => {
                        playing.push((user, date, g.clone()));
                        assert(playing_view(playing@) =~= before.0.push((user as int, date as int, g@)));
                    },
                    None => {},
                }
            },
            Some(k) => {
                let same = match &rows[i].game {
                    Some(g) => *g == playing[k].2,
                    None => false,
                };
                assert(before.0[k as int] == (playing@[k as int].0 as int, playing@[k as int].1 as int, playing@[k as int].2@));
                if !same {
                    let last_game = playing[k].2.clone();
                    let span = date - playing[k].1;
                    if !try_add_span(&mut times, &last_game, span) {
                        assert(!within_span(tally(rv.take(i + 1)).1));
                        assert(!spans_fit(rv, end as int)) by {
                            assert(0 <= i + 1 <= rv.len());
                        }
                        return false;
                    }
                    match &rows[i].game {
                        Some(g) => {
                            playing.set(k, (user, date, g.clone()));
                            assert(playing_view(playing@) =~= before.0.update(k as int, (user as int, date as int, g@)));
                        },
                        None => {
                            playing.remove(k);
                            assert(playing_view(playing@) =~= before.0.remove(k as int));
                        },
                    }
                }
            },
        }
        proof {
            assert(within_span(tally(rv.take(i + 1)).1));
            assert forall|k: int| 0 <= k <= i + 1 implies within_span(#[trigger] tally(rv.take(k)).1) by {
                if k <= i {
                }
            }
        }
        i = i + 1;
    }
    proof {
        assert(rv.take(rv.len() as int) =~= rv);
    }
    let ghost pv = playing_view(playing@);
    let ghost t0 = times_view(times@);
    let mut j: usize = 0;
    proof {
        assert(pv.take(0) =~= Seq::<(int, int, Seq<char>)>::empty());
        assert(close_out(pv.take(0), t0, end as int) == t0);
    }
    while j < playing.len()
        invariant
            pv == playing_view(playing@),
            pv.len() == playing@.len(),
            pv == tally(rv).0,
            t0 == tally(rv).1,
            rv == rows_view(rows@),
            j <= playing.len(),
            times_view(times@) == close_out(pv.take(j as int), t0, end as int),
            nonnegative(times_view(times@)),
            forall|k: int| 0 <= k <= rv.len() ==> within_span(#[trigger] tally(rv.take(k)).1),
            forall|k: int| 0 <= k <= j ==> within_span(#[trigger] close_out(tally(rv).0.take(k), tally(rv).1, end as int)),
            forall|k: int|
                0 <= k < playing@.len() ==> -TIMESTAMP_LIMIT_NANOS <= #[trigger] playing@[k].1 <= end,
            end <= TIMESTAMP_LIMIT_NANOS,
        decreases playing.len() - j,
    {
        proof {
            assert(pv.take(j + 1).drop_last() =~= pv.take(j as int));
            assert(pv.take(j + 1).last() == pv[j as int]);
            assert(within_span(close_out(pv.take(j as int), t0, end as int)));
        }
        let span = end - playing[j].1;
        if !try_add_span(&mut times, &playing[j].2, span) {
            assert(!within_span(close_out(pv.take(j + 1), t0, end as int)));
            assert(!spans_fit(rv, end as int)) by {
                assert(0 <= j + 1 <= tally(rv).0.len());
                assert(!within_span(close_out(tally(rv).0.take(j + 1), tally(rv).1, end as int)));
            }
            return false;
        }
        proof {
            assert forall|k: int| 0 <= k <= j + 1 implies within_span(#[trigger] close_out(tally(rv).0.take(k), tally(rv).1, end as int)) by {
                if k <= j {
                }
            }
        }
        j = j + 1;
    }
    true
}

} // verus!
