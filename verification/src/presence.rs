//! Presence bookkeeping: the game a user is playing, which servers a user was
//! seen in, and the last status and game the bot recorded for each user.

use vstd::prelude::*;
use std::collections::{HashMap, HashSet};
use crate::text::{chars_of, fit_bytes, fit_count, fit_prefix, same_text, string_of, trimmed, trim, utf8_width};

verus! {

broadcast use vstd::std_specs::hash::group_hash_axioms;

/// `s` cut to at most `n` bytes (as `String::truncate`): `None` where the cut
/// would fall inside a character.
pub open spec fn truncated(s: Seq<char>, n: int) -> Option<Seq<char>> {
    let k = fit_count(s, n);
    if k == s.len() {
        Some(s)
    } else if fit_bytes(s, n) == n {
        Some(s.take(k as int))
    } else {
        None
    }
}

/// Whether `c` is one of the marks some clients add to game names: ® and ™.
pub open spec fn is_trade_mark(c: char) -> bool {
    c == '\u{ae}' || c == '\u{2122}'
}

/// `s` without ® and ™.
pub open spec fn strip_marks(s: Seq<char>) -> Seq<char>
    decreases s.len(),
{
    if s.len() == 0 {
        s
    } else if is_trade_mark(s.last()) {
        strip_marks(s.drop_last())
    } else {
        strip_marks(s.drop_last()).push(s.last())
    }
}

/// The longest a recorded game name is, in bytes.
pub const GAME_NAME_BYTES: usize = 512;

/// A game name as it is recorded: without ® and ™, cut to 512 bytes and
/// trimmed; `None` where the cut would fall inside a character.
pub open spec fn recorded_game_name(name: Seq<char>) -> Option<Seq<char>> {
    match truncated(strip_marks(name), GAME_NAME_BYTES as int) {
        Some(t) => Some(trimmed(t)),
        None => None,
    }
}

/// Cuts `s` to at most `n` bytes; `None` where the cut would fall inside a character.
pub fn truncate_bytes(s: &Vec<char>, n: usize) -> (res: Option<Vec<char>>)
    ensures
        (match res {
            Some(t) => Some(t@),
            None => None,
        }) == truncated(s@, n as int),
{
    let (i, used) = fit_prefix(s, n);
    if i == s.len() {
        let mut t: Vec<char> = Vec::new();
        let mut j: usize = 0;
        while j < s.len()
            invariant
                j <= s.len(),
                t@ == s@.take(j as int),
            decreases s.len() - j,
        {
            t.push(s[j]);
            j = j + 1;
        }
        assert(t@ =~= s@);
        Some(t)
    } else if used == n {
        let mut t: Vec<char> = Vec::new();
        let mut j: usize = 0;
        while j < i
            invariant
                j <= i <= s.len(),
                t@ == s@.take(j as int),
            decreases i - j,
        {
            t.push(s[j]);
            j = j + 1;
        }
        Some(t)
    } else {
        None
    }
}

/// Removes ® and ™.
pub fn without_marks(s: &Vec<char>) -> (res: Vec<char>)
    ensures
        res@ == strip_marks(s@),
{
    let mut res: Vec<char> = Vec::new();
    let mut i: usize = 0;
    while i < s.len()
        invariant
            i <= s.len(),
            res@ == strip_marks(s@.take(i as int)),
        decreases s.len() - i,
    {
        assert(s@.take(i + 1).drop_last() =~= s@.take(i as int));
        let c = s[i];
        if c != '\u{ae}' && c != '\u{2122}' {
            res.push(c);
        }
        i = i + 1;
    }
    assert(s@.take(s.len() as int) =~= s@);
    res
}

/// The name a game is recorded under; `None` where cutting it to 512 bytes would
/// fall inside a character (where the bot gives up on the update).
pub fn game_name(name: &str) -> (res: Option<String>)
    ensures
        (match res {
            Some(g) => Some(g@),
            None => None,
        }) == recorded_game_name(name@),
{
    let v = chars_of(name);
    let stripped = without_marks(&v);
    match truncate_bytes(&stripped, GAME_NAME_BYTES) {
        Some(t) => {
            let s = string_of(t.as_slice());
            Some(trim(s.as_str()))
        },
        None => None,
    }
}

/// An activity in a presence update: whether it is a game being played, and its name.
pub struct Activity {
    pub playing: bool,
    pub name: String,
}

/// The index of the first game being played among `acts`, if any.
pub open spec fn first_playing(acts: Seq<Activity>) -> Option<int>
    decreases acts.len(),
{
    if acts.len() == 0 {
        None
    } else if acts[0].playing {
        Some(0)
    } else {
        match first_playing(acts.drop_first()) {
            Some(i) => Some(i + 1),
            None => None,
        }
    }
}

/// The game in a presence update: the recorded name of the first activity that
/// is a game being played (`Ok(None)` where there is none; `Err` where its name
/// cannot be cut to 512 bytes).
pub open spec fn presence_game(acts: Seq<Activity>) -> Result<Option<Seq<char>>, ()> {
    match first_playing(acts) {
        None => Ok(None),
        Some(i) => match recorded_game_name(acts[i].name@) {
            Some(g) => Ok(Some(g)),
            None => Err(()),
        },
    }
}

/// The game the user is playing, by a presence update's activities.
pub fn game_of(acts: &Vec<Activity>) -> (res: Result<Option<String>, ()>)
    ensures
        (match res {
            Ok(Some(g)) => Ok(Some(g@)),
            Ok(None) => Ok(None),
            Err(()) => Err(()),
        }) == presence_game(acts@),
{
    let mut i: usize = 0;
    assert(acts@.skip(0) =~= acts@);
    while i < acts.len()
        invariant
            i <= acts.len(),
            forall|k: int| 0 <= k < i ==> !(#[trigger] acts@[k]).playing,
            first_playing(acts@) == match first_playing(acts@.skip(i as int)) {
                Some(j) => Some(j + i),
                None => None::<int>,
            },
        decreases acts.len() - i,
    {
        if acts[i].playing {
            assert(first_playing(acts@.skip(i as int)) == Some(0int));
            return match game_name(acts[i].name.as_str()) {
                Some(g) => Ok(Some(g)),
                None => Err(()),
            };
        }
        assert(acts@.skip(i as int).drop_first() =~= acts@.skip(i + 1));
        i = i + 1;
    }
    assert(acts@.skip(i as int).len() == 0);
    Ok(None)
}

/// A user's online status.
#[derive(Debug, PartialEq, Eq, Structural, Clone, Copy)]
pub enum OnlineState {
    DoNotDisturb,
    Idle,
    Invisible,
    Offline,
    Online,
}

/// The name a status is stored under.
pub open spec fn state_text(s: OnlineState) -> Seq<char> {
    match s {
        OnlineState::DoNotDisturb => "dnd"@,
        OnlineState::Idle => "idle"@,
        OnlineState::Invisible => "invisible"@,
        OnlineState::Offline => "offline"@,
        OnlineState::Online => "online"@,
    }
}

impl OnlineState {
    /// The status's name: "dnd", "idle", "invisible", "offline" or "online".
    pub fn name(&self) -> (res: &'static str)
        ensures
            res@ == state_text(*self),
    {
        match self {
            OnlineState::DoNotDisturb => "dnd",
            OnlineState::Idle => "idle",
            OnlineState::Invisible => "invisible",
            OnlineState::Offline => "offline",
            OnlineState::Online => "online",
        }
    }
}

/// The servers each user was seen in.
pub struct GuildMembership {
    lists: HashMap<u64, HashSet<u64>>,
}

impl View for GuildMembership {
    type V = Map<u64, Set<u64>>;

    open spec fn view(&self) -> Map<u64, Set<u64>> {
        self.servers()
    }
}

impl GuildMembership {
    /// The servers each user was seen in.
    pub closed spec fn servers(&self) -> Map<u64, Set<u64>> {
        Map::new(|u: u64| self.lists@.contains_key(u), |u: u64| self.lists@[u]@)
    }
}

/// The servers `user` was seen in, by the view.
pub open spec fn servers_of(m: Map<u64, Set<u64>>, user: u64) -> Set<u64> {
    if m.contains_key(user) { m[user] } else { Set::empty() }
}

impl GuildMembership {
    /// No user seen anywhere.
    pub fn new() -> (res: GuildMembership)
        ensures
            res@ == Map::<u64, Set<u64>>::empty(),
    {
        let res = GuildMembership { lists: HashMap::new() };
        assert(res@ =~= Map::<u64, Set<u64>>::empty());
        res
    }

    /// Whether `user` was seen in `guild`.
    pub fn contains(&self, user: u64, guild: u64) -> (res: bool)
        ensures
            res == servers_of(self@, user).contains(guild),
    {
        match self.lists.get(&user) {
            Some(set) => set.contains(&guild),
            None => false,
        }
    }

    /// Notes that `user` was seen in `guild`.
    pub fn record(&mut self, user: u64, guild: u64)
        ensures
            final(self)@ == old(self)@.insert(user, servers_of(old(self)@, user).insert(guild)),
    {
        if self.contains(user, guild) {
            assert(servers_of(old(self)@, user).insert(guild) =~= servers_of(old(self)@, user));
            assert(self@ =~= old(self)@.insert(user, servers_of(old(self)@, user).insert(guild)));
            return;
        }
        let mut set = match self.lists.remove(&user) {
            Some(s) => s,
            None => HashSet::new(),
        };
        set.insert(guild);
        self.lists.insert(user, set);
        assert(self@ =~= old(self)@.insert(user, servers_of(old(self)@, user).insert(guild)));
    }

    /// Notes that `user` left `guild`; whether the user is now seen in no server
    /// (also where the user was never seen).
    pub fn leave(&mut self, user: u64, guild: u64) -> (res: bool)
        ensures
            old(self)@.contains_key(user) ==> final(self)@ == old(self)@.insert(user, old(self)@[user].remove(guild)),
            !old(self)@.contains_key(user) ==> final(self)@ == old(self)@,
            res == servers_of(final(self)@, user).is_empty(),
    {
        match self.lists.remove(&user) {
            Some(mut set) => {
                set.remove(&guild);
                let empty = set.is_empty();
                self.lists.insert(user, set);
                assert(self@ =~= old(self)@.insert(user, old(self)@[user].remove(guild)));
                proof {
                    if !empty {
                        let g = choose|g: u64| self@[user].contains(g);
                        assert(self@[user].contains(g));
                    }
                }
                empty
            },
            None => {
                assert(self@ =~= old(self)@);
                assert(servers_of(self@, user) =~= Set::<u64>::empty());
                true
            },
        }
    }
}

/// A user's last recorded status and game.
pub struct UserPresence {
    pub status: OnlineState,
    pub game_name: Option<String>,
}

/// A presence as plain values.
pub open spec fn presence_view(p: UserPresence) -> (OnlineState, Option<Seq<char>>) {
    (p.status, match p.game_name {
        Some(g) => Some(g@),
        None => None,
    })
}

/// The last status and game recorded for each user.
pub struct PresenceMemory {
    last: HashMap<u64, UserPresence>,
}

impl View for PresenceMemory {
    type V = Map<u64, (OnlineState, Option<Seq<char>>)>;

    open spec fn view(&self) -> Map<u64, (OnlineState, Option<Seq<char>>)> {
        self.recorded()
    }
}

impl PresenceMemory {
    /// The last status and game recorded for each user.
    pub closed spec fn recorded(&self) -> Map<u64, (OnlineState, Option<Seq<char>>)> {
        Map::new(|u: u64| self.last@.contains_key(u), |u: u64| presence_view(self.last@[u]))
    }
}

fn same_game(a: &Option<String>, b: &Option<String>) -> (res: bool)
    ensures
        res == ((match *a {
            Some(g) => Some(g@),
            None => None,
        }) == (match *b {
            Some(g) => Some(g@),
            None => None,
        })),
{
    match (a, b) {
        (Some(x), Some(y)) => same_text(x.as_str(), y.as_str()),
        (None, None) => true,
        _ => false,
    }
}

fn copy_game(g: &Option<String>) -> (res: Option<String>)
    ensures
        (match res {
            Some(x) => Some(x@),
            None => None,
        }) == (match *g {
            Some(x) => Some(x@),
            None => None,
        }),
{
    match g {
        Some(x) => Some(x.clone()),
        None => None,
    }
}

impl PresenceMemory {
    /// Nothing recorded.
    pub fn new() -> (res: PresenceMemory)
        ensures
            res@ == Map::<u64, (OnlineState, Option<Seq<char>>)>::empty(),
    {
        let res = PresenceMemory { last: HashMap::new() };
        assert(res@ =~= Map::<u64, (OnlineState, Option<Seq<char>>)>::empty());
        res
    }

    /// The last status and game recorded for `user`.
    pub fn get(&self, user: u64) -> (res: Option<(OnlineState, Option<String>)>)
        ensures
            (match res {
                Some((s, g)) => Some((s, match g {
                    Some(x) => Some(x@),
                    None => None,
                })),
                None => None,
            }) == (if self@.contains_key(user) { Some(self@[user]) } else { None }),
    {
        match self.last.get(&user) {
            Some(p) => Some((p.status, copy_game(&p.game_name))),
            None => None,
        }
    }

    /// Whether an update repeats what was last recorded for `user` (and is not
    /// recorded again).
    pub fn repeats(&self, user: u64, status: OnlineState, game: &Option<String>) -> (res: bool)
        ensures
            res == (self@.contains_key(user) && self@[user] == (status, match *game {
                Some(x) => Some(x@),
                None => None,
            })),
    {
        match self.last.get(&user) {
            Some(p) => p.status == status && same_game(&p.game_name, game),
            None => false,
        }
    }

    /// Records `user`'s status and game.
    pub fn remember(&mut self, user: u64, status: OnlineState, game: Option<String>)
        ensures
            final(self)@ == old(self)@.insert(user, (status, match game {
                Some(x) => Some(x@),
                None => None,
            })),
    {
        self.last.insert(user, UserPresence { status, game_name: game });
        assert(self@ =~= old(self)@.insert(user, (status, match game {
            Some(x) => Some(x@),
            None => None,
        })));
    }
}

/// Once a server is recorded for a user, the user is seen in it; other users
/// and the user's other servers are as they were.
pub proof fn lemma_record_then_contains(before: Map<u64, Set<u64>>, user: u64, guild: u64, other: u64, g: u64)
    ensures
        servers_of(before.insert(user, servers_of(before, user).insert(guild)), user).contains(guild),
        other != user ==> servers_of(before.insert(user, servers_of(before, user).insert(guild)), other)
            == servers_of(before, other),
        g != guild ==> (servers_of(before.insert(user, servers_of(before, user).insert(guild)), user).contains(g)
            == servers_of(before, user).contains(g)),
{
}

/// After leaving a server, the user is no longer seen in it.
pub proof fn lemma_leave_then_absent(before: Map<u64, Set<u64>>, user: u64, guild: u64)
    requires
        before.contains_key(user),
    ensures
        !servers_of(before.insert(user, before[user].remove(guild)), user).contains(guild),
{
}

/// An update just remembered is a repeat of what is remembered.
pub proof fn lemma_remember_then_repeat(
    before: Map<u64, (OnlineState, Option<Seq<char>>)>,
    user: u64,
    p: (OnlineState, Option<Seq<char>>),
)
    ensures
        before.insert(user, p).contains_key(user) && before.insert(user, p)[user] == p,
{
}

/// Whether the presences a server arrives with are recorded as the bot
/// starting up: unless the server is known to be newly joined.
pub fn startup_presences(is_new: Option<bool>) -> (res: bool)
    ensures
        res == !(is_new == Some(true)),
{
    match is_new {
        Some(true) => false,
        _ => true,
    }
}

/// A user's status: the one last recorded, else the one the server's cached
/// presences show, if any.
pub fn user_status(memory: &PresenceMemory, user: u64, cached: Option<OnlineState>) -> (res: Option<OnlineState>)
    ensures
        res == if memory@.contains_key(user) { Some(memory@[user].0) } else { cached },
{
    match memory.get(user) {
        Some((s, _)) => Some(s),
        None => cached,
    }
}

} // verus!
