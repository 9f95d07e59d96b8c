//! Mythic+ run listings for the raider.io command, and the names a character
//! and realm are looked up under.

use vstd::prelude::*;
use crate::text::{
    byte_len, chars_of, decimal, push_char, sort_texts, sorted_texts, string_of, text_lt, texts, trim, trimmed,
    u64_decimal,
};

verus! {

/// `c` in lower case where it is an ASCII capital (as `make_ascii_lowercase`).
pub open spec fn ascii_lower_char(c: char) -> char {
    if 'A' <= c <= 'Z' { ((c as u32) + 32) as char } else { c }
}

/// `s` with ASCII capitals lowered.
pub open spec fn ascii_lower(s: Seq<char>) -> Seq<char> {
    s.map_values(|c: char| ascii_lower_char(c))
}

/// `s` with each space made a dash and apostrophes dropped.
pub open spec fn dashed(s: Seq<char>) -> Seq<char>
    decreases s.len(),
{
    if s.len() == 0 {
        s
    } else if s.last() == '\'' {
        dashed(s.drop_last())
    } else if s.last() == ' ' {
        dashed(s.drop_last()).push('-')
    } else {
        dashed(s.drop_last()).push(s.last())
    }
}

fn lower_char(c: char) -> (res: char)
    ensures
        res == ascii_lower_char(c),
{
    if 'A' <= c && c <= 'Z' {
        ((c as u32 + 32) as u8) as char
    } else {
        c
    }
}

/// `s` with ASCII capitals lowered.
pub fn lowercase_ascii(s: &str) -> (res: String)
    ensures
        res@ == ascii_lower(s@),
{
    let v = chars_of(s);
    let mut res = String::new();
    let mut i: usize = 0;
    while i < v.len()
        invariant
            i <= v.len(),
            v@ == s@,
            res@ == ascii_lower(v@.take(i as int)),
        decreases v.len() - i,
    {
        push_char(&mut res, lower_char(v[i]));
        assert(ascii_lower(v@.take(i + 1)) =~= ascii_lower(v@.take(i as int)).push(ascii_lower_char(v@[i as int])));
        i = i + 1;
    }
    assert(v@.take(v.len() as int) =~= v@);
    res
}

/// The name a character is looked up under: trimmed, ASCII capitals lowered.
pub fn character_slug(name: &str) -> (res: String)
    ensures
        res@ == ascii_lower(trimmed(name@)),
{
    let t = trim(name);
    lowercase_ascii(t.as_str())
}

/// The name a realm is looked up under: trimmed, spaces made dashes,
/// apostrophes dropped, ASCII capitals lowered.
pub fn realm_slug(realm: &str) -> (res: String)
    ensures
        res@ == ascii_lower(dashed(trimmed(realm@))),
{
    let t = trim(realm);
    let v = chars_of(t.as_str());
    let mut d = String::new();
    let mut i: usize = 0;
    while i < v.len()
        invariant
            i <= v.len(),
            v@ == trimmed(realm@),
            d@ == dashed(v@.take(i as int)),
        decreases v.len() - i,
    {
        assert(v@.take(i + 1).drop_last() =~= v@.take(i as int));
        let c = v[i];
        if c == ' ' {
            push_char(&mut d, '-');
        } else if c != '\'' {
            push_char(&mut d, c);
        }
        i = i + 1;
    }
    assert(v@.take(v.len() as int) =~= v@);
    lowercase_ascii(d.as_str())
}

/// A Mythic+ run: the dungeon's short name, the keystone level, and by how
/// many levels the key was upgraded (0 to 3).
pub struct RunSummary {
    pub short_name: String,
    pub mythic_level: u8,
    pub num_keystone_upgrades: u8,
}

/// The marks for a key's upgrades: "", "+", "++" or "+++".
pub open spec fn plusses(n: int) -> Seq<char> {
    if n == 0 {
        ""@
    } else if n == 1 {
        "+"@
    } else if n == 2 {
        "++"@
    } else {
        "+++"@
    }
}

fn plus_marks(n: u8) -> (res: &'static str)
    requires
        n <= 3,
    ensures
        res@ == plusses(n as int),
{
    if n == 0 {
        ""
    } else if n == 1 {
        "+"
    } else if n == 2 {
        "++"
    } else {
        "+++"
    }
}

/// Whether every run's upgrades can be marked (at most three).
pub open spec fn upgrades_marked(runs: Seq<RunSummary>) -> bool {
    forall|i: int| 0 <= i < runs.len() ==> #[trigger] runs[i].num_keystone_upgrades <= 3
}

/// A run's line: "<dungeon> <level><upgrade marks>".
pub open spec fn run_line(r: RunSummary) -> Seq<char> {
    r.short_name@ + " "@ + decimal(r.mythic_level as nat) + plusses(r.num_keystone_upgrades as int)
}

/// The texts joined, each after the first on a line of its own.
pub open spec fn join_lines(lines: Seq<Seq<char>>) -> Seq<char>
    decreases lines.len(),
{
    if lines.len() == 0 {
        Seq::empty()
    } else if lines.len() == 1 {
        lines[0]
    } else {
        join_lines(lines.drop_last()) + "\n"@ + lines.last()
    }
}

/// A run listing: "No runs" where there are none, else the lines of the first
/// `count` runs.
pub open spec fn runs_text(runs: Seq<RunSummary>, count: nat) -> Seq<char> {
    if runs.len() == 0 {
        "No runs"@
    } else {
        join_lines(runs.take(if count < runs.len() { count as int } else { runs.len() as int }).map_values(
            |r: RunSummary| run_line(r),
        ))
    }
}

/// Joins the texts, each after the first on a line of its own.
pub fn join_with_newlines(lines: &Vec<String>) -> (res: String)
    ensures
        res@ == join_lines(texts(lines@)),
{
    let mut res = String::new();
    let mut i: usize = 0;
    while i < lines.len()
        invariant
            i <= lines.len(),
            res@ == join_lines(texts(lines@).take(i as int)),
        decreases lines.len() - i,
    {
        assert(texts(lines@).take(i + 1).drop_last() =~= texts(lines@).take(i as int));
        if i > 0 {
            res.append("\n");
        }
        res.append(lines[i].as_str());
        i = i + 1;
    }
    assert(texts(lines@).take(lines.len() as int) =~= texts(lines@));
    res
}

fn line_of(r: &RunSummary) -> (res: String)
    requires
        r.num_keystone_upgrades <= 3,
    ensures
        res@ == run_line(*r),
{
    let mut s = r.short_name.clone();
    s.append(" ");
    let level = u64_decimal(r.mythic_level as u64);
    s.append(level.as_str());
    s.append(plus_marks(r.num_keystone_upgrades));
    s
}

/// Lists the first `count` runs, one per line.
pub fn format_runs(runs: &Vec<RunSummary>, count: usize) -> (res: String)
    requires
        upgrades_marked(runs@),
    ensures
        res@ == runs_text(runs@, count as nat),
{
    if runs.len() == 0 {
        return "No runs".to_string();
    }
    let n = if count < runs.len() { count } else { runs.len() };
    let mut lines: Vec<String> = Vec::new();
    let mut i: usize = 0;
    while i < n
        invariant
            i <= n <= runs.len(),
            upgrades_marked(runs@),
            texts(lines@) == runs@.take(i as int).map_values(|r: RunSummary| run_line(r)),
        decreases n - i,
    {
        let line = line_of(&runs[i]);
        let ghost before = texts(lines@);
        lines.push(line);
        assert(texts(lines@) =~= before.push(run_line(runs@[i as int])));
        assert(runs@.take(i + 1).map_values(|r: RunSummary| run_line(r)) =~= runs@.take(i as int).map_values(
            |r: RunSummary| run_line(r),
        ).push(run_line(runs@[i as int])));
        i = i + 1;
    }
    join_with_newlines(&lines)
}

/// Whether a run of dungeon `name` is among `kept`.
pub open spec fn has_dungeon(kept: Seq<RunSummary>, name: Seq<char>) -> bool {
    exists|i: int| 0 <= i < kept.len() && (#[trigger] kept[i]).short_name@ == name
}

/// The best run of each dungeon: runs are taken in order, the first of each
/// dungeon kept, until `limit` dungeons have one.
pub open spec fn best_per_dungeon(runs: Seq<RunSummary>, limit: nat) -> Seq<RunSummary>
    decreases runs.len(),
{
    if runs.len() == 0 {
        Seq::empty()
    } else {
        let kept = best_per_dungeon(runs.drop_last(), limit);
        if kept.len() >= limit || has_dungeon(kept, runs.last().short_name@) {
            kept
        } else {
            kept.push(runs.last())
        }
    }
}

/// The widest of the dungeon names, in bytes.
pub open spec fn widest(kept: Seq<RunSummary>) -> nat
    decreases kept.len(),
{
    if kept.len() == 0 {
        0
    } else {
        let w = byte_len(kept.last().short_name@);
        let rest = widest(kept.drop_last());
        if w > rest { w } else { rest }
    }
}

/// `s` padded with spaces to `width` characters.
pub open spec fn padded(s: Seq<char>, width: nat) -> Seq<char> {
    if s.len() < width {
        s + Seq::new((width - s.len()) as nat, |i: int| ' ')
    } else {
        s
    }
}

/// A best-run line: the dungeon name padded to `width` in backquotes, then the
/// level and upgrade marks.
pub open spec fn best_line(r: RunSummary, width: nat) -> Seq<char> {
    "`"@ + padded(r.short_name@, width) + "` "@ + decimal(r.mythic_level as nat) + plusses(r.num_keystone_upgrades as int)
}

/// The best-runs listing's lines, before ordering.
pub open spec fn best_lines(runs: Seq<RunSummary>, limit: nat) -> Seq<Seq<char>> {
    let kept = best_per_dungeon(runs, limit);
    kept.map_values(|r: RunSummary| best_line(r, widest(kept)))
}

fn pad_to(s: &str, width: usize) -> (res: String)
    ensures
        res@ == padded(s@, width as nat),
{
    let v = chars_of(s);
    let mut res = s.to_string();
    if v.len() < width {
        let mut k: usize = v.len();
        while k < width
            invariant
                v.len() <= k <= width,
                v@ == s@,
                res@ == s@ + Seq::new((k - v.len()) as nat, |i: int| ' '),
            decreases width - k,
        {
            push_char(&mut res, ' ');
            assert(res@ =~= s@ + Seq::new((k + 1 - v.len()) as nat, |i: int| ' '));
            k = k + 1;
        }
    }
    res
}

/// The best run of each dungeon, one line each in text order: "No runs" where
/// there are no runs; `dungeons` is how many dungeons the season has.
pub fn best_runs(runs: &Vec<RunSummary>, dungeons: usize) -> (res: String)
    requires
        upgrades_marked(runs@),
    ensures
        runs@.len() == 0 ==> res@ == "No runs"@,
        runs@.len() > 0 ==> exists|lines: Seq<Seq<char>>|
            sorted_texts(lines) && lines.to_multiset() =~= best_lines(runs@, dungeons as nat).to_multiset()
                && res@ == join_lines(lines),
{
    if runs.len() == 0 {
        return "No runs".to_string();
    }
    let mut kept: Vec<usize> = Vec::new();
    let ghost mut kept_runs: Seq<RunSummary> = Seq::empty();
    let mut width: usize = 0;
    let mut i: usize = 0;
    loop
        invariant_except_break
            i <= runs.len(),
            kept_runs == best_per_dungeon(runs@.take(i as int), dungeons as nat),
        invariant
            kept@.len() == kept_runs.len(),
            kept@.len() <= dungeons,
            forall|k: int| 0 <= k < kept@.len() ==> #[trigger] kept@[k] < runs.len() && runs@[kept@[k] as int] == kept_runs[k],
            width == widest(kept_runs),
            upgrades_marked(runs@),
        ensures
            kept_runs == best_per_dungeon(runs@, dungeons as nat),
        decreases runs.len() - i,
    {
        if i >= runs.len() {
            assert(runs@.take(i as int) =~= runs@);
            break;
        }
        assert(runs@.take(i + 1).drop_last() =~= runs@.take(i as int));
        if kept.len() == dungeons {
            proof {
                lemma_best_stops(runs@, dungeons as nat, i as int);
            }
            break;
        }
        let name = runs[i].short_name.as_str();
        let mut found = false;
        let mut k: usize = 0;
        while k < kept.len()
            invariant
                k <= kept@.len(),
                kept@.len() == kept_runs.len(),
                forall|j: int| 0 <= j < kept@.len() ==> #[trigger] kept@[j] < runs.len() && runs@[kept@[j] as int] == kept_runs[j],
                found == exists|j: int| 0 <= j < k && (#[trigger] kept_runs[j]).short_name@ == name@,
            decreases kept@.len() - k,
        {
            if crate::text::same_text(runs[kept[k]].short_name.as_str(), name) {
                found = true;
            }
            k = k + 1;
        }
        assert(runs@.take(i + 1).last() == runs@[i as int]);
        assert(found == has_dungeon(kept_runs, runs@[i as int].short_name@));
        if !found {
            kept.push(i);
            let w = name.len();
            if w > width {
                width = w;
            }
            proof {
                assert(kept_runs.push(runs@[i as int]).drop_last() =~= kept_runs);
                kept_runs = kept_runs.push(runs@[i as int]);
            }
        }
        i = i + 1;
    }
    let mut lines: Vec<String> = Vec::new();
    let mut j: usize = 0;
    while j < kept.len()
        invariant
            j <= kept@.len(),
            kept@.len() == kept_runs.len(),
            forall|k: int| 0 <= k < kept@.len() ==> #[trigger] kept@[k] < runs.len() && runs@[kept@[k] as int] == kept_runs[k],
            width == widest(kept_runs),
            upgrades_marked(runs@),
            texts(lines@) == kept_runs.take(j as int).map_values(|r: RunSummary| best_line(r, width as nat)),
        decreases kept@.len() - j,
    {
        let r = &runs[kept[j]];
        let mut s = "`".to_string();
        let p = pad_to(r.short_name.as_str(), width);
        s.append(p.as_str());
        s.append("` ");
        let level = u64_decimal(r.mythic_level as u64);
        s.append(level.as_str());
        s.append(plus_marks(r.num_keystone_upgrades));
        let ghost before = texts(lines@);
        assert(s@ == best_line(kept_runs[j as int], width as nat));
        lines.push(s);
        assert(texts(lines@) =~= before.push(best_line(kept_runs[j as int], width as nat)));
        assert(kept_runs.take(j + 1).map_values(|r: RunSummary| best_line(r, width as nat)) =~= kept_runs.take(
            j as int,
        ).map_values(|r: RunSummary| best_line(r, width as nat)).push(best_line(kept_runs[j as int], width as nat)));
        j = j + 1;
    }
    assert(kept_runs.take(kept@.len() as int) =~= kept_runs);
    let sorted = sort_texts(lines);
    let res = join_with_newlines(&sorted);
    assert(sorted_texts(texts(sorted@)) && texts(sorted@).to_multiset() =~= best_lines(runs@, dungeons as nat).to_multiset()
        && res@ == join_lines(texts(sorted@)));
    res
}

proof fn lemma_best_stops(runs: Seq<RunSummary>, limit: nat, i: int)
    requires
        0 <= i <= runs.len(),
        best_per_dungeon(runs.take(i), limit).len() >= limit,
    ensures
        best_per_dungeon(runs, limit) == best_per_dungeon(runs.take(i), limit),
    decreases runs.len() - i,
{
    if i < runs.len() {
        assert(runs.drop_last().take(i) =~= runs.take(i));
        lemma_best_stops(runs.drop_last(), limit, i);
        lemma_best_len_grows(runs.drop_last(), limit, i);
    } else {
        assert(runs.take(i) =~= runs);
    }
}

proof fn lemma_best_len_grows(runs: Seq<RunSummary>, limit: nat, i: int)
    requires
        0 <= i <= runs.len(),
    ensures
        best_per_dungeon(runs.take(i), limit).len() <= best_per_dungeon(runs, limit).len(),
    decreases runs.len() - i,
{
    if i < runs.len() {
        lemma_best_len_grows(runs.drop_last(), limit, i);
        assert(runs.drop_last().take(i) =~= runs.take(i));
    } else {
        assert(runs.take(i) =~= runs);
    }
}

} // verus!
