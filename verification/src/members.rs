//! Server members in replies: the name a member goes by, leaderboard lines,
//! the count options of the leaderboard commands, and message word counts.

use vstd::prelude::*;
use crate::text::{count_char, count_occurrences, decimal, grouped_signed, i64_decimal, parse_int, parse_u64, signed_decimal, lemma_parse_unsigned_nonneg};

verus! {

/// What is known of a user when naming them: the server member's nickname and
/// account name, where the user is a member; else the account name fetched, if
/// the fetch worked.
pub open spec fn display_name_text(member: Option<(Option<Seq<char>>, Seq<char>)>, fetched: Option<Seq<char>>) -> Seq<char> {
    match member {
        Some((Some(nick), _)) => nick,
        Some((None, name)) => name,
        None => match fetched {
            Some(name) => name,
            None => "`<UNKNOWN>`"@,
        },
    }
}

/// The name a user goes by in a reply.
pub fn display_name(member: Option<(Option<&str>, &str)>, fetched: Option<&str>) -> (res: String)
    ensures
        res@ == display_name_text(match member {
            Some((nick, name)) => Some((match nick {
                Some(n) => Some(n@),
                None => None,
            }, name@)),
            None => None,
        }, match fetched {
            Some(f) => Some(f@),
            None => None,
        }),
{
    match member {
        Some((Some(nick), _)) => nick.to_string(),
        Some((None, name)) => name.to_string(),
        None => match fetched {
            Some(name) => name.to_string(),
            None => "`<UNKNOWN>`".to_string(),
        },
    }
}

/// A leaderboard line: "<name> — <count>" and a line break.
pub open spec fn leader_line_text(name: Seq<char>, count: int) -> Seq<char> {
    name + " \u{2014} "@ + signed_decimal(count) + "\n"@
}

/// Writes a leaderboard line.
pub fn leader_line(name: &str, count: i64) -> (res: String)
    ensures
        res@ == leader_line_text(name@, count as int),
{
    let mut s = name.to_string();
    s.append(" \u{2014} ");
    let c = i64_decimal(count);
    s.append(c.as_str());
    s.append("\n");
    s
}

/// How many members a leaderboard lists: the option's value, else 5.
pub fn list_limit(option: Option<i64>) -> (res: i64)
    ensures
        res == match option {
            Some(n) => n,
            None => 5,
        },
{
    match option {
        Some(n) => n,
        None => 5,
    }
}

/// The room made for a karma listing: the limit as a `usize` (`None` for a
/// negative limit, which the command refuses).
pub fn listing_capacity(limit: i64) -> (res: Option<usize>)
    ensures
        limit >= 0 && limit <= usize::MAX ==> res == Some(limit as usize),
        limit < 0 || limit > usize::MAX ==> res is None,
{
    if limit < 0 {
        None
    } else if limit as u64 > usize::MAX as u64 {
        None
    } else {
        Some(limit as usize)
    }
}

/// How many members the average-length leaderboard lists: the option's value
/// cut to its low 32 bits, else 5.
pub fn length_list_limit(option: Option<i64>) -> (res: u32)
    ensures
        res == match option {
            Some(n) => (n as int % 0x1_0000_0000) as u32,
            None => 5u32,
        },
{
    match option {
        Some(n) => {
            let r = (n as i128 % 0x1_0000_0000i128 + 0x1_0000_0000i128) % 0x1_0000_0000i128;
            assert(r == n as int % 0x1_0000_0000);
            r as u32
        },
        None => 5,
    }
}

/// The user a `whois` argument names: its digits as a `u64` (`None` for
/// anything else: "Invalid User ID").
pub fn whois_target(arg: &str) -> (res: Option<u64>)
    ensures
        match parse_int(arg@, false) {
            Some(v) => if v <= u64::MAX { res == Some(v as u64) } else { res is None },
            None => res is None,
        },
{
    parse_u64(arg)
}

/// The heading of a command-usage leaderboard.
pub fn usage_heading(command: &str) -> (res: String)
    ensures
        res@ == "usage of `"@ + command@ + "`\n"@,
{
    let mut s = "usage of `".to_string();
    s.append(command);
    s.append("`\n");
    s
}

/// The pattern stored messages are matched with to find uses of a command:
/// the command after a slash, followed by anything.
pub fn usage_pattern(command: &str) -> (res: String)
    ensures
        res@ == "/"@ + command@ + "%"@,
{
    let mut s = "/".to_string();
    s.append(command);
    s.append("%");
    s
}

/// The words of a message: the pieces between single spaces.
pub open spec fn word_count(content: Seq<char>) -> nat {
    count_char(content, ' ') + 1
}

/// A stored message: its author and, where stored, its text.
pub struct MessageRow {
    pub author_id: i64,
    pub content: Option<String>,
}

/// Why the message rows cannot be counted.
#[derive(Debug, PartialEq, Eq, Structural, Clone, Copy)]
pub enum TallyError {
    /// An author ID is negative: "unable to convert user id from db".
    BadUserId,
    /// A message has no text: "missing message content from db".
    MissingContent,
}

/// Whether the rows can be counted: every author ID is not negative and every
/// message has text.
pub open spec fn rows_countable(rows: Seq<MessageRow>) -> bool {
    forall|i: int| 0 <= i < rows.len() ==> (#[trigger] rows[i]).author_id >= 0 && rows[i].content is Some
}

/// What is wrong with a row, if anything: a negative author ID is checked
/// before the text.
pub open spec fn row_error(row: MessageRow) -> Option<TallyError> {
    if row.author_id < 0 {
        Some(TallyError::BadUserId)
    } else if row.content is None {
        Some(TallyError::MissingContent)
    } else {
        None
    }
}

/// The error of the first row that cannot be counted, if any.
pub open spec fn first_row_error(rows: Seq<MessageRow>) -> Option<TallyError>
    decreases rows.len(),
{
    if rows.len() == 0 {
        None
    } else {
        match first_row_error(rows.drop_last()) {
            Some(e) => Some(e),
            None => row_error(rows.last()),
        }
    }
}

/// Once a prefix of the rows holds an error, the first error of all the rows
/// is that prefix's.
proof fn lemma_first_error_stays(rows: Seq<MessageRow>, j: int)
    requires
        0 <= j <= rows.len(),
        first_row_error(rows.take(j)) is Some,
    ensures
        first_row_error(rows) == first_row_error(rows.take(j)),
    decreases rows.len() - j,
{
    if j == rows.len() {
        assert(rows.take(j) =~= rows);
    } else {
        assert(rows.take(j + 1).drop_last() =~= rows.take(j));
        lemma_first_error_stays(rows, j + 1);
    }
}

/// The messages and words of `user` in the rows.
pub open spec fn user_totals(rows: Seq<MessageRow>, user: int) -> (nat, nat)
    decreases rows.len(),
{
    if rows.len() == 0 {
        (0, 0)
    } else {
        let (m, w) = user_totals(rows.drop_last(), user);
        if rows.last().author_id == user {
            (m + 1, w + word_count(rows.last().content.unwrap()@))
        } else {
            (m, w)
        }
    }
}

/// Whether `user` wrote one of the rows.
pub open spec fn wrote(rows: Seq<MessageRow>, user: int) -> bool {
    exists|i: int| 0 <= i < rows.len() && (#[trigger] rows[i]).author_id == user
}

/// Whether the tally holds each author of the rows once, with their message
/// and word counts.
pub open spec fn tally_of(rows: Seq<MessageRow>, t: Seq<(u64, u64, u64)>) -> bool {
    &&& forall|k: int| 0 <= k < t.len() ==> wrote(rows, (#[trigger] t[k]).0 as int)
        && user_totals(rows, t[k].0 as int) == (t[k].1 as nat, t[k].2 as nat)
    &&& forall|u: int| wrote(rows, u) ==> exists|k: int| 0 <= k < t.len() && (#[trigger] t[k]).0 == u
    &&& forall|a: int, b: int| 0 <= a < b < t.len() ==> t[a].0 != t[b].0
}

proof fn lemma_step(rows: Seq<MessageRow>, i: int)
    requires
        0 <= i < rows.len(),
    ensures
        rows.take(i + 1).drop_last() == rows.take(i),
        rows.take(i + 1).last() == rows[i],
        forall|u: int| #[trigger] wrote(rows.take(i + 1), u) == (wrote(rows.take(i), u) || rows[i].author_id == u),
{
    assert(rows.take(i + 1).drop_last() =~= rows.take(i));
    assert forall|u: int| #[trigger] wrote(rows.take(i + 1), u) == (wrote(rows.take(i), u) || rows[i].author_id == u) by {
        if wrote(rows.take(i + 1), u) {
            let j = choose|j: int| 0 <= j < rows.take(i + 1).len() && (#[trigger] rows.take(i + 1)[j]).author_id == u;
            if j < i {
                assert(rows.take(i)[j].author_id == u);
            }
        }
        if wrote(rows.take(i), u) {
            let j = choose|j: int| 0 <= j < rows.take(i).len() && (#[trigger] rows.take(i)[j]).author_id == u;
            assert(rows.take(i + 1)[j].author_id == u);
        }
        if rows[i].author_id == u {
            assert(rows.take(i + 1)[i].author_id == u);
        }
    }
}

proof fn lemma_unwritten_totals(rows: Seq<MessageRow>, user: int)
    requires
        !wrote(rows, user),
    ensures
        user_totals(rows, user) == (0nat, 0nat),
    decreases rows.len(),
{
    if rows.len() > 0 {
        assert(!wrote(rows.drop_last(), user)) by {
            if wrote(rows.drop_last(), user) {
                let j = choose|j: int| 0 <= j < rows.drop_last().len() && (#[trigger] rows.drop_last()[j]).author_id == user;
                assert(rows[j].author_id == user);
            }
        }
        lemma_unwritten_totals(rows.drop_last(), user);
        assert(rows.last() == rows[rows.len() - 1]);
    }
}

/// Counts each author's messages and words: (author, messages, words), each
/// author once; where a row cannot be counted, the error of the first such row.
pub fn tally_words(rows: &Vec<MessageRow>) -> (res: Result<Vec<(u64, u64, u64)>, TallyError>)
    requires
        rows@.len() < 0x1_0000_0000,
        forall|i: int| 0 <= i < rows@.len() ==> ((#[trigger] rows@[i]).content matches Some(c) ==> c@.len() < 0x1_0000_0000),
    ensures
        res is Ok <==> rows_countable(rows@),
        res matches Ok(t) ==> tally_of(rows@, t@),
        res matches Err(e) ==> first_row_error(rows@) == Some(e),
{
    let mut totals: Vec<(u64, u64, u64)> = Vec::new();
    let mut i: usize = 0;
    assert(rows@.take(0) =~= Seq::<MessageRow>::empty());
    while i < rows.len()
        invariant
            i <= rows.len(),
            rows@.len() < 0x1_0000_0000,
            forall|j: int| 0 <= j < rows@.len() ==> ((#[trigger] rows@[j]).content matches Some(c) ==> c@.len() < 0x1_0000_0000),
            rows_countable(rows@.take(i as int)),
            first_row_error(rows@.take(i as int)) is None,
            tally_of(rows@.take(i as int), totals@),
            forall|k: int| 0 <= k < totals@.len() ==> (#[trigger] totals@[k]).1 <= i && totals@[k].2 <= i * 0x1_0000_0001,
        decreases rows.len() - i,
    {
        let row = &rows[i];
        proof {
            lemma_step(rows@, i as int);
        }
        if row.author_id < 0 {
            assert(!rows_countable(rows@)) by {
                assert(rows@[i as int].author_id < 0);
            }
            proof {
                lemma_first_error_stays(rows@, (i + 1) as int);
            }
            return Err(TallyError::BadUserId);
        }
        let words = match &row.content {
            Some(c) => {
                proof {
                    crate::text::lemma_count_char_le_len(c@, ' ');
                    assert(rows@[i as int].content matches Some(c) ==> c@.len() < 0x1_0000_0000);
                }
                count_occurrences(c.as_str(), ' ') as u64 + 1
            },
            None => {
                assert(!rows_countable(rows@)) by {
                    assert(rows@[i as int].content is None);
                }
                proof {
                    lemma_first_error_stays(rows@, (i + 1) as int);
                }
                return Err(TallyError::MissingContent);
            },
        };
        let user = row.author_id as u64;
        let mut k: usize = 0;
        while k < totals.len() && totals[k].0 != user
            invariant
                k <= totals@.len(),
                forall|j: int| 0 <= j < k ==> (#[trigger] totals@[j]).0 != user,
            decreases totals@.len() - k,
        {
            k = k + 1;
        }
        let ghost old_t = totals@;
        let ghost pre = rows@.take(i as int);
        let ghost post = rows@.take(i + 1);
        if k < totals.len() {
            let (u, m, w) = totals[k];
            totals.set(k, (u, m + 1, w + words));
        } else {
            totals.push((user, 1, words));
        }
        proof {
            assert(rows_countable(post)) by {
                assert forall|j: int| 0 <= j < post.len() implies (#[trigger] post[j]).author_id >= 0 && post[j].content is Some by {
                    if j < i {
                        assert(pre[j] == post[j]);
                    }
                }
            }
            assert(word_count(rows@[i as int].content.unwrap()@) == words);
            assert(user_totals(post, user as int).0 == user_totals(pre, user as int).0 + 1);
            assert(user_totals(post, user as int).1 == user_totals(pre, user as int).1 + words);
            assert(wrote(post, user as int));
            let t = totals@;
            assert forall|kk: int| 0 <= kk < t.len() implies wrote(post, (#[trigger] t[kk]).0 as int)
                && user_totals(post, t[kk].0 as int) == (t[kk].1 as nat, t[kk].2 as nat) by {
                if kk < old_t.len() && kk != k {
                    assert(t[kk] == old_t[kk]);
                    assert(old_t[kk].0 != user);
                    assert(wrote(pre, old_t[kk].0 as int));
                    assert(user_totals(post, t[kk].0 as int) == user_totals(pre, t[kk].0 as int));
                } else if kk == k && k < old_t.len() {
                    assert(old_t[kk].0 == user);
                    assert(wrote(pre, old_t[kk].0 as int));
                } else {
                    assert(kk == old_t.len());
                    assert(!wrote(pre, user as int)) by {
                        if wrote(pre, user as int) {
                            let j = choose|j: int| 0 <= j < old_t.len() && (#[trigger] old_t[j]).0 == user;
                            assert(old_t[j].0 != user);
                        }
                    }
                    assert(user_totals(pre, user as int) == (0nat, 0nat)) by {
                        lemma_unwritten_totals(pre, user as int);
                    }
                }
            }
            assert forall|u: int| wrote(post, u) implies exists|kk: int| 0 <= kk < t.len() && (#[trigger] t[kk]).0 == u by {
                if u == user {
                    assert(t[k as int].0 == u);
                } else {
                    assert(wrote(pre, u));
                    let kk = choose|kk: int| 0 <= kk < old_t.len() && (#[trigger] old_t[kk]).0 == u;
                    assert(t[kk].0 == u);
                }
            }
            assert forall|a: int, b: int| 0 <= a < b < t.len() implies t[a].0 != t[b].0 by {
                if b == old_t.len() {
                    assert(old_t[a].0 != user);
                }
            }
        }
        i = i + 1;
    }
    assert(rows@.take(rows@.len() as int) =~= rows@);
    Ok(totals)
}

} // verus!
