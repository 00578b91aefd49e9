//! Session transcripts: first user message, timestamps, ordering.

use vstd::prelude::*;
use crate::text::{contains_seq, contains_str, starts_with, starts_with_chars, chars_of, slice_chars, string_of,
    same_str};

verus! {

/// The fields of a transcript line that the listing reads.
pub struct EntryFields {
    /// `message.role`.
    pub role: Option<String>,
    /// `message.content`, when it is a string.
    pub content: Option<String>,
    /// `timestamp`.
    pub timestamp: Option<String>,
}

/// Whether a user message is one the user typed: not the local-command
/// caveat, and not a recorded command or its output.
pub open spec fn typed_by_user(content: Seq<char>) -> bool {
    &&& !contains_seq(content, "Caveat: The messages below were generated by the user while running local commands"@)
    &&& !starts_with(content, "<command-name>"@)
    &&& !starts_with(content, "<local-command-stdout>"@)
}

/// Whether a transcript line holds a first-user-message candidate.
pub open spec fn is_candidate(e: EntryFields) -> bool {
    &&& e.role matches Some(r) && r@ == "user"@
    &&& e.content matches Some(c) && typed_by_user(c@)
}

fn begins_with(s: &str, p: &str) -> (r: bool)
    ensures
        r == starts_with(s@, p@),
{
    let a = chars_of(s);
    let b = chars_of(p);
    starts_with_chars(&a, &b)
}

/// Whether a transcript line holds a first-user-message candidate.
pub fn is_first_message_candidate(e: &EntryFields) -> (r: bool)
    ensures
        r == is_candidate(*e),
{
    let user = match &e.role {
        Some(r) => same_str(r.as_str(), "user"),
        None => false,
    };
    if !user {
        return false;
    }
    match &e.content {
        Some(c) => !contains_str(
            c.as_str(),
            "Caveat: The messages below were generated by the user while running local commands",
        ) && !begins_with(c.as_str(), "<command-name>") && !begins_with(c.as_str(), "<local-command-stdout>"),
        None => false,
    }
}

/// The first message the user typed in a transcript, with its timestamp.
pub fn extract_first_user_message(entries: &Vec<EntryFields>) -> (r: (Option<String>, Option<String>))
    ensures
        r.0 is None ==> r.1 is None && forall|i: int| 0 <= i < entries@.len() ==> !is_candidate(#[trigger] entries@[i]),
        r.0 is Some ==> exists|i: int| 0 <= i < entries@.len() && is_candidate(#[trigger] entries@[i]) && (forall|j: int|
            0 <= j < i ==> !is_candidate(#[trigger] entries@[j])) && entries@[i].content == r.0 && entries@[i].timestamp
            == r.1,
{
    let mut i: usize = 0;
    while i < entries.len()
        invariant
            i <= entries.len(),
            forall|j: int| 0 <= j < i ==> !is_candidate(#[trigger] entries@[j]),
        decreases entries.len() - i,
    {
        if is_first_message_candidate(&entries[i]) {
            let e = &entries[i];
            let content = match &e.content {
                Some(c) => Some(c.clone()),
                None => None,
            };
            let stamp = match &e.timestamp {
                Some(t) => Some(t.clone()),
                None => None,
            };
            assert(is_candidate(entries@[i as int]));
            return (content, stamp);
        }
        i = i + 1;
    }
    (None, None)
}

/// A path without the Windows long-path prefix `\\?\`.
pub open spec fn without_long_prefix(p: Seq<char>) -> Seq<char> {
    if starts_with(p, seq!['\\', '\\', '?', '\\']) { p.subrange(4, p.len() as int) } else { p }
}

/// Drops the Windows long-path prefix `\\?\` from a path.
pub fn strip_long_path_prefix(path: &str) -> (r: String)
    ensures
        r@ == without_long_prefix(path@),
{
    let v = chars_of(path);
    let mut p: Vec<char> = Vec::new();
    p.push('\\');
    p.push('\\');
    p.push('?');
    p.push('\\');
    assert(p@ =~= seq!['\\', '\\', '?', '\\']);
    if starts_with_chars(&v, &p) {
        string_of(&slice_chars(&v, 4, v.len()))
    } else {
        string_of(&v)
    }
}

/// Seconds between the synthetic timestamps of consecutive old messages.
pub const SYNTHETIC_SPACING_SECS: u64 = 5;

/// How far before the file's modification time message `index` of `count`
/// is stamped, when it has no timestamp: the last at the time itself, each
/// earlier one a spacing before (saturating).
pub fn synthetic_offset_secs(count: usize, index: usize) -> (r: u64)
    requires
        index < count,
    ensures
        r == (if (count - index - 1) * 5 > u64::MAX { u64::MAX as int } else { (count - index - 1) * 5 }),
{
    let back = (count - index - 1) as u64;
    if back > u64::MAX / SYNTHETIC_SPACING_SECS {
        u64::MAX
    } else {
        back * SYNTHETIC_SPACING_SECS
    }
}

/// What chrono's `to_rfc3339` writes for the UTC instant `secs` seconds
/// after the epoch, or `None` when chrono cannot represent it.
pub uninterp spec fn rfc3339_of(secs: i64) -> Option<Seq<char>>;

/// Relies on `chrono::DateTime::<Utc>::from_timestamp` (`None` out of range)
/// and `DateTime::to_rfc3339`.
#[verifier::external_body]
fn rfc3339_utc(secs: i64) -> (r: Option<String>)
    ensures
        match r {
            Some(t) => rfc3339_of(secs) == Some(t@),
            None => rfc3339_of(secs) is None,
        },
{
    chrono::DateTime::<chrono::Utc>::from_timestamp(secs, 0).map(|d| d.to_rfc3339())
}

/// The synthetic timestamp of message `index` of `count` of a transcript
/// whose file changed at `base_secs`: spaced back from that time, oldest
/// earliest; `None` when the instant cannot be written.
pub fn synthetic_timestamp(base_secs: i64, count: usize, index: usize) -> (r: Option<String>)
    requires
        index < count,
    ensures
        ({
            let back = if (count - index - 1) * 5 > u64::MAX { u64::MAX as int } else { (count - index - 1) * 5 };
            let t = base_secs - back;
            &&& t < i64::MIN ==> r is None
            &&& t >= i64::MIN ==> match r {
                Some(s) => rfc3339_of(t as i64) == Some(s@),
                None => rfc3339_of(t as i64) is None,
            }
        }),
{
    let back = synthetic_offset_secs(count, index);
    let t: i128 = base_secs as i128 - back as i128;
    if t < i64::MIN as i128 {
        return None;
    }
    rfc3339_utc(t as i64)
}

/// Which field a synthetic timestamp goes in.
#[derive(PartialEq, Eq, Structural, Clone, Copy, Debug)]
pub enum StampField {
    /// `sentAt`, for user messages.
    SentAt,
    /// `receivedAt`, for everything else.
    ReceivedAt,
}

/// The timestamp field for a message of type `message_type`.
pub fn stamp_field(message_type: &str) -> (r: StampField)
    ensures
        r == (if message_type@ == "user"@ { StampField::SentAt } else { StampField::ReceivedAt }),
{
    if same_str(message_type, "user") {
        StampField::SentAt
    } else {
        StampField::ReceivedAt
    }
}

/// The largest of `created` and the `mtimes`.
pub open spec fn latest_of(created: u64, mtimes: Seq<u64>) -> u64
    decreases mtimes.len(),
{
    if mtimes.len() == 0 {
        created
    } else {
        let r = latest_of(created, mtimes.drop_last());
        if mtimes.last() > r { mtimes.last() } else { r }
    }
}

/// A project's latest activity: the directory's creation time or the last
/// change of one of its sessions, whichever is later.
pub fn latest_activity(created: u64, mtimes: &Vec<u64>) -> (r: u64)
    ensures
        r == latest_of(created, mtimes@),
        r >= created,
        forall|i: int| 0 <= i < mtimes@.len() ==> r >= #[trigger] mtimes@[i],
{
    let mut best = created;
    let mut i: usize = 0;
    while i < mtimes.len()
        invariant
            i <= mtimes.len(),
            best == latest_of(created, mtimes@.subrange(0, i as int)),
            best >= created,
            forall|k: int| 0 <= k < i ==> best >= #[trigger] mtimes@[k],
        decreases mtimes.len() - i,
    {
        assert(mtimes@.subrange(0, i + 1).drop_last() =~= mtimes@.subrange(0, i as int));
        if mtimes[i] > best {
            best = mtimes[i];
        }
        i = i + 1;
    }
    assert(mtimes@.subrange(0, mtimes.len() as int) =~= mtimes@);
    best
}

/// A session of a project.
pub struct Session {
    pub id: String,
    pub project_id: String,
    pub project_path: String,
    /// The raw text of the session's todo file, if any.
    pub todo_data: Option<String>,
    /// Unix seconds.
    pub created_at: u64,
    pub first_message: Option<String>,
    pub message_timestamp: Option<String>,
}

/// Whether sessions come newest first.
pub open spec fn newest_first(s: Seq<Session>) -> bool {
    forall|i: int, j: int| 0 <= i < j < s.len() ==> s[i].created_at >= s[j].created_at
}

/// Orders sessions newest first; sessions created together keep their order.
pub fn sort_sessions(v: Vec<Session>) -> (r: Vec<Session>)
    ensures
        newest_first(r@),
        r@.to_multiset() == v@.to_multiset(),
{
    broadcast use vstd::seq_lib::group_to_multiset_ensures;
    let mut src = v;
    let mut out: Vec<Session> = Vec::new();
    assert(out@.to_multiset().add(src@.to_multiset()) =~= v@.to_multiset());
    while src.len() > 0
        invariant
            newest_first(out@),
            out@.to_multiset().add(src@.to_multiset()) == v@.to_multiset(),
        decreases src.len(),
    {
        let ghost before = src@;
        let p = src.remove(0);
        let mut pos: usize = 0;
        while pos < out.len() && out[pos].created_at >= p.created_at
            invariant
                pos <= out.len(),
                forall|m: int| 0 <= m < pos ==> out@[m].created_at >= p.created_at,
            decreases out.len() - pos,
        {
            pos = pos + 1;
        }
        let ghost prev = out@;
        out.insert(pos, p);
        assert(newest_first(out@)) by {
            assert forall|a: int, b: int| 0 <= a < b < out@.len() implies out@[a].created_at >= out@[b].created_at by {
                if b == pos {
                    assert(out@[a] == prev[a]);
                } else if a == pos {
                    assert(out@[b] == prev[b - 1]);
                    assert(prev[pos as int].created_at < p.created_at);
                    if b - 1 > pos {
                        assert(prev[pos as int].created_at >= prev[b - 1].created_at);
                    }
                } else if a < pos {
                    assert(out@[a] == prev[a]);
                    if b < pos {
                        assert(out@[b] == prev[b]);
                    } else {
                        assert(out@[b] == prev[b - 1]);
                    }
                } else {
                    assert(out@[a] == prev[a - 1]);
                    assert(out@[b] == prev[b - 1]);
                }
            }
        }
        proof {
            vstd::seq_lib::to_multiset_insert(prev, pos as int, p);
            vstd::seq_lib::to_multiset_remove(before, 0);
            vstd::seq_lib::to_multiset_contains(before, p);
        }
        assert(before[0] == p);
        assert(out@.to_multiset().add(src@.to_multiset()) =~= prev.to_multiset().add(before.to_multiset()));
    }
    out
}

} // verus!
