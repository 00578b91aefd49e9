//! The project listing: merging directories that name the same path.

use vstd::prelude::*;
use crate::codec::{normalized, normalize_path_for_comparison};
use crate::text::{contains_seq, contains_chars, chars_of, same_str};

verus! {

/// Whether a character has the Unicode `Uppercase` property.
pub uninterp spec fn upper_case(c: char) -> bool;

/// Relies on `char::is_uppercase`, which tests the Unicode `Uppercase`
/// property; among ASCII characters only `A` to `Z` have it.
#[verifier::external_body]
fn is_upper(c: char) -> (r: bool)
    ensures
        r == upper_case(c),
        (c as u32) < 128 ==> r == ('A' <= c <= 'Z'),
{
    c.is_uppercase()
}

/// A project directory under the projects root.
pub struct Project {
    /// The directory name.
    pub id: String,
    /// The working directory the sessions ran in.
    pub path: String,
    /// Session ids: the stems of the `.jsonl` files.
    pub sessions: Vec<String>,
    /// Latest activity, in unix seconds.
    pub created_at: u64,
}

/// The mathematical content of a [`Project`].
pub struct ProjectView {
    pub id: Seq<char>,
    pub path: Seq<char>,
    pub sessions: Seq<Seq<char>>,
    pub created_at: u64,
}

/// The character sequences of a list of strings.
pub open spec fn strs(v: Seq<String>) -> Seq<Seq<char>> {
    v.map_values(|s: String| s@)
}

impl View for Project {
    type V = ProjectView;

    open spec fn view(&self) -> ProjectView {
        ProjectView {
            id: self.id@,
            path: self.path@,
            sessions: strs(self.sessions@),
            created_at: self.created_at,
        }
    }
}

/// The views of a list of projects.
pub open spec fn views(v: Seq<Project>) -> Seq<ProjectView> {
    v.map_values(|p: Project| p@)
}

/// The bucket a project falls in: its normalized path.
pub open spec fn key_of(p: ProjectView) -> Seq<char> {
    normalized(p.path)
}

pub open spec fn has_upper(s: Seq<char>) -> bool {
    exists|i: int| 0 <= i < s.len() && upper_case(#[trigger] s[i])
}

/// Whether directory name `new` is a better id than `old` for one project,
/// by three tie-breaks in order: shorter; else free of `--` where `old` has
/// it; else, with `--` alike, having upper case where `old` has none.
pub open spec fn prefers_id(new: Seq<char>, old: Seq<char>) -> bool {
    let dd = seq!['-', '-'];
    ||| new.len() < old.len()
    ||| (new.len() == old.len() && !contains_seq(new, dd) && contains_seq(old, dd))
    ||| (new.len() == old.len() && contains_seq(new, dd) == contains_seq(old, dd) && has_upper(new) && !has_upper(old))
}

/// `a` followed by the items of `b` that are not already there, in order.
pub open spec fn add_new(a: Seq<Seq<char>>, b: Seq<Seq<char>>) -> Seq<Seq<char>>
    decreases b.len(),
{
    if b.len() == 0 {
        a
    } else {
        let r = add_new(a, b.drop_last());
        if r.contains(b.last()) {
            r
        } else {
            r.push(b.last())
        }
    }
}

/// Entry `e` after absorbing duplicate `p`.
pub open spec fn combine(e: ProjectView, p: ProjectView) -> ProjectView {
    ProjectView {
        id: if prefers_id(p.id, e.id) { p.id } else { e.id },
        path: e.path,
        sessions: add_new(e.sessions, p.sessions),
        created_at: if p.created_at > e.created_at { p.created_at } else { e.created_at },
    }
}

/// A project seen for the first time, its sessions without repeats.
pub open spec fn fresh(p: ProjectView) -> ProjectView {
    ProjectView { id: p.id, path: p.path, sessions: add_new(Seq::empty(), p.sessions), created_at: p.created_at }
}

/// The last index of `acc` whose bucket is `k`, or -1.
pub open spec fn key_index(acc: Seq<ProjectView>, k: Seq<char>) -> int
    decreases acc.len(),
{
    if acc.len() == 0 {
        -1
    } else if key_of(acc.last()) == k {
        acc.len() - 1
    } else {
        key_index(acc.drop_last(), k)
    }
}

/// The projects of `s` with each bucket merged into the entry of its first member.
pub open spec fn merged(s: Seq<ProjectView>) -> Seq<ProjectView>
    decreases s.len(),
{
    if s.len() == 0 {
        Seq::empty()
    } else {
        let acc = merged(s.drop_last());
        let p = s.last();
        let j = key_index(acc, key_of(p));
        if j >= 0 {
            acc.update(j, combine(acc[j], p))
        } else {
            acc.push(fresh(p))
        }
    }
}

/// The sessions of all members of bucket `k` in `s`.
pub open spec fn bucket_sessions(s: Seq<ProjectView>, k: Seq<char>) -> Set<Seq<char>>
    decreases s.len(),
{
    if s.len() == 0 {
        Set::empty()
    } else {
        let rest = bucket_sessions(s.drop_last(), k);
        if key_of(s.last()) == k {
            rest.union(s.last().sessions.to_set())
        } else {
            rest
        }
    }
}

/// The latest activity among the members of bucket `k` in `s` (0 if none).
pub open spec fn bucket_latest(s: Seq<ProjectView>, k: Seq<char>) -> u64
    decreases s.len(),
{
    if s.len() == 0 {
        0
    } else {
        let rest = bucket_latest(s.drop_last(), k);
        if key_of(s.last()) == k && s.last().created_at > rest {
            s.last().created_at
        } else {
            rest
        }
    }
}

/// The path of the first member of bucket `k` in `s`; `None` for an empty bucket.
pub open spec fn bucket_path(s: Seq<ProjectView>, k: Seq<char>) -> Option<Seq<char>>
    decreases s.len(),
{
    if s.len() == 0 {
        None
    } else {
        let rest = bucket_path(s.drop_last(), k);
        if rest is None && key_of(s.last()) == k { Some(s.last().path) } else { rest }
    }
}

/// The id that bucket `k` of `s` ends up with: each member in turn replaces
/// the current one when [`prefers_id`] says so; `None` for an empty bucket.
pub open spec fn bucket_id(s: Seq<ProjectView>, k: Seq<char>) -> Option<Seq<char>>
    decreases s.len(),
{
    if s.len() == 0 {
        None
    } else {
        let rest = bucket_id(s.drop_last(), k);
        if key_of(s.last()) != k {
            rest
        } else {
            match rest {
                None => Some(s.last().id),
                Some(e) => if prefers_id(s.last().id, e) { Some(s.last().id) } else { Some(e) },
            }
        }
    }
}

/// Whether `s` is ordered by latest activity, most recent first.
pub open spec fn by_activity(s: Seq<Project>) -> bool {
    forall|i: int, j: int| 0 <= i < j < s.len() ==> s[i].created_at >= s[j].created_at
}

/// Whether directory name `candidate` should replace `existing` as the id of a
/// merged project.
pub fn prefer_id(candidate: &str, existing: &str) -> (r: bool)
    ensures
        r == prefers_id(candidate@, existing@),
{
    let a = chars_of(candidate);
    let b = chars_of(existing);
    if a.len() < b.len() {
        return true;
    }
    if a.len() != b.len() {
        return false;
    }
    let mut dd: Vec<char> = Vec::new();
    dd.push('-');
    dd.push('-');
    assert(dd@ =~= seq!['-', '-']);
    let a_dd = contains_chars(&a, &dd);
    let b_dd = contains_chars(&b, &dd);
    if !a_dd && b_dd {
        return true;
    }
    a_dd == b_dd && any_upper(&a) && !any_upper(&b)
}

fn any_upper(v: &Vec<char>) -> (r: bool)
    ensures
        r == has_upper(v@),
{
    let mut i: usize = 0;
    while i < v.len()
        invariant
            i <= v.len(),
            forall|m: int| 0 <= m < i ==> !upper_case(#[trigger] v@[m]),
        decreases v.len() - i,
    {
        if is_upper(v[i]) {
            return true;
        }
        i = i + 1;
    }
    false
}

/// Whether `v` holds a string equal to `s`.
pub fn contains_string(v: &Vec<String>, s: &str) -> (r: bool)
    ensures
        r == strs(v@).contains(s@),
{
    let mut i: usize = 0;
    while i < v.len()
        invariant
            i <= v.len(),
            forall|m: int| 0 <= m < i ==> v@[m]@ != s@,
        decreases v.len() - i,
    {
        if same_str(v[i].as_str(), s) {
            assert(strs(v@)[i as int] == s@);
            return true;
        }
        i = i + 1;
    }
    assert forall|m: int| 0 <= m < strs(v@).len() implies strs(v@)[m] != s@ by {
        assert(strs(v@)[m] == v@[m]@);
    }
    false
}

/// Appends to `dst` the strings of `src` that it does not hold yet.
pub fn append_missing(dst: &mut Vec<String>, src: &Vec<String>)
    ensures
        strs(final(dst)@) == add_new(strs(old(dst)@), strs(src@)),
{
    let mut i: usize = 0;
    while i < src.len()
        invariant
            i <= src.len(),
            strs(dst@) == add_new(strs(old(dst)@), strs(src@).subrange(0, i as int)),
        decreases src.len() - i,
    {
        let s = src[i].clone();
        assert(strs(src@).subrange(0, i + 1).drop_last() =~= strs(src@).subrange(0, i as int));
        assert(strs(src@).subrange(0, i + 1).last() == s@);
        if !contains_string(dst, s.as_str()) {
            dst.push(s);
            assert(strs(dst@) =~= add_new(strs(old(dst)@), strs(src@).subrange(0, i as int)).push(s@));
        }
        i = i + 1;
    }
    assert(strs(src@).subrange(0, src.len() as int) =~= strs(src@));
}

/// Merges the projects that share a normalized path, in order of first
/// appearance: sessions are joined without repeats, the latest activity is
/// kept, and the id is the best of the bucket's directory names.
pub fn dedup_projects(all: &Vec<Project>) -> (r: Vec<Project>)
    ensures
        views(r@) == merged(views(all@)),
{
    let mut out: Vec<Project> = Vec::new();
    let mut keys: Vec<String> = Vec::new();
    let mut i: usize = 0;
    while i < all.len()
        invariant
            i <= all.len(),
            views(out@) == merged(views(all@).subrange(0, i as int)),
            keys.len() == out.len(),
            forall|m: int| 0 <= m < keys.len() ==> #[trigger] keys@[m]@ == key_of(out@[m]@),
        decreases all.len() - i,
    {
        let ghost acc = views(out@);
        let ghost pre = views(all@).subrange(0, i + 1);
        assert(pre.drop_last() =~= views(all@).subrange(0, i as int));
        assert(pre.last() == all@[i as int]@);
        let k = normalize_path_for_comparison(all[i].path.as_str());
        let mut j: usize = out.len();
        let mut found = false;
        assert(acc.subrange(0, j as int) =~= acc);
        while j > 0
            invariant_except_break
                j <= out.len(),
                keys.len() == out.len(),
                acc == views(out@),
                forall|m: int| 0 <= m < keys.len() ==> #[trigger] keys@[m]@ == key_of(out@[m]@),
                key_index(acc, k@) == key_index(acc.subrange(0, j as int), k@),
                !found,
            ensures
                found ==> (0 < j <= out.len() && key_index(acc, k@) == j - 1),
                !found ==> key_index(acc, k@) == -1,
            decreases j,
        {
            assert(acc.subrange(0, j as int).drop_last() =~= acc.subrange(0, j - 1));
            assert(acc.subrange(0, j as int).last() == out@[j - 1]@);
            if same_str(keys[j - 1].as_str(), k.as_str()) {
                found = true;
                break;
            }
            j = j - 1;
        }
        if found {
            let j = j - 1;
            let mut e = Project { id: String::new(), path: String::new(), sessions: Vec::new(), created_at: 0 };
            out.set_and_swap(j, &mut e);
            append_missing(&mut e.sessions, &all[i].sessions);
            if all[i].created_at > e.created_at {
                e.created_at = all[i].created_at;
            }
            if prefer_id(all[i].id.as_str(), e.id.as_str()) {
                e.id = all[i].id.clone();
            }
            out.set(j, e);
            assert(views(out@) =~= acc.update(j as int, combine(acc[j as int], all@[i as int]@)));
        } else {
            let mut sessions: Vec<String> = Vec::new();
            assert(strs(sessions@) =~= Seq::<Seq<char>>::empty());
            append_missing(&mut sessions, &all[i].sessions);
            let p = Project {
                id: all[i].id.clone(),
                path: all[i].path.clone(),
                sessions,
                created_at: all[i].created_at,
            };
            out.push(p);
            keys.push(k);
            assert(views(out@) =~= acc.push(fresh(all@[i as int]@)));
        }
        i = i + 1;
    }
    assert(views(all@).subrange(0, all.len() as int) =~= views(all@));
    out
}

/// Orders projects by latest activity, most recent first; projects with equal
/// activity keep their relative order.
pub fn sort_by_activity(v: Vec<Project>) -> (r: Vec<Project>)
    ensures
        by_activity(r@),
        r@.to_multiset() == v@.to_multiset(),
{
    broadcast use vstd::seq_lib::group_to_multiset_ensures;
    let mut src = v;
    let mut out: Vec<Project> = Vec::new();
    assert(out@.to_multiset().add(src@.to_multiset()) =~= v@.to_multiset());
    while src.len() > 0
        invariant
            by_activity(out@),
            out@.to_multiset().add(src@.to_multiset()) == v@.to_multiset(),
        decreases src.len(),
    {
        let ghost before = src@;
        let p = src.remove(0);
        let mut pos: usize = 0;
        while pos < out.len() && out[pos].created_at >= p.created_at
            invariant
                pos <= out.len(),
                forall|m: int| 0 <= m < pos ==> out@[m].created_at >= p.created_at,
            decreases out.len() - pos,
        {
            pos = pos + 1;
        }
        let ghost prev = out@;
        out.insert(pos, p);
        assert(by_activity(out@)) by {
            assert forall|a: int, b: int| 0 <= a < b < out@.len() implies out@[a].created_at >= out@[b].created_at by {
                if b == pos {
                    assert(out@[a] == prev[a]);
                } else if a == pos {
                    assert(out@[b] == prev[b - 1]);
                    assert(prev[pos as int].created_at < p.created_at);
                    if b - 1 > pos {
                        assert(prev[pos as int].created_at >= prev[b - 1].created_at);
                    }
                } else if a < pos {
                    assert(out@[a] == prev[a]);
                    if b < pos {
                        assert(out@[b] == prev[b]);
                    } else {
                        assert(out@[b] == prev[b - 1]);
                    }
                } else {
                    assert(out@[a] == prev[a - 1]);
                    assert(out@[b] == prev[b - 1]);
                }
            }
        }
        proof {
            vstd::seq_lib::to_multiset_insert(prev, pos as int, p);
            vstd::seq_lib::to_multiset_remove(before, 0);
        }
        assert(before.contains(p)) by {
            assert(before[0] == p);
        }
        proof {
            vstd::seq_lib::to_multiset_contains(before, p);
        }
        assert(out@.to_multiset().add(src@.to_multiset()) =~= prev.to_multiset().add(before.to_multiset()));
    }
    out
}

/// Distinct buckets make distinct projects, and a permutation keeps both.
proof fn lemma_perm_keys(r: Seq<Project>, m: Seq<Project>)
    requires
        r.to_multiset() == m.to_multiset(),
        forall|i: int, j: int| 0 <= i < j < m.len() ==> key_of(m[i]@) != key_of(m[j]@),
    ensures
        forall|i: int, j: int| 0 <= i < j < r.len() ==> key_of(r[i]@) != key_of(r[j]@),
        forall|i: int| 0 <= i < r.len() ==> m.contains(#[trigger] r[i]),
        forall|j: int| 0 <= j < m.len() ==> r.contains(#[trigger] m[j]),
{
    broadcast use vstd::seq_lib::group_to_multiset_ensures;
    assert(m.no_duplicates()) by {
        assert forall|i: int, j: int| 0 <= i < m.len() && 0 <= j < m.len() && i != j implies m[i] != m[j] by {
            if i < j {
                assert(key_of(m[i]@) != key_of(m[j]@));
            } else {
                assert(key_of(m[j]@) != key_of(m[i]@));
            }
        }
    }
    m.lemma_multiset_has_no_duplicates();
    r.lemma_multiset_has_no_duplicates_conv();
    assert forall|i: int| 0 <= i < r.len() implies m.contains(#[trigger] r[i]) by {
        assert(r.to_multiset().count(r[i]) > 0);
    }
    assert forall|j: int| 0 <= j < m.len() implies r.contains(#[trigger] m[j]) by {
        assert(m.to_multiset().count(m[j]) > 0);
    }
    assert forall|i: int, j: int| 0 <= i < j < r.len() implies key_of(r[i]@) != key_of(r[j]@) by {
        assert(m.contains(r[i]));
        assert(m.contains(r[j]));
        let a = choose|a: int| 0 <= a < m.len() && m[a] == r[i];
        let b = choose|b: int| 0 <= b < m.len() && m[b] == r[j];
        assert(r[i] != r[j]);
        if a < b {
            assert(key_of(m[a]@) != key_of(m[b]@));
        } else {
            assert(key_of(m[b]@) != key_of(m[a]@));
        }
    }
}

proof fn lemma_add_new(a: Seq<Seq<char>>, b: Seq<Seq<char>>)
    ensures
        add_new(a, b).to_set() == a.to_set().union(b.to_set()),
        a.no_duplicates() ==> add_new(a, b).no_duplicates(),
    decreases b.len(),
{
    broadcast use vstd::seq_lib::group_seq_properties;
    if b.len() > 0 {
        lemma_add_new(a, b.drop_last());
        assert(b.to_set() =~= b.drop_last().to_set().insert(b.last())) by {
            assert(b =~= b.drop_last().push(b.last()));
        }
        let r = add_new(a, b.drop_last());
        if !r.contains(b.last()) {
            assert(r.push(b.last()).to_set() =~= r.to_set().insert(b.last()));
        }
        assert(add_new(a, b).to_set() =~= a.to_set().union(b.to_set()));
    } else {
        assert(b.to_set() =~= Set::empty());
        assert(a.to_set().union(b.to_set()) =~= a.to_set());
    }
}

proof fn lemma_key_index(acc: Seq<ProjectView>, k: Seq<char>)
    ensures
        -1 <= key_index(acc, k) < acc.len(),
        key_index(acc, k) >= 0 ==> key_of(acc[key_index(acc, k)]) == k,
        key_index(acc, k) == -1 ==> forall|j: int| 0 <= j < acc.len() ==> key_of(#[trigger] acc[j]) != k,
    decreases acc.len(),
{
    if acc.len() > 0 {
        lemma_key_index(acc.drop_last(), k);
        if key_of(acc.last()) != k && key_index(acc, k) == -1 {
            assert forall|j: int| 0 <= j < acc.len() implies key_of(#[trigger] acc[j]) != k by {
                if j < acc.len() - 1 {
                    assert(acc[j] == acc.drop_last()[j]);
                }
            }
        }
        if key_index(acc, k) >= 0 && key_of(acc.last()) != k {
            assert(acc[key_index(acc, k)] == acc.drop_last()[key_index(acc, k)]);
        }
    }
}

proof fn lemma_bucket_absent(s: Seq<ProjectView>, k: Seq<char>)
    requires
        forall|q: int| 0 <= q < s.len() ==> key_of(#[trigger] s[q]) != k,
    ensures
        bucket_sessions(s, k) == Set::<Seq<char>>::empty(),
        bucket_latest(s, k) == 0,
        bucket_id(s, k) is None,
        bucket_path(s, k) is None,
    decreases s.len(),
{
    if s.len() > 0 {
        assert forall|q: int| 0 <= q < s.drop_last().len() implies key_of(#[trigger] s.drop_last()[q]) != k by {
            assert(s.drop_last()[q] == s[q]);
        }
        lemma_bucket_absent(s.drop_last(), k);
        assert(key_of(s[s.len() - 1]) != k);
    }
}

/// Facts about [`merged`]: one entry per bucket, no others, and each entry
/// carries its bucket's sessions (once each), latest activity and id.
proof fn lemma_merged(s: Seq<ProjectView>)
    ensures
        forall|i: int, j: int| 0 <= i < j < merged(s).len() ==> key_of(merged(s)[i]) != key_of(merged(s)[j]),
        forall|q: int| 0 <= q < s.len() ==> key_index(merged(s), key_of(#[trigger] s[q])) >= 0,
        forall|j: int| 0 <= j < merged(s).len() ==> {
            let e = #[trigger] merged(s)[j];
            &&& e.sessions.to_set() == bucket_sessions(s, key_of(e))
            &&& e.sessions.no_duplicates()
            &&& e.created_at == bucket_latest(s, key_of(e))
            &&& bucket_id(s, key_of(e)) == Some(e.id)
            &&& bucket_path(s, key_of(e)) == Some(e.path)
        },
    decreases s.len(),
{
    if s.len() > 0 {
        let s0 = s.drop_last();
        let p = s.last();
        let acc = merged(s0);
        let k = key_of(p);
        lemma_merged(s0);
        lemma_key_index(acc, k);
        lemma_add_new(Seq::empty(), p.sessions);
        let j = key_index(acc, k);
        let m = merged(s);
        if j >= 0 {
            lemma_add_new(acc[j].sessions, p.sessions);
            assert forall|q: int| 0 <= q < s.len() implies key_index(m, key_of(#[trigger] s[q])) >= 0 by {
                lemma_key_index(m, key_of(s[q]));
                if q < s.len() - 1 {
                    assert(s[q] == s0[q]);
                    lemma_key_index(acc, key_of(s0[q]));
                    let t = key_index(acc, key_of(s0[q]));
                    assert(key_of(m[t]) == key_of(s[q]));
                } else {
                    assert(key_of(m[j]) == k);
                }
            }
            assert forall|i: int| 0 <= i < m.len() implies {
                let e = #[trigger] m[i];
                &&& e.sessions.to_set() == bucket_sessions(s, key_of(e))
                &&& e.sessions.no_duplicates()
                &&& e.created_at == bucket_latest(s, key_of(e))
                &&& bucket_id(s, key_of(e)) == Some(e.id)
                &&& bucket_path(s, key_of(e)) == Some(e.path)
            } by {
                if i != j {
                    assert(m[i] == acc[i]);
                    assert(key_of(acc[i]) != k);
                } else {
                    assert(m[i] == combine(acc[j], p));
                    assert(acc[j] == acc[j]);
                }
            }
        } else {
            assert forall|q: int| 0 <= q < s0.len() implies key_of(#[trigger] s0[q]) != k by {
                lemma_key_index(acc, key_of(s0[q]));
                let t = key_index(acc, key_of(s0[q]));
                assert(acc[t] == acc[t]);
            }
            lemma_bucket_absent(s0, k);
            assert(bucket_sessions(s, k) =~= p.sessions.to_set());
            assert forall|q: int| 0 <= q < s.len() implies key_index(m, key_of(#[trigger] s[q])) >= 0 by {
                lemma_key_index(m, key_of(s[q]));
                if q < s.len() - 1 {
                    assert(s[q] == s0[q]);
                    lemma_key_index(acc, key_of(s0[q]));
                    let t = key_index(acc, key_of(s0[q]));
                    assert(m[t] == acc[t]);
                } else {
                    assert(key_of(m[m.len() - 1]) == k);
                }
            }
            assert forall|i: int| 0 <= i < m.len() implies {
                let e = #[trigger] m[i];
                &&& e.sessions.to_set() == bucket_sessions(s, key_of(e))
                &&& e.sessions.no_duplicates()
                &&& e.created_at == bucket_latest(s, key_of(e))
                &&& bucket_id(s, key_of(e)) == Some(e.id)
                &&& bucket_path(s, key_of(e)) == Some(e.path)
            } by {
                if i < acc.len() {
                    assert(m[i] == acc[i]);
                    assert(key_of(acc[i]) != k);
                } else {
                    assert(m[i] == fresh(p));
                    assert(Seq::<Seq<char>>::empty().to_set().union(p.sessions.to_set()) =~= p.sessions.to_set());
                }
            }
            assert forall|a: int, b: int| 0 <= a < b < m.len() implies key_of(m[a]) != key_of(m[b]) by {
                if b == acc.len() {
                    assert(m[a] == acc[a]);
                }
            }
        }
    }
}

/// The listing step that follows the scan of the projects root: projects
/// sharing a normalized path are merged into one entry, and entries come most
/// recently active first.
pub fn merge_projects(all: Vec<Project>) -> (r: Vec<Project>)
    ensures
        by_activity(r@),
        // exactly one entry per bucket
        forall|q: int| 0 <= q < all@.len() ==> exists|i: int|
            0 <= i < r@.len() && key_of(#[trigger] r@[i]@) == key_of(#[trigger] all@[q]@),
        forall|i: int, j: int| 0 <= i < j < r@.len() ==> key_of(r@[i]@) != key_of(r@[j]@),
        // each entry is a bucket's merge
        forall|i: int| 0 <= i < r@.len() ==> {
            let e = #[trigger] r@[i]@;
            &&& e.sessions.to_set() == bucket_sessions(views(all@), key_of(e))
            &&& e.sessions.no_duplicates()
            &&& e.created_at == bucket_latest(views(all@), key_of(e))
            &&& bucket_id(views(all@), key_of(e)) == Some(e.id)
            &&& bucket_path(views(all@), key_of(e)) == Some(e.path)
        },
{
    let m = dedup_projects(&all);
    let ghost ms = m@;
    let r = sort_by_activity(m);
    proof {
        let s = views(all@);
        lemma_merged(s);
        assert(views(ms) == merged(s));
        assert forall|i: int, j: int| 0 <= i < j < ms.len() implies key_of(ms[i]@) != key_of(ms[j]@) by {
            assert(ms[i]@ == merged(s)[i]);
            assert(ms[j]@ == merged(s)[j]);
        }
        lemma_perm_keys(r@, ms);
        assert forall|q: int| 0 <= q < all@.len() implies exists|i: int|
            0 <= i < r@.len() && key_of(#[trigger] r@[i]@) == key_of(#[trigger] all@[q]@) by {
            assert(s[q] == all@[q]@);
            lemma_key_index(merged(s), key_of(s[q]));
            let t = key_index(merged(s), key_of(s[q]));
            assert(ms[t]@ == merged(s)[t]);
            assert(r@.contains(ms[t]));
        }
        assert forall|i: int| 0 <= i < r@.len() implies {
            let e = #[trigger] r@[i]@;
            &&& e.sessions.to_set() == bucket_sessions(s, key_of(e))
            &&& e.sessions.no_duplicates()
            &&& e.created_at == bucket_latest(s, key_of(e))
            &&& bucket_id(s, key_of(e)) == Some(e.id)
            &&& bucket_path(s, key_of(e)) == Some(e.path)
        } by {
            assert(ms.contains(r@[i]));
            let t = choose|t: int| 0 <= t < ms.len() && ms[t] == r@[i];
            assert(ms[t]@ == merged(s)[t]);
        }
    }
    r
}

} // verus!
