//! The hidden-project list: hiding, restoring, purging, and healing it
//! against the directories on disk.

use vstd::prelude::*;
use crate::codec::{normalized, decoded, normalize_path_for_comparison, decode_project_path};
use crate::projects::{strs, contains_string};
use crate::text::same_str;

verus! {

/// What `serde_json::from_str::<Vec<String>>` reads from a text: the items of
/// a JSON array of strings, or `None` when the text is not one.
pub uninterp spec fn id_list_of(text: Seq<char>) -> Option<Seq<Seq<char>>>;

/// What `serde_json::to_string_pretty` writes for a list of strings.
pub uninterp spec fn id_list_json(ids: Seq<Seq<char>>) -> Seq<char>;

/// Relies on `serde_json::from_str::<Vec<String>>`: the list read from the text,
/// or an error.
#[verifier::external_body]
fn parse_id_list(text: &str) -> (r: Option<Vec<String>>)
    ensures
        match r {
            Some(v) => id_list_of(text@) == Some(strs(v@)),
            None => id_list_of(text@) is None,
        },
{
    serde_json::from_str::<Vec<String>>(text).ok()
}

/// Relies on `serde_json::to_string_pretty`: the JSON text of a list of
/// strings. It fails only when a `Serialize` impl fails or a map has
/// non-string keys, and a list of strings has neither.
#[verifier::external_body]
fn render_id_list(ids: &Vec<String>) -> (r: String)
    ensures
        r@ == id_list_json(strs(ids@)),
{
    serde_json::to_string_pretty(ids).unwrap_or_default()
}

/// The hidden ids that a hidden-list file holds: none when the file is absent
/// or does not hold a JSON array of strings.
pub open spec fn hidden_ids(text: Option<Seq<char>>) -> Seq<Seq<char>> {
    match text {
        None => Seq::empty(),
        Some(t) => match id_list_of(t) {
            Some(l) => l,
            None => Seq::empty(),
        },
    }
}

/// Reads the hidden list from the file's text (`None`: no file).
pub fn read_hidden_list(text: Option<String>) -> (r: Vec<String>)
    ensures
        strs(r@) == hidden_ids(match text { Some(t) => Some(t@), None => None }),
{
    match text {
        None => {
            let r: Vec<String> = Vec::new();
            assert(strs(r@) =~= Seq::<Seq<char>>::empty());
            r
        },
        Some(t) => match parse_id_list(t.as_str()) {
            Some(v) => v,
            None => {
                let r: Vec<String> = Vec::new();
                assert(strs(r@) =~= Seq::<Seq<char>>::empty());
                r
            },
        },
    }
}

/// The text written to the hidden-list file for `ids`.
pub fn write_hidden_list(ids: &Vec<String>) -> (r: String)
    ensures
        r@ == id_list_json(strs(ids@)),
{
    render_id_list(ids)
}

/// The directory names of the listing that are not hidden, in order.
pub fn visible_names(names: &Vec<String>, hidden: &Vec<String>) -> (r: Vec<String>)
    ensures
        strs(r@) == strs(names@).filter(|n: Seq<char>| !strs(hidden@).contains(n)),
{
    let ghost all = strs(names@);
    let ghost keep = |n: Seq<char>| !strs(hidden@).contains(n);
    let mut out: Vec<String> = Vec::new();
    let mut i: usize = 0;
    assert(strs(out@) =~= Seq::<Seq<char>>::empty());
    while i < names.len()
        invariant
            i <= names.len(),
            all == strs(names@),
            keep == (|n: Seq<char>| !strs(hidden@).contains(n)),
            strs(out@) == all.subrange(0, i as int).filter(keep),
        decreases names.len() - i,
    {
        proof {
            all.subrange(0, i as int).lemma_filter_push(all[i as int], keep);
            assert(all.subrange(0, i as int).push(all[i as int]) =~= all.subrange(0, i + 1));
        }
        if !contains_string(hidden, names[i].as_str()) {
            let ghost o = out@;
            out.push(names[i].clone());
            assert(strs(out@) =~= strs(o).push(all[i as int]));
        }
        i = i + 1;
    }
    assert(all.subrange(0, names.len() as int) =~= all);
    out
}

/// Hides project `id`: appends it unless it is already hidden. Returns whether
/// the list changed.
pub fn hide_project(hidden: &mut Vec<String>, id: &str) -> (changed: bool)
    ensures
        changed == !strs(old(hidden)@).contains(id@),
        changed ==> strs(final(hidden)@) == strs(old(hidden)@).push(id@),
        !changed ==> final(hidden)@ == old(hidden)@,
{
    if contains_string(hidden, id) {
        false
    } else {
        let ghost before = hidden@;
        hidden.push(id.to_owned());
        assert(strs(hidden@) =~= strs(before).push(id@));
        true
    }
}

/// Why a project could not be restored to the listing.
pub enum RestoreError {
    /// The project is not in the hidden list.
    NotHidden,
}

/// The first position of `x` in `s`, or -1.
pub open spec fn first_index(s: Seq<Seq<char>>, x: Seq<char>) -> int
    decreases s.len(),
{
    if s.len() == 0 {
        -1
    } else if s[0] == x {
        0
    } else {
        let r = first_index(s.drop_first(), x);
        if r < 0 { -1 } else { r + 1 }
    }
}

proof fn lemma_first_index(s: Seq<Seq<char>>, x: Seq<char>)
    ensures
        -1 <= first_index(s, x) < s.len(),
        first_index(s, x) >= 0 ==> s[first_index(s, x)] == x,
        forall|m: int| 0 <= m < s.len() && (first_index(s, x) < 0 || m < first_index(s, x)) ==> #[trigger] s[m] != x,
    decreases s.len(),
{
    if s.len() > 0 && s[0] != x {
        lemma_first_index(s.drop_first(), x);
        assert forall|m: int| 0 <= m < s.len() && (first_index(s, x) < 0 || m < first_index(s, x)) implies #[trigger] s[m] != x by {
            if m > 0 {
                assert(s[m] == s.drop_first()[m - 1]);
            }
        }
    }
}

/// Restores project `id` to the listing: removes its first entry from the
/// hidden list.
pub fn unhide_project(hidden: &mut Vec<String>, id: &str) -> (r: Result<(), RestoreError>)
    ensures
        r is Ok <==> strs(old(hidden)@).contains(id@),
        r is Ok ==> strs(final(hidden)@) == strs(old(hidden)@).remove(first_index(strs(old(hidden)@), id@)),
        r is Err ==> final(hidden)@ == old(hidden)@,
{
    let ghost before = strs(hidden@);
    let mut i: usize = 0;
    while i < hidden.len()
        invariant
            i <= hidden.len(),
            hidden@ == old(hidden)@,
            before == strs(hidden@),
            forall|m: int| 0 <= m < i ==> hidden@[m]@ != id@,
        decreases hidden.len() - i,
    {
        if same_str(hidden[i].as_str(), id) {
            proof {
                lemma_first_index(before, id@);
                assert(before[i as int] == id@);
                if first_index(before, id@) >= 0 && first_index(before, id@) < i {
                    assert(hidden@[first_index(before, id@)]@ != id@);
                }
            }
            let ghost old_v = hidden@;
            hidden.remove(i);
            assert(strs(hidden@) =~= before.remove(i as int));
            return Ok(());
        }
        i = i + 1;
    }
    assert forall|m: int| 0 <= m < before.len() implies before[m] != id@ by {
        assert(before[m] == hidden@[m]@);
    }
    Err(RestoreError::NotHidden)
}

/// Drops every entry equal to `project_id` or `actual_id` from the hidden
/// list. Returns whether any was dropped.
pub fn purge_hidden(hidden: &mut Vec<String>, project_id: &str, actual_id: &str) -> (changed: bool)
    ensures
        strs(final(hidden)@) == strs(old(hidden)@).filter(|x: Seq<char>| x != project_id@ && x != actual_id@),
        changed == (final(hidden)@.len() != old(hidden)@.len()),
{
    let ghost before = strs(hidden@);
    let mut out: Vec<String> = Vec::new();
    let mut i: usize = 0;
    let n = hidden.len();
    let ghost keep = |x: Seq<char>| x != project_id@ && x != actual_id@;
    while i < n
        invariant
            n == hidden.len(),
            i <= n,
            before == strs(hidden@),
            strs(out@) == before.subrange(0, i as int).filter(keep),
            keep == (|x: Seq<char>| x != project_id@ && x != actual_id@),
        decreases n - i,
    {
        proof {
            assert(before.subrange(0, i + 1).drop_last() =~= before.subrange(0, i as int));
            before.subrange(0, i as int).lemma_filter_push(before[i as int], keep);
            assert(before.subrange(0, i as int).push(before[i as int]) =~= before.subrange(0, i + 1));
        }
        if !same_str(hidden[i].as_str(), project_id) && !same_str(hidden[i].as_str(), actual_id) {
            let ghost o = out@;
            out.push(hidden[i].clone());
            assert(strs(out@) =~= strs(o).push(before[i as int]));
        }
        i = i + 1;
    }
    assert(before.subrange(0, n as int) =~= before);
    let changed = out.len() != hidden.len();
    *hidden = out;
    changed
}

/// A directory under the projects root, with the path its sessions ran in
/// (read from a session file, or decoded from the name when none tells).
pub struct ProjectDir {
    pub name: String,
    pub path: String,
}

/// Names and paths of the directories.
pub open spec fn dir_views(d: Seq<ProjectDir>) -> Seq<(Seq<char>, Seq<char>)> {
    d.map_values(|x: ProjectDir| (x.name@, x.path@))
}

/// The name of the first directory whose path normalizes to `t`.
pub open spec fn first_path_match(d: Seq<(Seq<char>, Seq<char>)>, t: Seq<char>) -> Option<Seq<char>>
    decreases d.len(),
{
    if d.len() == 0 {
        None
    } else if normalized(d[0].1) == t {
        Some(d[0].0)
    } else {
        first_path_match(d.drop_first(), t)
    }
}

/// The directory that project id `id` stands for: the directory of that name,
/// else the first whose path is equivalent to the path the id decodes to.
pub open spec fn resolved(id: Seq<char>, d: Seq<(Seq<char>, Seq<char>)>) -> Option<Seq<char>> {
    if exists|j: int| 0 <= j < d.len() && (#[trigger] d[j]).0 == id {
        Some(id)
    } else {
        first_path_match(d, normalized(decoded(id)))
    }
}

/// Finds the directory that project id `id` stands for.
pub fn resolve_project_dir(id: &str, dirs: &Vec<ProjectDir>) -> (r: Option<String>)
    ensures
        match r {
            Some(n) => resolved(id@, dir_views(dirs@)) == Some(n@),
            None => resolved(id@, dir_views(dirs@)) is None,
        },
{
    let ghost dv = dir_views(dirs@);
    let mut i: usize = 0;
    while i < dirs.len()
        invariant
            i <= dirs.len(),
            dv == dir_views(dirs@),
            forall|m: int| 0 <= m < i ==> (#[trigger] dv[m]).0 != id@,
        decreases dirs.len() - i,
    {
        if same_str(dirs[i].name.as_str(), id) {
            assert(dv[i as int].0 == id@);
            return Some(id.to_owned());
        }
        i = i + 1;
    }
    let target = normalize_path_for_comparison(decode_project_path(id).as_str());
    let mut k: usize = 0;
    assert(dv.subrange(0, dv.len() as int) =~= dv);
    while k < dirs.len()
        invariant
            k <= dirs.len(),
            dv == dir_views(dirs@),
            target@ == normalized(decoded(id@)),
            forall|m: int| 0 <= m < dv.len() ==> (#[trigger] dv[m]).0 != id@,
            first_path_match(dv, target@) == first_path_match(dv.subrange(k as int, dv.len() as int), target@),
        decreases dirs.len() - k,
    {
        let cand = normalize_path_for_comparison(dirs[k].path.as_str());
        assert(dv.subrange(k as int, dv.len() as int)[0] == dv[k as int]);
        if same_str(cand.as_str(), target.as_str()) {
            assert(dv[k as int].0 == dirs@[k as int].name@);
            assert(dv[k as int].1 == dirs@[k as int].path@);
            return Some(dirs[k].name.clone());
        }
        assert(dv.subrange(k as int, dv.len() as int).drop_first() =~= dv.subrange(k + 1, dv.len() as int));
        k = k + 1;
    }
    None
}

/// Hidden ids that still stand for a directory.
pub open spec fn kept_ids(ids: Seq<Seq<char>>, d: Seq<(Seq<char>, Seq<char>)>) -> Seq<Seq<char>> {
    ids.filter(|x: Seq<char>| resolved(x, d) is Some)
}

/// The directories that the hidden ids stand for, in order.
pub open spec fn hidden_dirs(ids: Seq<Seq<char>>, d: Seq<(Seq<char>, Seq<char>)>) -> Seq<Seq<char>>
    decreases ids.len(),
{
    if ids.len() == 0 {
        Seq::empty()
    } else {
        let r = hidden_dirs(ids.drop_last(), d);
        match resolved(ids.last(), d) {
            Some(n) => r.push(n),
            None => r,
        }
    }
}

/// The outcome of checking the hidden list against the directories on disk.
pub struct HiddenCheck {
    /// The directories the hidden ids stand for, in order.
    pub hidden: Vec<String>,
    /// The hidden list with the ids that stand for nothing removed.
    pub kept: Vec<String>,
    /// Whether any id was removed, so that the file must be rewritten.
    pub changed: bool,
}

/// Checks the hidden list against the directories on disk: which directories
/// are hidden, and the list without the ids that no longer stand for one.
pub fn check_hidden_projects(hidden: &Vec<String>, dirs: &Vec<ProjectDir>) -> (r: HiddenCheck)
    ensures
        strs(r.hidden@) == hidden_dirs(strs(hidden@), dir_views(dirs@)),
        strs(r.kept@) == kept_ids(strs(hidden@), dir_views(dirs@)),
        r.changed == (r.kept@.len() != hidden@.len()),
{
    let ghost ids = strs(hidden@);
    let ghost dv = dir_views(dirs@);
    let ghost pred = |x: Seq<char>| resolved(x, dv) is Some;
    let mut found: Vec<String> = Vec::new();
    let mut kept: Vec<String> = Vec::new();
    let mut i: usize = 0;
    assert(strs(found@) =~= Seq::<Seq<char>>::empty());
    assert(strs(kept@) =~= Seq::<Seq<char>>::empty());
    while i < hidden.len()
        invariant
            i <= hidden.len(),
            ids == strs(hidden@),
            dv == dir_views(dirs@),
            pred == (|x: Seq<char>| resolved(x, dv) is Some),
            strs(found@) == hidden_dirs(ids.subrange(0, i as int), dv),
            strs(kept@) == ids.subrange(0, i as int).filter(pred),
        decreases hidden.len() - i,
    {
        proof {
            assert(ids.subrange(0, i + 1).drop_last() =~= ids.subrange(0, i as int));
            assert(ids.subrange(0, i as int).push(ids[i as int]) =~= ids.subrange(0, i + 1));
            ids.subrange(0, i as int).lemma_filter_push(ids[i as int], pred);
        }
        let ghost f0 = found@;
        let ghost k0 = kept@;
        match resolve_project_dir(hidden[i].as_str(), dirs) {
            Some(n) => {
                found.push(n);
                kept.push(hidden[i].clone());
                assert(strs(found@) =~= strs(f0).push(found@.last()@));
                assert(strs(kept@) =~= strs(k0).push(ids[i as int]));
            },
            None => {},
        }
        i = i + 1;
    }
    assert(ids.subrange(0, hidden.len() as int) =~= ids);
    let changed = kept.len() != hidden.len();
    HiddenCheck { hidden: found, kept, changed }
}

/// After the hidden list is checked, every id left in it stands for a
/// directory on disk, by name or by an equivalent path.
pub proof fn lemma_kept_ids_resolve(ids: Seq<Seq<char>>, d: Seq<(Seq<char>, Seq<char>)>)
    ensures
        forall|i: int| 0 <= i < kept_ids(ids, d).len() ==> resolved(#[trigger] kept_ids(ids, d)[i], d) is Some,
{
    broadcast use vstd::seq_lib::group_filter_ensures;
    let pred = |x: Seq<char>| resolved(x, d) is Some;
    assert forall|i: int| 0 <= i < kept_ids(ids, d).len() implies resolved(#[trigger] kept_ids(ids, d)[i], d) is Some by {
        assert(pred(ids.filter(pred)[i]));
    }
}

} // verus!
