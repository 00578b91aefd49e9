//! The checkpoint engine: tracked messages and files, immutable checkpoints,
//! restore, fork, diff and garbage collection.

use vstd::prelude::*;
use crate::text::{same_str, chars_of};

verus! {

/// What a restore brings back.
#[derive(PartialEq, Eq, Structural, Clone, Copy, Debug)]
pub enum RestoreMode {
    ConversationOnly,
    CodeOnly,
    Both,
}

/// When checkpoints are taken without being asked for.
#[derive(PartialEq, Eq, Structural, Clone, Copy, Debug)]
pub enum CheckpointStrategy {
    Manual,
    PerPrompt,
    PerToolUse,
    Smart,
}

/// What kind of frame a tracked message is, as far as auto-checkpointing cares.
#[derive(PartialEq, Eq, Structural, Clone, Copy, Debug)]
pub enum MessageKind {
    /// A message the user typed.
    UserPrompt,
    /// A tool-use frame; `mutates_files` when the tool writes to the tree.
    ToolUse { mutates_files: bool },
    Other,
}

/// Why a checkpoint operation failed.
#[derive(PartialEq, Eq, Structural, Clone, Copy, Debug)]
pub enum CheckpointError {
    /// No checkpoint has that id.
    NotFound,
    /// A checkpoint with that id exists already.
    DuplicateId,
}

/// The content of one tracked file at one moment.
pub struct FileSnapshot {
    /// Path relative to the project root.
    pub path: String,
    /// Content address of `content`.
    pub hash: String,
    pub content: String,
}

/// The metadata of a checkpoint.
pub struct Checkpoint {
    pub id: String,
    pub project_id: String,
    pub session_id: String,
    pub parent_id: Option<String>,
    /// Unix seconds.
    pub created_at: i64,
    pub description: Option<String>,
    pub total_tokens: u64,
    pub message_count: usize,
}

/// A checkpoint with the messages and files it holds.
pub struct StoredCheckpoint {
    pub checkpoint: Checkpoint,
    pub messages: Vec<String>,
    pub files: Vec<FileSnapshot>,
}

/// The checkpoint state of one session: tracked messages and files, and the
/// checkpoints taken, oldest first.
pub struct CheckpointManager {
    pub project_id: String,
    pub session_id: String,
    pub messages: Vec<String>,
    pub files: Vec<FileSnapshot>,
    pub store: Vec<StoredCheckpoint>,
    pub current: Option<String>,
    pub auto_enabled: bool,
    pub strategy: CheckpointStrategy,
}

/// No two snapshots of `f` share a path.
pub open spec fn unique_paths(f: Seq<FileSnapshot>) -> bool {
    forall|i: int, j: int| 0 <= i < j < f.len() ==> f[i].path@ != f[j].path@
}

/// Checkpoints ordered oldest first, with unique ids, and snapshot sets that
/// hold no path twice.
pub open spec fn store_ok(s: Seq<StoredCheckpoint>) -> bool {
    &&& forall|i: int, j: int| 0 <= i < j < s.len() ==> s[i].checkpoint.created_at <= s[j].checkpoint.created_at
    &&& forall|i: int, j: int| 0 <= i < j < s.len() ==> s[i].checkpoint.id@ != s[j].checkpoint.id@
    &&& forall|i: int| 0 <= i < s.len() ==> unique_paths(#[trigger] s[i].files@)
}

/// The text of a session file holding `m`: the raw lines one after another.
pub open spec fn joined(m: Seq<String>) -> Seq<char>
    decreases m.len(),
{
    if m.len() == 0 {
        Seq::empty()
    } else {
        joined(m.drop_last()) + m.last()@
    }
}

/// The index of the checkpoint with id `id` in `s`, or -1.
pub open spec fn find_id(s: Seq<StoredCheckpoint>, id: Seq<char>) -> int
    decreases s.len(),
{
    if s.len() == 0 {
        -1
    } else if s.last().checkpoint.id@ == id {
        s.len() - 1
    } else {
        find_id(s.drop_last(), id)
    }
}

/// One past the last checkpoint of `s` taken at or before `t`: where a
/// checkpoint taken at `t` goes.
pub open spec fn insert_pos(s: Seq<StoredCheckpoint>, t: i64) -> int
    decreases s.len(),
{
    if s.len() == 0 {
        0
    } else if s.last().checkpoint.created_at > t {
        insert_pos(s.drop_last(), t)
    } else {
        s.len() as int
    }
}

fn copy_string(s: &String) -> (r: String)
    ensures
        r == *s,
{
    s.clone()
}

fn copy_opt(o: &Option<String>) -> (r: Option<String>)
    ensures
        r == *o,
{
    match o {
        Some(s) => Some(s.clone()),
        None => None,
    }
}

fn copy_strings(v: &Vec<String>) -> (r: Vec<String>)
    ensures
        r@ == v@,
{
    let mut out: Vec<String> = Vec::new();
    let mut i: usize = 0;
    while i < v.len()
        invariant
            i <= v.len(),
            out@ == v@.subrange(0, i as int),
        decreases v.len() - i,
    {
        out.push(v[i].clone());
        assert(out@ =~= v@.subrange(0, i + 1));
        i = i + 1;
    }
    assert(out@ =~= v@);
    out
}

impl FileSnapshot {
    /// A copy of this snapshot.
    pub fn duplicate(&self) -> (r: Self)
        ensures
            r == *self,
    {
        FileSnapshot { path: copy_string(&self.path), hash: copy_string(&self.hash), content: copy_string(&self.content) }
    }
}

fn copy_files(v: &Vec<FileSnapshot>) -> (r: Vec<FileSnapshot>)
    ensures
        r@ == v@,
{
    let mut out: Vec<FileSnapshot> = Vec::new();
    let mut i: usize = 0;
    while i < v.len()
        invariant
            i <= v.len(),
            out@ == v@.subrange(0, i as int),
        decreases v.len() - i,
    {
        out.push(v[i].duplicate());
        assert(out@ =~= v@.subrange(0, i + 1));
        i = i + 1;
    }
    assert(out@ =~= v@);
    out
}

impl Checkpoint {
    /// A copy of this checkpoint's metadata.
    pub fn duplicate(&self) -> (r: Self)
        ensures
            r == *self,
    {
        Checkpoint {
            id: copy_string(&self.id),
            project_id: copy_string(&self.project_id),
            session_id: copy_string(&self.session_id),
            parent_id: copy_opt(&self.parent_id),
            created_at: self.created_at,
            description: copy_opt(&self.description),
            total_tokens: self.total_tokens,
            message_count: self.message_count,
        }
    }
}

/// The session file's text for messages `m`.
pub fn session_text(m: &Vec<String>) -> (r: String)
    ensures
        r@ == joined(m@),
{
    let mut out = String::new();
    let mut i: usize = 0;
    while i < m.len()
        invariant
            i <= m.len(),
            out@ == joined(m@.subrange(0, i as int)),
        decreases m.len() - i,
    {
        out.append(m[i].as_str());
        assert(m@.subrange(0, i + 1).drop_last() =~= m@.subrange(0, i as int));
        i = i + 1;
    }
    assert(m@.subrange(0, m.len() as int) =~= m@);
    out
}

/// What `create_checkpoint` did: on success the new checkpoint, holding the
/// tracked messages and files, sits in the store by its time and is current.
pub open spec fn create_post(
    old: CheckpointManager,
    new: CheckpointManager,
    id: String,
    created_at: i64,
    description: Option<String>,
    parent_id: Option<String>,
    total_tokens: u64,
    r: Result<Checkpoint, CheckpointError>,
) -> bool {
    let pos = insert_pos(old.store@, created_at);
    &&& new.messages == old.messages
    &&& new.files == old.files
    &&& new.project_id == old.project_id
    &&& new.session_id == old.session_id
    &&& new.auto_enabled == old.auto_enabled
    &&& new.strategy == old.strategy
    &&& (r is Err <==> find_id(old.store@, id@) >= 0)
    &&& r is Err ==> r == Err::<Checkpoint, CheckpointError>(CheckpointError::DuplicateId) && new.store == old.store
        && new.current == old.current
    &&& r matches Ok(c) ==> {
        &&& c == (Checkpoint {
            id: id,
            project_id: old.project_id,
            session_id: old.session_id,
            parent_id: match parent_id {
                Some(p) => Some(p),
                None => old.current,
            },
            created_at: created_at,
            description: description,
            total_tokens: total_tokens,
            message_count: old.messages@.len() as usize,
        })
        &&& new.store@.len() == old.store@.len() + 1
        &&& new.store@[pos].checkpoint == c
        &&& new.store@[pos].messages@ == old.messages@
        &&& new.store@[pos].files@ == old.files@
        &&& forall|i: int| 0 <= i < pos ==> #[trigger] new.store@[i] == old.store@[i]
        &&& forall|i: int| pos < i < new.store@.len() ==> #[trigger] new.store@[i] == old.store@[i - 1]
        &&& new.current == Some(id)
    }
}

/// What a restore hands back.
pub struct Restored {
    pub checkpoint: Checkpoint,
    /// The session file's new text, when the conversation is restored.
    pub session_text: Option<String>,
    /// The files to write back, when the code is restored.
    pub files: Vec<FileSnapshot>,
}

/// What `restore_checkpoint` did: the checkpoint is untouched; its messages
/// and files come back as the mode says, and it becomes current.
pub open spec fn restore_post(
    old: CheckpointManager,
    new: CheckpointManager,
    id: Seq<char>,
    mode: RestoreMode,
    r: Result<Restored, CheckpointError>,
) -> bool {
    let k = find_id(old.store@, id);
    &&& new.store == old.store
    &&& new.project_id == old.project_id
    &&& new.session_id == old.session_id
    &&& new.auto_enabled == old.auto_enabled
    &&& new.strategy == old.strategy
    &&& (r is Err <==> k < 0)
    &&& r is Err ==> r == Err::<Restored, CheckpointError>(CheckpointError::NotFound) && new == old
    &&& r matches Ok(out) ==> {
        let sc = old.store@[k];
        &&& out.checkpoint == sc.checkpoint
        &&& new.current == Some(sc.checkpoint.id)
        &&& mode != RestoreMode::CodeOnly ==> new.messages@ == sc.messages@ && (out.session_text matches Some(t)
            && t@ == joined(sc.messages@))
        &&& mode == RestoreMode::CodeOnly ==> new.messages == old.messages && out.session_text is None
        &&& mode != RestoreMode::ConversationOnly ==> new.files@ == sc.files@ && out.files@ == sc.files@
        &&& mode == RestoreMode::ConversationOnly ==> new.files == old.files && out.files@.len() == 0
    }
}

proof fn lemma_find_id(s: Seq<StoredCheckpoint>, id: Seq<char>)
    ensures
        -1 <= find_id(s, id) < s.len(),
        find_id(s, id) >= 0 ==> s[find_id(s, id)].checkpoint.id@ == id,
        find_id(s, id) < 0 ==> forall|j: int| 0 <= j < s.len() ==> (#[trigger] s[j]).checkpoint.id@ != id,
    decreases s.len(),
{
    if s.len() > 0 {
        lemma_find_id(s.drop_last(), id);
        if find_id(s, id) < 0 {
            assert forall|j: int| 0 <= j < s.len() implies (#[trigger] s[j]).checkpoint.id@ != id by {
                if j < s.len() - 1 {
                    assert(s[j] == s.drop_last()[j]);
                }
            }
        }
        if find_id(s, id) >= 0 && find_id(s, id) < s.len() - 1 {
            assert(s[find_id(s, id)] == s.drop_last()[find_id(s, id)]);
        }
    }
}

proof fn lemma_find_unique(s: Seq<StoredCheckpoint>, id: Seq<char>, k: int)
    requires
        0 <= k < s.len(),
        s[k].checkpoint.id@ == id,
        forall|i: int, j: int| 0 <= i < j < s.len() ==> s[i].checkpoint.id@ != s[j].checkpoint.id@,
    ensures
        find_id(s, id) == k,
{
    lemma_find_id(s, id);
    let f = find_id(s, id);
    if f >= 0 && f != k {
        if f < k {
            assert(s[f].checkpoint.id@ != s[k].checkpoint.id@);
        } else {
            assert(s[k].checkpoint.id@ != s[f].checkpoint.id@);
        }
    }
}

proof fn lemma_insert_pos(s: Seq<StoredCheckpoint>, t: i64)
    requires
        forall|i: int, j: int| 0 <= i < j < s.len() ==> s[i].checkpoint.created_at <= s[j].checkpoint.created_at,
    ensures
        0 <= insert_pos(s, t) <= s.len(),
        forall|i: int| 0 <= i < insert_pos(s, t) ==> (#[trigger] s[i]).checkpoint.created_at <= t,
        forall|i: int| insert_pos(s, t) <= i < s.len() ==> (#[trigger] s[i]).checkpoint.created_at > t,
    decreases s.len(),
{
    if s.len() > 0 {
        lemma_insert_pos(s.drop_last(), t);
        assert forall|i: int| 0 <= i < insert_pos(s, t) implies (#[trigger] s[i]).checkpoint.created_at <= t by {
            if s.last().checkpoint.created_at > t {
                assert(s[i] == s.drop_last()[i]);
            } else if i < s.len() - 1 {
                assert(s[i].checkpoint.created_at <= s[s.len() - 1].checkpoint.created_at);
            }
        }
        assert forall|i: int| insert_pos(s, t) <= i < s.len() implies (#[trigger] s[i]).checkpoint.created_at > t by {
            if i < s.len() - 1 {
                assert(s[i] == s.drop_last()[i]);
            }
        }
    }
}

impl CheckpointManager {
    /// Checkpoints are ordered oldest first, ids are unique, and no snapshot
    /// set holds a path twice.
    pub open spec fn wf(&self) -> bool {
        &&& store_ok(self.store@)
        &&& unique_paths(self.files@)
    }

    /// A manager for a session with nothing tracked yet.
    pub fn new(project_id: String, session_id: String) -> (r: Self)
        ensures
            r.wf(),
            r.project_id == project_id,
            r.session_id == session_id,
            r.messages@.len() == 0,
            r.files@.len() == 0,
            r.store@.len() == 0,
            r.current is None,
            !r.auto_enabled,
            r.strategy == CheckpointStrategy::Manual,
    {
        CheckpointManager {
            project_id,
            session_id,
            messages: Vec::new(),
            files: Vec::new(),
            store: Vec::new(),
            current: None,
            auto_enabled: false,
            strategy: CheckpointStrategy::Manual,
        }
    }

    /// Number of tracked messages.
    pub fn message_count(&self) -> (r: usize)
        ensures
            r == self.messages@.len(),
    {
        self.messages.len()
    }

    /// Appends one raw line to the tracked messages.
    pub fn track_message(&mut self, line: String)
        ensures
            final(self).messages@ == old(self).messages@.push(line),
            final(self).files == old(self).files,
            final(self).store == old(self).store,
            final(self).current == old(self).current,
            final(self).auto_enabled == old(self).auto_enabled,
            final(self).strategy == old(self).strategy,
            final(self).project_id == old(self).project_id,
            final(self).session_id == old(self).session_id,
    {
        self.messages.push(line);
    }

    /// Appends raw lines to the tracked messages, in the caller's order.
    pub fn track_session_messages(&mut self, lines: Vec<String>)
        ensures
            final(self).messages@ == old(self).messages@ + lines@,
            final(self).files == old(self).files,
            final(self).store == old(self).store,
            final(self).current == old(self).current,
            final(self).auto_enabled == old(self).auto_enabled,
            final(self).strategy == old(self).strategy,
            final(self).project_id == old(self).project_id,
            final(self).session_id == old(self).session_id,
    {
        let mut src = lines;
        let mut rev: Vec<String> = Vec::new();
        let ghost all = src@;
        while src.len() > 0
            invariant
                all == src@ + rev@.reverse(),
            decreases src.len(),
        {
            let x = src.pop().unwrap();
            let ghost r0 = rev@;
            rev.push(x);
            assert(rev@.reverse() =~= seq![x] + r0.reverse());
        }
        assert(all =~= rev@.reverse());
        let ghost start = self.messages@;
        while rev.len() > 0
            invariant
                start + all == self.messages@ + rev@.reverse(),
                self.files == old(self).files,
                self.store == old(self).store,
                self.current == old(self).current,
                self.auto_enabled == old(self).auto_enabled,
                self.strategy == old(self).strategy,
                self.project_id == old(self).project_id,
                self.session_id == old(self).session_id,
                start == old(self).messages@,
            decreases rev.len(),
        {
            let ghost r0 = rev@;
            let x = rev.pop().unwrap();
            assert(r0.reverse() =~= seq![x] + rev@.reverse());
            self.messages.push(x);
        }
        assert(self.messages@ =~= start + all);
    }
}

proof fn lemma_insert_keeps_order(s0: Seq<StoredCheckpoint>, j: int, sc: StoredCheckpoint)
    requires
        store_ok(s0),
        j == insert_pos(s0, sc.checkpoint.created_at),
        forall|m: int| 0 <= m < s0.len() ==> (#[trigger] s0[m]).checkpoint.id@ != sc.checkpoint.id@,
        unique_paths(sc.files@),
    ensures
        store_ok(s0.insert(j, sc)),
{
    lemma_insert_pos(s0, sc.checkpoint.created_at);
    let s1 = s0.insert(j, sc);
    assert forall|a: int, b: int| 0 <= a < b < s1.len() implies s1[a].checkpoint.created_at
        <= s1[b].checkpoint.created_at by {
        if a < j && b < j {
            assert(s1[a] == s0[a] && s1[b] == s0[b]);
        } else if a < j && b == j {
            assert(s1[a] == s0[a]);
        } else if a < j {
            assert(s1[a] == s0[a] && s1[b] == s0[b - 1]);
        } else if a == j {
            assert(s1[b] == s0[b - 1]);
        } else {
            assert(s1[a] == s0[a - 1] && s1[b] == s0[b - 1]);
        }
    }
    assert forall|a: int, b: int| 0 <= a < b < s1.len() implies s1[a].checkpoint.id@ != s1[b].checkpoint.id@ by {
        if a < j && b < j {
            assert(s1[a] == s0[a] && s1[b] == s0[b]);
        } else if a < j && b == j {
            assert(s1[a] == s0[a]);
        } else if a < j {
            assert(s1[a] == s0[a] && s1[b] == s0[b - 1]);
        } else if a == j {
            assert(s1[b] == s0[b - 1]);
        } else {
            assert(s1[a] == s0[a - 1] && s1[b] == s0[b - 1]);
        }
    }
    assert forall|a: int| 0 <= a < s1.len() implies unique_paths(#[trigger] s1[a].files@) by {
        if a < j {
            assert(s1[a] == s0[a]);
        } else if a > j {
            assert(s1[a] == s0[a - 1]);
        }
    }
}

impl CheckpointManager {
    /// Takes a checkpoint of the tracked messages and files. Its parent is
    /// `parent_id`, or else the current checkpoint; it becomes current.
    pub fn create_checkpoint(
        &mut self,
        id: String,
        created_at: i64,
        description: Option<String>,
        parent_id: Option<String>,
        total_tokens: u64,
    ) -> (r: Result<Checkpoint, CheckpointError>)
        requires
            old(self).wf(),
        ensures
            final(self).wf(),
            create_post(*old(self), *final(self), id, created_at, description, parent_id, total_tokens, r),
    {
        let ghost s0 = self.store@;
        let mut i: usize = 0;
        while i < self.store.len()
            invariant
                i <= self.store.len(),
                s0 == self.store@,
                *self == *old(self),
                self.wf(),
                forall|m: int| 0 <= m < i ==> (#[trigger] s0[m]).checkpoint.id@ != id@,
            decreases self.store.len() - i,
        {
            if same_str(self.store[i].checkpoint.id.as_str(), id.as_str()) {
                proof {
                    lemma_find_id(s0, id@);
                    if find_id(s0, id@) < 0 {
                        assert(s0[i as int].checkpoint.id@ != id@);
                    }
                }
                return Err(CheckpointError::DuplicateId);
            }
            i = i + 1;
        }
        proof {
            lemma_find_id(s0, id@);
            if find_id(s0, id@) >= 0 {
                assert(s0[find_id(s0, id@)].checkpoint.id@ != id@);
            }
        }
        let parent = match parent_id {
            Some(p) => Some(p),
            None => copy_opt(&self.current),
        };
        let c = Checkpoint {
            id: copy_string(&id),
            project_id: copy_string(&self.project_id),
            session_id: copy_string(&self.session_id),
            parent_id: parent,
            created_at,
            description,
            total_tokens,
            message_count: self.messages.len(),
        };
        let sc = StoredCheckpoint {
            checkpoint: c.duplicate(),
            messages: copy_strings(&self.messages),
            files: copy_files(&self.files),
        };
        let mut j: usize = self.store.len();
        assert(s0.subrange(0, j as int) =~= s0);
        while j > 0 && self.store[j - 1].checkpoint.created_at > created_at
            invariant
                j <= self.store.len(),
                s0 == self.store@,
                insert_pos(s0, created_at) == insert_pos(s0.subrange(0, j as int), created_at),
            decreases j,
        {
            assert(s0.subrange(0, j as int).drop_last() =~= s0.subrange(0, j - 1));
            j = j - 1;
        }
        proof {
            if j > 0 {
                assert(s0.subrange(0, j as int).last() == s0[j - 1]);
            }
        }
        assert(j == insert_pos(s0, created_at));
        self.store.insert(j, sc);
        self.current = Some(id);
        proof {
            lemma_insert_keeps_order(s0, j as int, self.store@[j as int]);
        }
        Ok(c)
    }

    /// Restores checkpoint `id`: its messages, its files, or both, as `mode`
    /// says. The checkpoint itself is not changed; it becomes current.
    pub fn restore_checkpoint(&mut self, id: &str, mode: RestoreMode) -> (r: Result<Restored, CheckpointError>)
        requires
            old(self).wf(),
        ensures
            final(self).wf(),
            restore_post(*old(self), *final(self), id@, mode, r),
    {
        let ghost s0 = self.store@;
        let mut k: usize = self.store.len();
        let mut found = false;
        assert(s0.subrange(0, k as int) =~= s0);
        while k > 0
            invariant_except_break
                k <= self.store.len(),
                s0 == self.store@,
                find_id(s0, id@) == find_id(s0.subrange(0, k as int), id@),
                !found,
            ensures
                k <= self.store.len(),
                s0 == self.store@,
                found ==> k > 0 && find_id(s0, id@) == k - 1,
                !found ==> find_id(s0, id@) == -1,
            decreases k,
        {
            assert(s0.subrange(0, k as int).drop_last() =~= s0.subrange(0, k - 1));
            assert(s0.subrange(0, k as int).last() == s0[k - 1]);
            if same_str(self.store[k - 1].checkpoint.id.as_str(), id) {
                found = true;
                break;
            }
            k = k - 1;
        }
        if !found {
            return Err(CheckpointError::NotFound);
        }
        let k = k - 1;
        let cp = self.store[k].checkpoint.duplicate();
        let text = if mode != RestoreMode::CodeOnly {
            let t = session_text(&self.store[k].messages);
            let m = copy_strings(&self.store[k].messages);
            self.messages = m;
            Some(t)
        } else {
            None
        };
        let out_files = if mode != RestoreMode::ConversationOnly {
            let f = copy_files(&self.store[k].files);
            let g = copy_files(&self.store[k].files);
            self.files = f;
            g
        } else {
            Vec::new()
        };
        self.current = Some(copy_string(&self.store[k].checkpoint.id));
        proof {
            assert(unique_paths(s0[k as int].files@));
        }
        Ok(Restored { checkpoint: cp, session_text: text, files: out_files })
    }
}

/// Restoring a checkpoint in full right after taking it brings back exactly
/// the messages tracked when it was taken, and the session file's text is
/// their concatenation.
pub proof fn lemma_restore_after_create(
    m0: CheckpointManager,
    m1: CheckpointManager,
    m2: CheckpointManager,
    id: String,
    created_at: i64,
    description: Option<String>,
    parent_id: Option<String>,
    total_tokens: u64,
    c: Checkpoint,
    out: Restored,
)
    requires
        m0.wf(),
        m1.wf(),
        create_post(m0, m1, id, created_at, description, parent_id, total_tokens, Ok(c)),
        restore_post(m1, m2, id@, RestoreMode::Both, Ok(out)),
    ensures
        out.session_text matches Some(t) && t@ == joined(m0.messages@),
        m2.messages@ == m0.messages@,
        m2.files@ == m0.files@,
{
    let pos = insert_pos(m0.store@, created_at);
    lemma_insert_pos(m0.store@, created_at);
    lemma_find_unique(m1.store@, id@, pos);
}

/// Number of lines `str::lines` finds in `s`: one per `\n`, and one more for
/// an unterminated last line.
pub open spec fn line_count(s: Seq<char>) -> nat
    decreases s.len(),
{
    if s.len() == 0 {
        0
    } else {
        let k = line_breaks(s);
        if s.last() == '\n' { k } else { k + 1 }
    }
}

/// Number of `\n` in `s`.
pub open spec fn line_breaks(s: Seq<char>) -> nat
    decreases s.len(),
{
    if s.len() == 0 {
        0
    } else {
        line_breaks(s.drop_last()) + if s.last() == '\n' { 1nat } else { 0nat }
    }
}

proof fn lemma_line_breaks_le(s: Seq<char>)
    ensures
        line_breaks(s) <= s.len(),
    decreases s.len(),
{
    if s.len() > 0 {
        lemma_line_breaks_le(s.drop_last());
    }
}

/// Number of lines of a text, as `str::lines` counts them.
pub fn count_lines(text: &str) -> (r: usize)
    ensures
        r == line_count(text@),
{
    let v = chars_of(text);
    let mut k: usize = 0;
    let mut i: usize = 0;
    while i < v.len()
        invariant
            i <= v.len(),
            k <= i,
            k == line_breaks(v@.subrange(0, i as int)),
        decreases v.len() - i,
    {
        assert(v@.subrange(0, i + 1).drop_last() =~= v@.subrange(0, i as int));
        if v[i] == '\n' {
            k = k + 1;
        }
        i = i + 1;
    }
    assert(v@.subrange(0, v.len() as int) =~= v@);
    proof {
        if v.len() > 0 {
            lemma_line_breaks_le(v@.drop_last());
        }
    }
    if v.len() == 0 || v[v.len() - 1] == '\n' {
        k
    } else {
        k + 1
    }
}

/// The last index of `f` whose path is `p`, or -1.
pub open spec fn path_index(f: Seq<FileSnapshot>, p: Seq<char>) -> int
    decreases f.len(),
{
    if f.len() == 0 {
        -1
    } else if f.last().path@ == p {
        f.len() - 1
    } else {
        path_index(f.drop_last(), p)
    }
}

/// The files of `from` that `to` holds with another hash: path, lines of the
/// new content, lines of the old.
pub open spec fn modified_spec(from: Seq<FileSnapshot>, to: Seq<FileSnapshot>) -> Seq<(Seq<char>, nat, nat)>
    decreases from.len(),
{
    if from.len() == 0 {
        Seq::empty()
    } else {
        let rest = modified_spec(from.drop_last(), to);
        let f = from.last();
        let j = path_index(to, f.path@);
        if j >= 0 && to[j].hash@ != f.hash@ {
            rest.push((f.path@, line_count(to[j].content@), line_count(f.content@)))
        } else {
            rest
        }
    }
}

/// The paths of `from` that `to` does not hold.
pub open spec fn missing_spec(from: Seq<FileSnapshot>, to: Seq<FileSnapshot>) -> Seq<Seq<char>>
    decreases from.len(),
{
    if from.len() == 0 {
        Seq::empty()
    } else {
        let rest = missing_spec(from.drop_last(), to);
        if path_index(to, from.last().path@) < 0 {
            rest.push(from.last().path@)
        } else {
            rest
        }
    }
}

/// A file that changed between two checkpoints.
pub struct FileDiff {
    pub path: String,
    /// Lines of the new content.
    pub additions: usize,
    /// Lines of the old content.
    pub deletions: usize,
    /// A unified diff; not computed.
    pub diff_content: Option<String>,
}

/// What changed from one checkpoint to another.
pub struct CheckpointDiff {
    pub from_checkpoint_id: String,
    pub to_checkpoint_id: String,
    pub modified_files: Vec<FileDiff>,
    pub added_files: Vec<String>,
    pub deleted_files: Vec<String>,
    pub token_delta: i128,
}

pub open spec fn diff_views(d: Seq<FileDiff>) -> Seq<(Seq<char>, nat, nat)> {
    d.map_values(|x: FileDiff| (x.path@, x.additions as nat, x.deletions as nat))
}

pub open spec fn str_views(v: Seq<String>) -> Seq<Seq<char>> {
    v.map_values(|x: String| x@)
}

fn find_path(f: &Vec<FileSnapshot>, p: &str) -> (r: Option<usize>)
    ensures
        match r {
            Some(j) => j == path_index(f@, p@),
            None => path_index(f@, p@) == -1,
        },
{
    let ghost s = f@;
    let mut k: usize = f.len();
    assert(s.subrange(0, k as int) =~= s);
    while k > 0
        invariant
            k <= f.len(),
            s == f@,
            path_index(s, p@) == path_index(s.subrange(0, k as int), p@),
        decreases k,
    {
        assert(s.subrange(0, k as int).drop_last() =~= s.subrange(0, k - 1));
        assert(s.subrange(0, k as int).last() == s[k - 1]);
        if same_str(f[k - 1].path.as_str(), p) {
            return Some(k - 1);
        }
        k = k - 1;
    }
    None
}

proof fn lemma_path_index(f: Seq<FileSnapshot>, p: Seq<char>)
    ensures
        -1 <= path_index(f, p) < f.len(),
        path_index(f, p) >= 0 ==> f[path_index(f, p)].path@ == p,
        forall|j: int| 0 <= j < f.len() && (#[trigger] f[j]).path@ == p ==> path_index(f, p) >= j,
    decreases f.len(),
{
    if f.len() > 0 {
        lemma_path_index(f.drop_last(), p);
        assert forall|j: int| 0 <= j < f.len() && (#[trigger] f[j]).path@ == p implies path_index(f, p) >= j by {
            if j < f.len() - 1 && f.last().path@ != p {
                assert(f[j] == f.drop_last()[j]);
            }
        }
        if path_index(f, p) >= 0 && path_index(f, p) < f.len() - 1 {
            assert(f[path_index(f, p)] == f.drop_last()[path_index(f, p)]);
        }
    }
}

/// The paths of `from` that `to` does not hold, in the order of `from`.
fn missing_paths(from: &Vec<FileSnapshot>, to: &Vec<FileSnapshot>) -> (r: Vec<String>)
    ensures
        str_views(r@) == missing_spec(from@, to@),
{
    let mut out: Vec<String> = Vec::new();
    let mut i: usize = 0;
    assert(str_views(out@) =~= Seq::<Seq<char>>::empty());
    while i < from.len()
        invariant
            i <= from.len(),
            str_views(out@) == missing_spec(from@.subrange(0, i as int), to@),
        decreases from.len() - i,
    {
        assert(from@.subrange(0, i + 1).drop_last() =~= from@.subrange(0, i as int));
        assert(from@.subrange(0, i + 1).last() == from@[i as int]);
        if find_path(to, from[i].path.as_str()).is_none() {
            let ghost o = out@;
            out.push(from[i].path.clone());
            assert(str_views(out@) =~= str_views(o).push(from@[i as int].path@));
        }
        i = i + 1;
    }
    assert(from@.subrange(0, from.len() as int) =~= from@);
    out
}

/// Compares two snapshot sets: files changed (by hash), added and deleted.
pub fn diff_snapshots(from: &Vec<FileSnapshot>, to: &Vec<FileSnapshot>) -> (r: (
    Vec<FileDiff>,
    Vec<String>,
    Vec<String>,
))
    ensures
        diff_views(r.0@) == modified_spec(from@, to@),
        str_views(r.1@) == missing_spec(to@, from@),
        str_views(r.2@) == missing_spec(from@, to@),
{
    let mut modified: Vec<FileDiff> = Vec::new();
    let mut i: usize = 0;
    assert(diff_views(modified@) =~= Seq::<(Seq<char>, nat, nat)>::empty());
    while i < from.len()
        invariant
            i <= from.len(),
            diff_views(modified@) == modified_spec(from@.subrange(0, i as int), to@),
        decreases from.len() - i,
    {
        assert(from@.subrange(0, i + 1).drop_last() =~= from@.subrange(0, i as int));
        assert(from@.subrange(0, i + 1).last() == from@[i as int]);
        match find_path(to, from[i].path.as_str()) {
            Some(j) => {
                proof {
                    lemma_path_index(to@, from@[i as int].path@);
                }
                if !same_str(to[j].hash.as_str(), from[i].hash.as_str()) {
                    let d = FileDiff {
                        path: from[i].path.clone(),
                        additions: count_lines(to[j].content.as_str()),
                        deletions: count_lines(from[i].content.as_str()),
                        diff_content: None,
                    };
                    let ghost o = modified@;
                    modified.push(d);
                    assert(diff_views(modified@) =~= diff_views(o).push(
                        (from@[i as int].path@, line_count(to@[j as int].content@), line_count(from@[i as int].content@)),
                    ));
                }
            },
            None => {},
        }
        i = i + 1;
    }
    assert(from@.subrange(0, from.len() as int) =~= from@);
    let added = missing_paths(to, from);
    let deleted = missing_paths(from, to);
    (modified, added, deleted)
}

/// Comparing a snapshot set with itself finds nothing changed, added or
/// deleted.
pub proof fn lemma_diff_self(a: Seq<FileSnapshot>)
    requires
        unique_paths(a),
    ensures
        modified_spec(a, a).len() == 0,
        missing_spec(a, a).len() == 0,
{
    lemma_diff_self_prefix(a, a.len() as int);
    assert(a.subrange(0, a.len() as int) =~= a);
}

proof fn lemma_diff_self_prefix(a: Seq<FileSnapshot>, n: int)
    requires
        unique_paths(a),
        0 <= n <= a.len(),
    ensures
        modified_spec(a.subrange(0, n), a).len() == 0,
        missing_spec(a.subrange(0, n), a).len() == 0,
    decreases n,
{
    if n > 0 {
        let p = a.subrange(0, n);
        assert(p.drop_last() =~= a.subrange(0, n - 1));
        lemma_diff_self_prefix(a, n - 1);
        lemma_path_index(a, a[n - 1].path@);
        let j = path_index(a, a[n - 1].path@);
        if j > n - 1 {
            assert(a[n - 1].path@ != a[j].path@);
        }
        assert(p.last() == a[n - 1]);
    }
}

impl CheckpointManager {
    /// Loads the session's lines when nothing is tracked yet: all of them, or
    /// those up to and including `message_index`.
    pub fn load_initial_messages(&mut self, lines: Vec<String>, message_index: Option<usize>)
        requires
            old(self).wf(),
        ensures
            final(self).wf(),
            old(self).messages@.len() == 0 ==> final(self).messages@ == lines@.take(
                match message_index {
                    Some(i) => if i < lines@.len() { i + 1 } else { lines@.len() as int },
                    None => lines@.len() as int,
                },
            ),
            old(self).messages@.len() > 0 ==> final(self).messages == old(self).messages,
            final(self).files == old(self).files,
            final(self).store == old(self).store,
            final(self).current == old(self).current,
    {
        if self.messages.len() > 0 {
            return;
        }
        let limit = match message_index {
            Some(i) => if i < lines.len() { i + 1 } else { lines.len() },
            None => lines.len(),
        };
        let mut src = lines;
        src.truncate(limit);
        let ghost before = self.messages@;
        self.track_session_messages(src);
        assert(self.messages@ =~= before + src@);
    }

    /// Records the current content of a tracked file, replacing what was
    /// recorded for its path.
    pub fn track_file(&mut self, snap: FileSnapshot)
        requires
            old(self).wf(),
        ensures
            final(self).wf(),
            path_index(old(self).files@, snap.path@) >= 0 ==> final(self).files@ == old(self).files@.update(
                path_index(old(self).files@, snap.path@),
                snap,
            ),
            path_index(old(self).files@, snap.path@) < 0 ==> final(self).files@ == old(self).files@.push(snap),
            final(self).messages == old(self).messages,
            final(self).store == old(self).store,
            final(self).current == old(self).current,
    {
        proof {
            lemma_path_index(self.files@, snap.path@);
        }
        match find_path(&self.files, snap.path.as_str()) {
            Some(j) => {
                let ghost f0 = self.files@;
                self.files.set(j, snap);
                assert(forall|a: int| 0 <= a < f0.len() && a != j ==> self.files@[a] == f0[a]);
            },
            None => {
                proof {
                    lemma_path_absent(self.files@, snap.path@);
                }
                self.files.push(snap);
            },
        }
    }

    /// Compares checkpoint `from_id` with checkpoint `to_id`.
    pub fn get_checkpoint_diff(&self, from_id: &str, to_id: &str) -> (r: Result<CheckpointDiff, CheckpointError>)
        requires
            self.wf(),
        ensures
            (r is Err) <==> (find_id(self.store@, from_id@) < 0 || find_id(self.store@, to_id@) < 0),
            r matches Ok(d) ==> {
                let a = self.store@[find_id(self.store@, from_id@)];
                let b = self.store@[find_id(self.store@, to_id@)];
                &&& d.from_checkpoint_id@ == from_id@
                &&& d.to_checkpoint_id@ == to_id@
                &&& diff_views(d.modified_files@) == modified_spec(a.files@, b.files@)
                &&& str_views(d.added_files@) == missing_spec(b.files@, a.files@)
                &&& str_views(d.deleted_files@) == missing_spec(a.files@, b.files@)
                &&& d.token_delta == b.checkpoint.total_tokens - a.checkpoint.total_tokens
            },
    {
        let a = match self.find_checkpoint(from_id) {
            Some(a) => a,
            None => return Err(CheckpointError::NotFound),
        };
        let b = match self.find_checkpoint(to_id) {
            Some(b) => b,
            None => return Err(CheckpointError::NotFound),
        };
        let (m, added, deleted) = diff_snapshots(&self.store[a].files, &self.store[b].files);
        let delta = self.store[b].checkpoint.total_tokens as i128 - self.store[a].checkpoint.total_tokens as i128;
        Ok(CheckpointDiff {
            from_checkpoint_id: from_id.to_owned(),
            to_checkpoint_id: to_id.to_owned(),
            modified_files: m,
            added_files: added,
            deleted_files: deleted,
            token_delta: delta,
        })
    }

    /// The position of checkpoint `id` in the store.
    pub fn find_checkpoint(&self, id: &str) -> (r: Option<usize>)
        ensures
            match r {
                Some(k) => k == find_id(self.store@, id@) && k < self.store@.len(),
                None => find_id(self.store@, id@) == -1,
            },
    {
        proof {
            lemma_find_id(self.store@, id@);
        }
        let ghost s = self.store@;
        let mut k: usize = self.store.len();
        assert(s.subrange(0, k as int) =~= s);
        while k > 0
            invariant
                k <= self.store.len(),
                s == self.store@,
                find_id(s, id@) == find_id(s.subrange(0, k as int), id@),
            decreases k,
        {
            assert(s.subrange(0, k as int).drop_last() =~= s.subrange(0, k - 1));
            assert(s.subrange(0, k as int).last() == s[k - 1]);
            if same_str(self.store[k - 1].checkpoint.id.as_str(), id) {
                return Some(k - 1);
            }
            k = k - 1;
        }
        None
    }
}

impl CheckpointManager {
    /// Starts a new session `new_session_id` from checkpoint `checkpoint_id`:
    /// the new session tracks that checkpoint's messages and files, and its
    /// one checkpoint `new_id` has the source checkpoint as parent. Refused
    /// when `new_id` already names a checkpoint of this session.
    pub fn fork_from_checkpoint(
        &self,
        checkpoint_id: &str,
        new_session_id: String,
        new_id: String,
        created_at: i64,
        description: Option<String>,
    ) -> (r: Result<CheckpointManager, CheckpointError>)
        requires
            self.wf(),
        ensures
            find_id(self.store@, checkpoint_id@) < 0 ==> r == Err::<CheckpointManager, CheckpointError>(
                CheckpointError::NotFound),
            find_id(self.store@, checkpoint_id@) >= 0 && find_id(self.store@, new_id@) >= 0 ==> r == Err::<
                CheckpointManager,
                CheckpointError,
            >(CheckpointError::DuplicateId),
            (r is Ok) <==> (find_id(self.store@, checkpoint_id@) >= 0 && find_id(self.store@, new_id@) < 0),
            r matches Ok(m) ==> {
                let src = self.store@[find_id(self.store@, checkpoint_id@)];
                &&& forall|j: int| 0 <= j < self.store@.len() ==> (#[trigger] self.store@[j]).checkpoint.id@ != new_id@
                &&& m.wf()
                &&& m.project_id == self.project_id
                &&& m.session_id == new_session_id
                &&& m.messages@ == src.messages@
                &&& m.files@ == src.files@
                &&& m.store@.len() == 1
                &&& m.store@[0].checkpoint.id == new_id
                &&& m.store@[0].checkpoint.session_id == new_session_id
                &&& m.store@[0].checkpoint.parent_id == Some(src.checkpoint.id)
                &&& m.store@[0].messages@ == src.messages@
                &&& m.store@[0].files@ == src.files@
                &&& m.current == Some(new_id)
            },
    {
        let k = match self.find_checkpoint(checkpoint_id) {
            Some(k) => k,
            None => return Err(CheckpointError::NotFound),
        };
        if self.find_checkpoint(new_id.as_str()).is_some() {
            return Err(CheckpointError::DuplicateId);
        }
        proof {
            lemma_find_id(self.store@, checkpoint_id@);
            lemma_find_id(self.store@, new_id@);
        }
        let mut m = CheckpointManager {
            project_id: copy_string(&self.project_id),
            session_id: new_session_id,
            messages: copy_strings(&self.store[k].messages),
            files: copy_files(&self.store[k].files),
            store: Vec::new(),
            current: None,
            auto_enabled: self.auto_enabled,
            strategy: self.strategy,
        };
        assert(unique_paths(self.store@[k as int].files@));
        let parent = copy_string(&self.store[k].checkpoint.id);
        let total = self.store[k].checkpoint.total_tokens;
        let ghost m0 = m;
        let made = m.create_checkpoint(new_id, created_at, description, Some(parent), total);
        assert(find_id(m0.store@, new_id@) == -1);
        assert(insert_pos(m0.store@, created_at) == 0);
        match made {
            Ok(_) => Ok(m),
            Err(_) => Err(CheckpointError::NotFound),
        }
    }

    /// Keeps the `keep_count` most recent checkpoints and drops the others.
    /// Returns how many were dropped.
    pub fn cleanup_old_checkpoints(&mut self, keep_count: usize) -> (removed: usize)
        requires
            old(self).wf(),
        ensures
            final(self).wf(),
            ({
                let n = old(self).store@.len();
                let kept = if keep_count < n { keep_count as int } else { n as int };
                &&& final(self).store@ == old(self).store@.subrange(n - kept, n as int)
                &&& removed == n - kept
                &&& forall|i: int, j: int| 0 <= i < n - kept <= j < n ==>
                    old(self).store@[i].checkpoint.created_at <= old(self).store@[j].checkpoint.created_at
            }),
            final(self).messages == old(self).messages,
            final(self).files == old(self).files,
            final(self).current == old(self).current,
    {
        let n = self.store.len();
        let kept = if keep_count < n { keep_count } else { n };
        let cut = n - kept;
        let tail = self.store.split_off(cut);
        self.store = tail;
        cut
    }

    /// Drops every checkpoint taken before `days` days ahead of `now` (unix
    /// seconds). Returns how many were dropped.
    pub fn cleanup_old_checkpoints_by_age(&mut self, now: i64, days: u64) -> (removed: usize)
        requires
            old(self).wf(),
        ensures
            final(self).wf(),
            ({
                let cutoff = now - days * 86400;
                let n = old(self).store@.len();
                &&& removed <= n
                &&& final(self).store@ == old(self).store@.subrange(removed as int, n as int)
                &&& forall|i: int| 0 <= i < removed ==> (#[trigger] old(self).store@[i]).checkpoint.created_at < cutoff
                &&& forall|i: int| 0 <= i < final(self).store@.len() ==>
                    (#[trigger] final(self).store@[i]).checkpoint.created_at >= cutoff
            }),
            final(self).messages == old(self).messages,
            final(self).files == old(self).files,
            final(self).current == old(self).current,
    {
        let cutoff: i128 = now as i128 - (days as i128) * 86400;
        let n = self.store.len();
        let mut cut: usize = 0;
        while cut < n && (self.store[cut].checkpoint.created_at as i128) < cutoff
            invariant
                cut <= n,
                n == self.store.len(),
                forall|i: int| 0 <= i < cut ==> (#[trigger] self.store@[i]).checkpoint.created_at < cutoff,
            decreases n - cut,
        {
            cut = cut + 1;
        }
        let ghost s0 = self.store@;
        let tail = self.store.split_off(cut);
        self.store = tail;
        assert forall|i: int| 0 <= i < self.store@.len() implies (#[trigger] self.store@[i]).checkpoint.created_at >= cutoff by {
            assert(self.store@[i] == s0[i + cut]);
            assert(s0[cut as int].checkpoint.created_at >= cutoff);
            if i > 0 {
                assert(s0[cut as int].checkpoint.created_at <= s0[i + cut].checkpoint.created_at);
            }
        }
        cut
    }

    /// Whether tracking a message of kind `kind` should trigger a checkpoint.
    pub fn should_auto_checkpoint(&self, kind: MessageKind) -> (r: bool)
        ensures
            r == (self.auto_enabled && match self.strategy {
                CheckpointStrategy::Manual => false,
                CheckpointStrategy::PerPrompt => kind == MessageKind::UserPrompt,
                CheckpointStrategy::PerToolUse => kind is ToolUse,
                CheckpointStrategy::Smart => kind == MessageKind::UserPrompt
                    || kind == (MessageKind::ToolUse { mutates_files: true }),
            }),
    {
        if !self.auto_enabled {
            return false;
        }
        match self.strategy {
            CheckpointStrategy::Manual => false,
            CheckpointStrategy::PerPrompt => kind == MessageKind::UserPrompt,
            CheckpointStrategy::PerToolUse => match kind {
                MessageKind::ToolUse { .. } => true,
                _ => false,
            },
            CheckpointStrategy::Smart => match kind {
                MessageKind::UserPrompt => true,
                MessageKind::ToolUse { mutates_files } => mutates_files,
                MessageKind::Other => false,
            },
        }
    }

    /// Sets whether auto-checkpoints are on, and the strategy they follow.
    pub fn update_settings(&mut self, auto_enabled: bool, strategy: CheckpointStrategy)
        requires
            old(self).wf(),
        ensures
            final(self).wf(),
            final(self).auto_enabled == auto_enabled,
            final(self).strategy == strategy,
            final(self).messages == old(self).messages,
            final(self).files == old(self).files,
            final(self).store == old(self).store,
            final(self).current == old(self).current,
    {
        self.auto_enabled = auto_enabled;
        self.strategy = strategy;
    }

    /// The checkpoints, oldest first.
    pub fn list_checkpoints(&self) -> (r: Vec<Checkpoint>)
        ensures
            r@.len() == self.store@.len(),
            forall|i: int| 0 <= i < r@.len() ==> #[trigger] r@[i] == self.store@[i].checkpoint,
    {
        let mut out: Vec<Checkpoint> = Vec::new();
        let mut i: usize = 0;
        while i < self.store.len()
            invariant
                i <= self.store.len(),
                out@.len() == i,
                forall|m: int| 0 <= m < i ==> #[trigger] out@[m] == self.store@[m].checkpoint,
            decreases self.store.len() - i,
        {
            out.push(self.store[i].checkpoint.duplicate());
            i = i + 1;
        }
        out
    }
}

/// The checkpoint managers of the sessions in use, one per session, made on
/// first use.
pub struct ManagerRegistry {
    pub managers: Vec<CheckpointManager>,
}

impl ManagerRegistry {
    /// Every manager is well formed and serves its own session.
    pub open spec fn wf(&self) -> bool {
        &&& forall|i: int| 0 <= i < self.managers@.len() ==> (#[trigger] self.managers@[i]).wf()
        &&& forall|i: int, j: int| 0 <= i < j < self.managers@.len() ==> self.managers@[i].session_id@
            != self.managers@[j].session_id@
    }

    /// No managers yet.
    pub fn new() -> (r: Self)
        ensures
            r.wf(),
            r.managers@.len() == 0,
    {
        ManagerRegistry { managers: Vec::new() }
    }

    /// The position of the manager of session `session_id`.
    pub fn find(&self, session_id: &str) -> (r: Option<usize>)
        ensures
            match r {
                Some(k) => k < self.managers@.len() && self.managers@[k as int].session_id@ == session_id@,
                None => forall|i: int| 0 <= i < self.managers@.len() ==> (#[trigger] self.managers@[i]).session_id@
                    != session_id@,
            },
    {
        let mut i: usize = 0;
        while i < self.managers.len()
            invariant
                i <= self.managers.len(),
                forall|m: int| 0 <= m < i ==> (#[trigger] self.managers@[m]).session_id@ != session_id@,
            decreases self.managers.len() - i,
        {
            if same_str(self.managers[i].session_id.as_str(), session_id) {
                return Some(i);
            }
            i = i + 1;
        }
        None
    }

    /// The manager of session `session_id`, made for `project_id` if there is
    /// none yet.
    pub fn get_or_create(&mut self, session_id: &str, project_id: &str) -> (r: usize)
        requires
            old(self).wf(),
        ensures
            final(self).wf(),
            r < final(self).managers@.len(),
            final(self).managers@[r as int].session_id@ == session_id@,
            (exists|i: int| 0 <= i < old(self).managers@.len() && (#[trigger] old(self).managers@[i]).session_id@
                == session_id@) ==> final(self).managers == old(self).managers,
            (forall|i: int| 0 <= i < old(self).managers@.len() ==> (#[trigger] old(self).managers@[i]).session_id@
                != session_id@) ==> {
                &&& final(self).managers@.len() == old(self).managers@.len() + 1
                &&& final(self).managers@.drop_last() == old(self).managers@
                &&& final(self).managers@.last().project_id@ == project_id@
                &&& final(self).managers@.last().messages@.len() == 0
                &&& final(self).managers@.last().store@.len() == 0
            },
    {
        match self.find(session_id) {
            Some(k) => k,
            None => {
                let m = CheckpointManager::new(project_id.to_owned(), session_id.to_owned());
                let ghost o = self.managers@;
                self.managers.push(m);
                assert(self.managers@.drop_last() =~= o);
                self.managers.len() - 1
            },
        }
    }

    /// Drops the manager of session `session_id`. Returns whether there was one.
    pub fn remove(&mut self, session_id: &str) -> (found: bool)
        requires
            old(self).wf(),
        ensures
            final(self).wf(),
            found == exists|i: int| 0 <= i < old(self).managers@.len() && (#[trigger] old(self).managers@[i]).session_id@
                == session_id@,
            found ==> exists|k: int| 0 <= k < old(self).managers@.len() && (#[trigger] old(self).managers@[k]).session_id@
                == session_id@ && final(self).managers@ == old(self).managers@.remove(k),
            !found ==> final(self).managers == old(self).managers,
            forall|i: int| 0 <= i < final(self).managers@.len() ==> (#[trigger] final(self).managers@[i]).session_id@
                != session_id@,
            final(self).managers@.len() == old(self).managers@.len() - if found { 1int } else { 0int },
    {
        match self.find(session_id) {
            Some(k) => {
                let ghost o = self.managers@;
                self.managers.remove(k);
                assert forall|i: int| 0 <= i < self.managers@.len() implies (#[trigger] self.managers@[i]).session_id@
                    != session_id@ by {
                    if i < k {
                        assert(self.managers@[i] == o[i]);
                        assert(o[i].session_id@ != o[k as int].session_id@);
                    } else {
                        assert(self.managers@[i] == o[i + 1]);
                        assert(o[k as int].session_id@ != o[i + 1].session_id@);
                    }
                }
                assert forall|a: int, b: int| 0 <= a < b < self.managers@.len() implies self.managers@[a].session_id@
                    != self.managers@[b].session_id@ by {
                    let a0 = if a < k { a } else { a + 1 };
                    let b0 = if b < k { b } else { b + 1 };
                    assert(self.managers@[a] == o[a0]);
                    assert(self.managers@[b] == o[b0]);
                }
                assert forall|i: int| 0 <= i < self.managers@.len() implies (#[trigger] self.managers@[i]).wf() by {
                    if i < k {
                        assert(self.managers@[i] == o[i]);
                    } else {
                        assert(self.managers@[i] == o[i + 1]);
                    }
                }
                true
            },
            None => false,
        }
    }

    /// Number of managers in use.
    pub fn active_count(&self) -> (r: usize)
        ensures
            r == self.managers@.len(),
    {
        self.managers.len()
    }
}

/// Reads a restore mode: `conversation_only`, `code_only`, `both`; none means both.
pub fn parse_restore_mode(mode: Option<&str>) -> (r: Option<RestoreMode>)
    ensures
        r == match mode {
            None => Some(RestoreMode::Both),
            Some(m) => if m@ == "conversation_only"@ {
                Some(RestoreMode::ConversationOnly)
            } else if m@ == "code_only"@ {
                Some(RestoreMode::CodeOnly)
            } else if m@ == "both"@ {
                Some(RestoreMode::Both)
            } else {
                None
            },
        },
{
    match mode {
        None => Some(RestoreMode::Both),
        Some(m) => if same_str(m, "conversation_only") {
            Some(RestoreMode::ConversationOnly)
        } else if same_str(m, "code_only") {
            Some(RestoreMode::CodeOnly)
        } else if same_str(m, "both") {
            Some(RestoreMode::Both)
        } else {
            None
        },
    }
}

/// Reads a checkpoint strategy: `manual`, `per_prompt`, `per_tool_use` or `smart`.
pub fn parse_strategy(s: &str) -> (r: Option<CheckpointStrategy>)
    ensures
        r == if s@ == "manual"@ {
            Some(CheckpointStrategy::Manual)
        } else if s@ == "per_prompt"@ {
            Some(CheckpointStrategy::PerPrompt)
        } else if s@ == "per_tool_use"@ {
            Some(CheckpointStrategy::PerToolUse)
        } else if s@ == "smart"@ {
            Some(CheckpointStrategy::Smart)
        } else {
            None
        },
{
    if same_str(s, "manual") {
        Some(CheckpointStrategy::Manual)
    } else if same_str(s, "per_prompt") {
        Some(CheckpointStrategy::PerPrompt)
    } else if same_str(s, "per_tool_use") {
        Some(CheckpointStrategy::PerToolUse)
    } else if same_str(s, "smart") {
        Some(CheckpointStrategy::Smart)
    } else {
        None
    }
}

proof fn lemma_path_absent(f: Seq<FileSnapshot>, p: Seq<char>)
    requires
        path_index(f, p) == -1,
        unique_paths(f),
    ensures
        forall|j: int| 0 <= j < f.len() ==> (#[trigger] f[j]).path@ != p,
    decreases f.len(),
{
    if f.len() > 0 {
        assert(unique_paths(f.drop_last()));
        lemma_path_absent(f.drop_last(), p);
        assert forall|j: int| 0 <= j < f.len() implies (#[trigger] f[j]).path@ != p by {
            if j < f.len() - 1 {
                assert(f[j] == f.drop_last()[j]);
            }
        }
    }
}

/// Comparing any checkpoint with itself finds no file changed, added or
/// deleted, and no change in tokens.
pub proof fn lemma_self_diff_empty(m: CheckpointManager, id: Seq<char>)
    requires
        m.wf(),
        find_id(m.store@, id) >= 0,
    ensures
        ({
            let a = m.store@[find_id(m.store@, id)];
            &&& modified_spec(a.files@, a.files@).len() == 0
            &&& missing_spec(a.files@, a.files@).len() == 0
            &&& a.checkpoint.total_tokens - a.checkpoint.total_tokens == 0
        }),
{
    lemma_find_id(m.store@, id);
    let a = m.store@[find_id(m.store@, id)];
    lemma_diff_self(a.files@);
}

} // verus!
