//! The registry of live agent processes, keyed by session and run id.

use vstd::prelude::*;
use crate::text::same_str;

verus! {

/// A live child process, known by the session id it announced.
pub struct ProcessInfo {
    pub run_id: u64,
    pub session_id: String,
    pub pid: u32,
    pub project_path: String,
    pub prompt: String,
    pub model: String,
    /// Lines the child printed so far, each ended by `\n`.
    pub live_output: String,
}

/// Why a registration was refused.
#[derive(PartialEq, Eq, Structural, Clone, Copy, Debug)]
pub enum RegistryError {
    /// A live process holds that session id already.
    SessionTaken,
    /// Run ids are used up.
    Exhausted,
}

/// The live child processes.
pub struct ProcessRegistry {
    pub entries: Vec<ProcessInfo>,
    /// The run id the next registration gets.
    pub next_run_id: u64,
}

/// The index of the entry with session id `sid`, or -1.
pub open spec fn session_index(e: Seq<ProcessInfo>, sid: Seq<char>) -> int
    decreases e.len(),
{
    if e.len() == 0 {
        -1
    } else if e.last().session_id@ == sid {
        e.len() - 1
    } else {
        session_index(e.drop_last(), sid)
    }
}

/// The index of the entry with run id `run_id`, or -1.
pub open spec fn run_index(e: Seq<ProcessInfo>, run_id: u64) -> int
    decreases e.len(),
{
    if e.len() == 0 {
        -1
    } else if e.last().run_id == run_id {
        e.len() - 1
    } else {
        run_index(e.drop_last(), run_id)
    }
}

proof fn lemma_session_index(e: Seq<ProcessInfo>, sid: Seq<char>)
    ensures
        -1 <= session_index(e, sid) < e.len(),
        session_index(e, sid) >= 0 ==> e[session_index(e, sid)].session_id@ == sid,
        session_index(e, sid) < 0 ==> forall|j: int| 0 <= j < e.len() ==> (#[trigger] e[j]).session_id@ != sid,
    decreases e.len(),
{
    if e.len() > 0 {
        lemma_session_index(e.drop_last(), sid);
        if session_index(e, sid) < 0 {
            assert forall|j: int| 0 <= j < e.len() implies (#[trigger] e[j]).session_id@ != sid by {
                if j < e.len() - 1 {
                    assert(e[j] == e.drop_last()[j]);
                }
            }
        }
        if 0 <= session_index(e, sid) < e.len() - 1 {
            assert(e[session_index(e, sid)] == e.drop_last()[session_index(e, sid)]);
        }
    }
}

proof fn lemma_run_index(e: Seq<ProcessInfo>, run_id: u64)
    ensures
        -1 <= run_index(e, run_id) < e.len(),
        run_index(e, run_id) >= 0 ==> e[run_index(e, run_id)].run_id == run_id,
        run_index(e, run_id) < 0 ==> forall|j: int| 0 <= j < e.len() ==> (#[trigger] e[j]).run_id != run_id,
    decreases e.len(),
{
    if e.len() > 0 {
        lemma_run_index(e.drop_last(), run_id);
        if run_index(e, run_id) < 0 {
            assert forall|j: int| 0 <= j < e.len() implies (#[trigger] e[j]).run_id != run_id by {
                if j < e.len() - 1 {
                    assert(e[j] == e.drop_last()[j]);
                }
            }
        }
        if 0 <= run_index(e, run_id) < e.len() - 1 {
            assert(e[run_index(e, run_id)] == e.drop_last()[run_index(e, run_id)]);
        }
    }
}

impl ProcessRegistry {
    /// Session ids and run ids are unique, and every run id is below the next.
    pub open spec fn wf(&self) -> bool {
        &&& self.next_run_id >= 1
        &&& forall|i: int, j: int| 0 <= i < j < self.entries@.len() ==>
            self.entries@[i].session_id@ != self.entries@[j].session_id@
        &&& forall|i: int, j: int| 0 <= i < j < self.entries@.len() ==>
            self.entries@[i].run_id != self.entries@[j].run_id
        &&& forall|i: int| 0 <= i < self.entries@.len() ==> 1 <= (#[trigger] self.entries@[i]).run_id
            < self.next_run_id
    }

    /// An empty registry; the first run id is 1.
    pub fn new() -> (r: Self)
        ensures
            r.wf(),
            r.entries@.len() == 0,
            r.next_run_id == 1,
    {
        ProcessRegistry { entries: Vec::new(), next_run_id: 1 }
    }

    /// The position of the live process of session `sid`.
    pub fn find_session(&self, sid: &str) -> (r: Option<usize>)
        ensures
            match r {
                Some(k) => k == session_index(self.entries@, sid@) && k < self.entries@.len(),
                None => session_index(self.entries@, sid@) == -1,
            },
    {
        proof {
            lemma_session_index(self.entries@, sid@);
        }
        let ghost e = self.entries@;
        let mut k: usize = self.entries.len();
        assert(e.subrange(0, k as int) =~= e);
        while k > 0
            invariant
                k <= self.entries.len(),
                e == self.entries@,
                session_index(e, sid@) == session_index(e.subrange(0, k as int), sid@),
            decreases k,
        {
            assert(e.subrange(0, k as int).drop_last() =~= e.subrange(0, k - 1));
            assert(e.subrange(0, k as int).last() == e[k - 1]);
            if same_str(self.entries[k - 1].session_id.as_str(), sid) {
                return Some(k - 1);
            }
            k = k - 1;
        }
        None
    }

    /// The position of the live process with run id `run_id`.
    pub fn find_run(&self, run_id: u64) -> (r: Option<usize>)
        ensures
            match r {
                Some(k) => k == run_index(self.entries@, run_id) && k < self.entries@.len(),
                None => run_index(self.entries@, run_id) == -1,
            },
    {
        proof {
            lemma_run_index(self.entries@, run_id);
        }
        let ghost e = self.entries@;
        let mut k: usize = self.entries.len();
        assert(e.subrange(0, k as int) =~= e);
        while k > 0
            invariant
                k <= self.entries.len(),
                e == self.entries@,
                run_index(e, run_id) == run_index(e.subrange(0, k as int), run_id),
            decreases k,
        {
            assert(e.subrange(0, k as int).drop_last() =~= e.subrange(0, k - 1));
            assert(e.subrange(0, k as int).last() == e[k - 1]);
            if self.entries[k - 1].run_id == run_id {
                return Some(k - 1);
            }
            k = k - 1;
        }
        None
    }

    /// Registers the process of session `session_id` under a fresh run id.
    pub fn register_session(
        &mut self,
        session_id: String,
        pid: u32,
        project_path: String,
        prompt: String,
        model: String,
    ) -> (r: Result<u64, RegistryError>)
        requires
            old(self).wf(),
        ensures
            final(self).wf(),
            session_index(old(self).entries@, session_id@) >= 0 ==> r == Err::<u64, RegistryError>(
                RegistryError::SessionTaken),
            session_index(old(self).entries@, session_id@) < 0 && old(self).next_run_id == u64::MAX ==> r
                == Err::<u64, RegistryError>(RegistryError::Exhausted),
            r is Err ==> *final(self) == *old(self),
            session_index(old(self).entries@, session_id@) < 0 && old(self).next_run_id < u64::MAX ==> r
                == Ok::<u64, RegistryError>(old(self).next_run_id),
            r matches Ok(id) ==> {
                &&& final(self).next_run_id == id + 1
                &&& final(self).entries@ == old(self).entries@.push(ProcessInfo {
                    run_id: id,
                    session_id: session_id,
                    pid: pid,
                    project_path: project_path,
                    prompt: prompt,
                    model: model,
                    live_output: final(self).entries@.last().live_output,
                })
                &&& final(self).entries@.last().live_output@.len() == 0
            },
    {
        if self.find_session(session_id.as_str()).is_some() {
            return Err(RegistryError::SessionTaken);
        }
        if self.next_run_id == u64::MAX {
            return Err(RegistryError::Exhausted);
        }
        proof {
            lemma_session_index(self.entries@, session_id@);
        }
        let id = self.next_run_id;
        self.entries.push(ProcessInfo {
            run_id: id,
            session_id,
            pid,
            project_path,
            prompt,
            model,
            live_output: String::new(),
        });
        self.next_run_id = id + 1;
        Ok(id)
    }

    /// Removes the process with run id `run_id`. Returns whether one was there.
    pub fn unregister(&mut self, run_id: u64) -> (found: bool)
        requires
            old(self).wf(),
        ensures
            final(self).wf(),
            found == (run_index(old(self).entries@, run_id) >= 0),
            found ==> final(self).entries@ == old(self).entries@.remove(run_index(old(self).entries@, run_id)),
            !found ==> *final(self) == *old(self),
            final(self).next_run_id == old(self).next_run_id,
    {
        match self.find_run(run_id) {
            Some(k) => {
                let ghost e0 = self.entries@;
                self.entries.remove(k);
                assert(forall|i: int| 0 <= i < self.entries@.len() ==> self.entries@[i] == (if i < k { e0[i] } else { e0[i + 1] }));
                true
            },
            None => false,
        }
    }

    /// Appends one output line, ended by `\n`, to the live output of run `run_id`.
    pub fn append_live_output(&mut self, run_id: u64, line: &str) -> (found: bool)
        requires
            old(self).wf(),
        ensures
            final(self).wf(),
            found == (run_index(old(self).entries@, run_id) >= 0),
            !found ==> *final(self) == *old(self),
            found ==> {
                let k = run_index(old(self).entries@, run_id);
                &&& final(self).entries@.len() == old(self).entries@.len()
                &&& final(self).entries@[k].live_output@ == old(self).entries@[k].live_output@ + line@ + seq!['\n']
                &&& final(self).entries@[k].run_id == old(self).entries@[k].run_id
                &&& final(self).entries@[k].session_id == old(self).entries@[k].session_id
                &&& final(self).entries@[k].pid == old(self).entries@[k].pid
                &&& final(self).entries@[k].project_path == old(self).entries@[k].project_path
                &&& final(self).entries@[k].prompt == old(self).entries@[k].prompt
                &&& final(self).entries@[k].model == old(self).entries@[k].model
                &&& forall|i: int| 0 <= i < final(self).entries@.len() && i != k ==> #[trigger] final(self).entries@[i]
                    == old(self).entries@[i]
            },
            final(self).next_run_id == old(self).next_run_id,
    {
        match self.find_run(run_id) {
            Some(k) => {
                let ghost e0 = self.entries@;
                let mut e = ProcessInfo {
                    run_id: 0,
                    session_id: String::new(),
                    pid: 0,
                    project_path: String::new(),
                    prompt: String::new(),
                    model: String::new(),
                    live_output: String::new(),
                };
                self.entries.set_and_swap(k, &mut e);
                e.live_output.append(line);
                e.live_output.append("\n");
                proof {
                    reveal_strlit("\n");
                }
                self.entries.set(k, e);
                assert(self.entries@[k as int].session_id == e0[k as int].session_id);
                assert(self.entries@[k as int].pid == e0[k as int].pid);
                assert(self.entries@[k as int].model == e0[k as int].model);
                true
            },
            None => false,
        }
    }

    /// The live output of session `sid`, or empty when no process has it.
    pub fn session_output(&self, sid: &str) -> (r: String)
        ensures
            session_index(self.entries@, sid@) >= 0 ==> r@ == self.entries@[session_index(self.entries@, sid@)].live_output@,
            session_index(self.entries@, sid@) < 0 ==> r@.len() == 0,
    {
        match self.find_session(sid) {
            Some(k) => self.entries[k].live_output.clone(),
            None => String::new(),
        }
    }
}

} // verus!
