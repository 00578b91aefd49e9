//! Supervision of one agent child: the decisions taken on each of its
//! events, and the order of what the host is asked to publish.

use vstd::prelude::*;
use crate::registry::{ProcessRegistry, RegistryError};

verus! {

/// Token counts of one `usage` frame.
pub struct Usage {
    pub input_tokens: u64,
    pub output_tokens: u64,
    pub cache_creation_input_tokens: Option<u64>,
    pub cache_read_input_tokens: Option<u64>,
}

/// The two stdout frame shapes the supervisor reads; every other field of a
/// line is forwarded untouched.
pub struct Frame {
    /// `session_id` of a `{"type":"system","subtype":"init"}` frame.
    pub init_session_id: Option<String>,
    /// The frame's `usage`, when it has input and output token counts.
    pub usage: Option<Usage>,
    /// The frame's `model` tag.
    pub model: Option<String>,
}

/// Something that happened to a supervised child.
pub enum SupervisorEvent {
    /// A line on stdout, and what it says as a frame.
    Stdout { line: String, frame: Frame },
    /// A line on stderr.
    Stderr { line: String },
    /// The child exited, after its output was drained.
    Exited { success: bool },
}

/// What the supervisor asks its host to do. For forwarded lines,
/// `session_id: None` means the generic channel only and `Some` the session
/// channel and the generic one.
pub enum SupervisorAction {
    /// Announce the session; `run_id` is `None` when the registry refused it.
    SessionStarted { session_id: String, run_id: Option<u64>, pid: u32 },
    /// Persist one usage row.
    RecordUsage {
        session_id: String,
        model: String,
        input_tokens: u64,
        output_tokens: u64,
        cache_creation_input_tokens: Option<u64>,
        cache_read_input_tokens: Option<u64>,
    },
    /// Forward a stdout line.
    Output { session_id: Option<String>, line: String },
    /// Forward a stderr line.
    ErrorOutput { session_id: Option<String>, line: String },
    /// Announce that the session stopped.
    SessionStopped { session_id: String, success: bool },
    /// Report completion, on the session's channel or, for `None`, the
    /// generic one.
    Complete { session_id: Option<String>, success: bool },
}

/// The session an action is scoped to, if any.
pub open spec fn scoped(a: SupervisorAction) -> Option<Seq<char>> {
    match a {
        SupervisorAction::SessionStarted { .. } => None,
        SupervisorAction::RecordUsage { session_id, .. } => Some(session_id@),
        SupervisorAction::Output { session_id, .. } => match session_id {
            Some(s) => Some(s@),
            None => None,
        },
        SupervisorAction::ErrorOutput { session_id, .. } => match session_id {
            Some(s) => Some(s@),
            None => None,
        },
        SupervisorAction::SessionStopped { session_id, .. } => Some(session_id@),
        SupervisorAction::Complete { session_id, .. } => match session_id {
            Some(s) => Some(s@),
            None => None,
        },
    }
}

/// Whether `a` announces session `s`.
pub open spec fn announces(a: SupervisorAction, s: Seq<char>) -> bool {
    a matches SupervisorAction::SessionStarted { session_id, .. } && session_id@ == s
}

/// Whether `a` is a session-scoped completion.
pub open spec fn completes_session(a: SupervisorAction) -> bool {
    a matches SupervisorAction::Complete { session_id, .. } && session_id is Some
}

/// Whether some action of `h` announces session `s`.
pub open spec fn announced_in(h: Seq<SupervisorAction>, s: Seq<char>) -> bool {
    exists|j: int| 0 <= j < h.len() && announces(#[trigger] h[j], s)
}

/// The ordering the host sees: each session-scoped action comes after the
/// session was announced; after a session's completion only the generic
/// completion follows; a session is announced at most once.
pub open spec fn trace_ok(h: Seq<SupervisorAction>) -> bool {
    &&& forall|i: int| #![trigger h[i]] 0 <= i < h.len() && scoped(h[i]) is Some ==> announced_in(
        h.take(i),
        scoped(h[i])->0,
    )
    &&& forall|i: int, j: int| #![trigger h[i], h[j]] 0 <= i < j < h.len() && completes_session(h[i]) ==> (h[j] matches
        SupervisorAction::Complete { session_id, .. } && session_id is None)
    &&& forall|i: int, j: int| #![trigger h[i], h[j]] 0 <= i < j < h.len() ==> !(h[i] is SessionStarted && h[j] is SessionStarted)
}

/// Whether `h` holds a session-scoped completion.
pub open spec fn closed(h: Seq<SupervisorAction>) -> bool {
    exists|i: int| 0 <= i < h.len() && completes_session(#[trigger] h[i])
}

proof fn lemma_push_ok(h: Seq<SupervisorAction>, a: SupervisorAction)
    requires
        trace_ok(h),
        scoped(a) matches Some(s) ==> announced_in(h, s),
        a is SessionStarted ==> forall|j: int| 0 <= j < h.len() ==> !(#[trigger] h[j] is SessionStarted),
        !(a matches SupervisorAction::Complete { session_id, .. } && session_id is None) ==> !closed(h),
    ensures
        trace_ok(h.push(a)),
        closed(h.push(a)) == (closed(h) || completes_session(a)),
        forall|s: Seq<char>| announced_in(h, s) ==> announced_in(h.push(a), s),
        forall|s: Seq<char>| announces(a, s) ==> announced_in(h.push(a), s),
{
    let g = h.push(a);
    assert forall|i: int| #![trigger g[i]] 0 <= i < g.len() && scoped(g[i]) is Some implies announced_in(
        g.take(i),
        scoped(g[i])->0,
    ) by {
        if i < h.len() {
            assert(g.take(i) =~= h.take(i));
            assert(g[i] == h[i]);
        } else {
            assert(g.take(i) =~= h);
        }
    }
    assert forall|i: int, j: int| #![trigger g[i], g[j]] 0 <= i < j < g.len() && completes_session(g[i]) implies (g[j] matches
        SupervisorAction::Complete { session_id, .. } && session_id is None) by {
        assert(g[i] == h[i]);
        if j < h.len() {
            assert(g[j] == h[j]);
        } else {
            assert(closed(h));
        }
    }
    assert forall|i: int, j: int| #![trigger g[i], g[j]] 0 <= i < j < g.len() implies !(g[i] is SessionStarted && g[j] is SessionStarted) by {
        assert(g[i] == h[i]);
        if j < h.len() {
            assert(g[j] == h[j]);
        }
    }
    if closed(g) && !closed(h) {
        let i = choose|i: int| 0 <= i < g.len() && completes_session(#[trigger] g[i]);
        if i < h.len() {
            assert(g[i] == h[i]);
        }
    }
    if closed(h) {
        let i = choose|i: int| 0 <= i < h.len() && completes_session(#[trigger] h[i]);
        assert(g[i] == h[i]);
    }
    if completes_session(a) {
        assert(g[h.len() as int] == a);
    }
    assert forall|s: Seq<char>| announced_in(h, s) implies announced_in(g, s) by {
        let j = choose|j: int| 0 <= j < h.len() && announces(#[trigger] h[j], s);
        assert(g[j] == h[j]);
    }
    assert forall|s: Seq<char>| announces(a, s) implies announced_in(g, s) by {
        assert(g[h.len() as int] == a);
    }
}

/// The run id the registry gives session `sid`, if it takes it.
pub open spec fn registered_run(reg: ProcessRegistry, sid: String) -> Option<u64> {
    if crate::registry::session_index(reg.entries@, sid@) < 0 && reg.next_run_id < u64::MAX {
        Some(reg.next_run_id)
    } else {
        None
    }
}

/// The registry after session `sid` of supervisor `st` was registered under
/// run id `id` and the line `line` went to its live output.
pub open spec fn registered_with_line(
    old: ProcessRegistry,
    new: ProcessRegistry,
    st: Supervisor,
    sid: String,
    id: u64,
    line: String,
) -> bool {
    &&& new.next_run_id == id + 1
    &&& new.entries@.len() == old.entries@.len() + 1
    &&& new.entries@.drop_last() == old.entries@
    &&& new.entries@.last().run_id == id
    &&& new.entries@.last().session_id == sid
    &&& new.entries@.last().pid == st.pid
    &&& new.entries@.last().project_path == st.project_path
    &&& new.entries@.last().prompt == st.prompt
    &&& new.entries@.last().model == st.model
    &&& new.entries@.last().live_output@ == line@ + seq!['\n']
}

/// The registry after `line` went to the live output of run `run_id`, when
/// that run is registered; otherwise the registry is unchanged.
pub open spec fn line_appended(old: ProcessRegistry, new: ProcessRegistry, run_id: Option<u64>, line: String) -> bool {
    let k = match run_id {
        Some(id) => crate::registry::run_index(old.entries@, id),
        None => -1,
    };
    if k >= 0 {
        &&& new.next_run_id == old.next_run_id
        &&& new.entries@.len() == old.entries@.len()
        &&& new.entries@[k].live_output@ == old.entries@[k].live_output@ + line@ + seq!['\n']
        &&& new.entries@[k].run_id == old.entries@[k].run_id
        &&& new.entries@[k].session_id == old.entries@[k].session_id
        &&& new.entries@[k].pid == old.entries@[k].pid
        &&& forall|i: int| 0 <= i < new.entries@.len() && i != k ==> #[trigger] new.entries@[i] == old.entries@[i]
    } else {
        new == old
    }
}

/// The registry after the run `run_id` ended: its entry is gone.
pub open spec fn run_removed(old: ProcessRegistry, new: ProcessRegistry, run_id: Option<u64>) -> bool {
    let k = match run_id {
        Some(id) => crate::registry::run_index(old.entries@, id),
        None => -1,
    };
    if k >= 0 {
        new.entries@ == old.entries@.remove(k) && new.next_run_id == old.next_run_id
    } else {
        new == old
    }
}

/// The actions for a stdout line: the announcement when the line reveals
/// the session, a usage row when the session is known and the line carries
/// usage, and the line itself.
pub open spec fn stdout_actions(old: Supervisor, new: Supervisor, line: String, frame: Frame) -> Seq<SupervisorAction> {
    (if old.session_id is None && frame.init_session_id is Some {
        seq![
            SupervisorAction::SessionStarted {
                session_id: frame.init_session_id->0,
                run_id: new.run_id,
                pid: old.pid,
            },
        ]
    } else {
        Seq::empty()
    }) + (match (new.session_id, frame.usage) {
        (Some(sid), Some(u)) => seq![
            SupervisorAction::RecordUsage {
                session_id: sid,
                model: match frame.model {
                    Some(m) => m,
                    None => old.model,
                },
                input_tokens: u.input_tokens,
                output_tokens: u.output_tokens,
                cache_creation_input_tokens: u.cache_creation_input_tokens,
                cache_read_input_tokens: u.cache_read_input_tokens,
            },
        ],
        _ => Seq::empty(),
    }) + seq![SupervisorAction::Output { session_id: new.session_id, line }]
}

/// The supervisor of one child process: what it has learned so far and,
/// as ghost state, every action it has asked for.
pub struct Supervisor {
    pub pid: u32,
    pub project_path: String,
    pub prompt: String,
    pub model: String,
    /// The session id the child announced in its init frame.
    pub session_id: Option<String>,
    /// The run id the registry gave the session.
    pub run_id: Option<u64>,
    /// Whether the exit was handled; nothing follows it.
    pub finished: bool,
    pub history: Ghost<Seq<SupervisorAction>>,
}

fn copy_string(s: &String) -> (r: String)
    ensures
        r == *s,
{
    s.clone()
}

impl Supervisor {
    /// The history is well ordered and agrees with what the supervisor knows.
    pub open spec fn wf(&self) -> bool {
        &&& trace_ok(self.history@)
        &&& self.session_id matches Some(s) ==> announced_in(self.history@, s@)
        &&& self.session_id is None ==> forall|j: int| 0 <= j < self.history@.len() ==> !(
        #[trigger] self.history@[j] is SessionStarted)
        &&& !self.finished ==> !closed(self.history@)
    }

    /// A supervisor for a freshly spawned child.
    pub fn new(pid: u32, project_path: String, prompt: String, model: String) -> (r: Self)
        ensures
            r.wf(),
            r.pid == pid,
            r.project_path == project_path,
            r.prompt == prompt,
            r.model == model,
            r.session_id is None,
            r.run_id is None,
            !r.finished,
            r.history@.len() == 0,
    {
        Supervisor {
            pid,
            project_path,
            prompt,
            model,
            session_id: None,
            run_id: None,
            finished: false,
            history: Ghost(Seq::empty()),
        }
    }

    fn emit(&mut self, out: &mut Vec<SupervisorAction>, a: SupervisorAction)
        requires
            trace_ok(old(self).history@),
            scoped(a) matches Some(s) ==> announced_in(old(self).history@, s),
            a is SessionStarted ==> forall|j: int| 0 <= j < old(self).history@.len() ==> !(
            #[trigger] old(self).history@[j] is SessionStarted),
            !(a matches SupervisorAction::Complete { session_id, .. } && session_id is None) ==> !closed(
                old(self).history@,
            ),
        ensures
            final(self).history@ == old(self).history@.push(a),
            final(out)@ == old(out)@.push(a),
            trace_ok(final(self).history@),
            closed(final(self).history@) == (closed(old(self).history@) || completes_session(a)),
            forall|s: Seq<char>| announced_in(old(self).history@, s) ==> announced_in(final(self).history@, s),
            forall|s: Seq<char>| announces(a, s) ==> announced_in(final(self).history@, s),
            final(self).pid == old(self).pid,
            final(self).project_path == old(self).project_path,
            final(self).prompt == old(self).prompt,
            final(self).model == old(self).model,
            final(self).session_id == old(self).session_id,
            final(self).run_id == old(self).run_id,
            final(self).finished == old(self).finished,
    {
        proof {
            lemma_push_ok(self.history@, a);
        }
        self.history = Ghost(self.history@.push(a));
        out.push(a);
    }

    /// Handles one event of the child and returns the actions for the host,
    /// in order. Nothing is done once the exit was handled.
    pub fn on_event(&mut self, registry: &mut ProcessRegistry, event: SupervisorEvent) -> (r: Vec<
        SupervisorAction,
    >)
        requires
            old(self).wf(),
            old(registry).wf(),
        ensures
            final(self).wf(),
            final(registry).wf(),
            final(self).history@ == old(self).history@ + r@,
            old(self).finished ==> r@.len() == 0 && *final(self) == *old(self),
            !old(self).finished ==> match event {
                SupervisorEvent::Stdout { line, frame } => {
                    let starts = old(self).session_id is None && frame.init_session_id is Some;
                    &&& old(self).session_id is Some ==> final(self).session_id == old(self).session_id
                    &&& old(self).session_id is None ==> final(self).session_id == frame.init_session_id
                    &&& starts ==> final(self).run_id == registered_run(*old(registry), frame.init_session_id->0)
                    &&& !starts ==> final(self).run_id == old(self).run_id
                    &&& r@ == stdout_actions(*old(self), *final(self), line, frame)
                    &&& (starts && registered_run(*old(registry), frame.init_session_id->0) is Some) ==> registered_with_line(
                        *old(registry),
                        *final(registry),
                        *old(self),
                        frame.init_session_id->0,
                        registered_run(*old(registry), frame.init_session_id->0)->0,
                        line,
                    )
                    &&& (starts && registered_run(*old(registry), frame.init_session_id->0) is None) ==> *final(registry)
                        == *old(registry)
                    &&& !starts ==> line_appended(*old(registry), *final(registry), old(self).run_id, line)
                    &&& !final(self).finished
                },
                SupervisorEvent::Stderr { line } => {
                    &&& *final(registry) == *old(registry)
                    &&& r@ == seq![SupervisorAction::ErrorOutput { session_id: old(self).session_id, line }]
                    &&& final(self).session_id == old(self).session_id
                    &&& !final(self).finished
                },
                SupervisorEvent::Exited { success } => {
                    &&& final(self).finished
                    &&& run_removed(*old(registry), *final(registry), old(self).run_id)
                    &&& r@.last() == (SupervisorAction::Complete { session_id: None, success })
                    &&& old(self).session_id matches Some(s) ==> r@ == seq![
                        SupervisorAction::SessionStopped { session_id: s, success },
                        SupervisorAction::Complete { session_id: Some(s), success },
                        SupervisorAction::Complete { session_id: None, success },
                    ]
                    &&& old(self).session_id is None ==> r@ == seq![
                        SupervisorAction::Complete { session_id: None, success },
                    ]
                },
            },
    {
        let mut out: Vec<SupervisorAction> = Vec::new();
        if self.finished {
            return out;
        }
        let ghost h0 = self.history@;
        match event {
            SupervisorEvent::Stdout { line, frame } => {
                if self.session_id.is_none() {
                    match frame.init_session_id {
                        Some(sid) => {
                            let reg = registry.register_session(
                                copy_string(&sid),
                                self.pid,
                                copy_string(&self.project_path),
                                copy_string(&self.prompt),
                                copy_string(&self.model),
                            );
                            let run_id = match reg {
                                Ok(id) => Some(id),
                                Err(_) => None,
                            };
                            self.run_id = run_id;
                            let a = SupervisorAction::SessionStarted {
                                session_id: copy_string(&sid),
                                run_id,
                                pid: self.pid,
                            };
                            let ghost ga = a;
                            self.emit(&mut out, a);
                            assert(announces(ga, sid@));
                            self.session_id = Some(sid);
                        },
                        None => {},
                    }
                }
                match (&self.session_id, &frame.usage) {
                    (Some(sid), Some(u)) => {
                        let model = match &frame.model {
                            Some(m) => copy_string(m),
                            None => copy_string(&self.model),
                        };
                        let a = SupervisorAction::RecordUsage {
                            session_id: copy_string(sid),
                            model,
                            input_tokens: u.input_tokens,
                            output_tokens: u.output_tokens,
                            cache_creation_input_tokens: u.cache_creation_input_tokens,
                            cache_read_input_tokens: u.cache_read_input_tokens,
                        };
                        self.emit(&mut out, a);
                    },
                    _ => {},
                }
                let ghost reg_mid = *registry;
                match self.run_id {
                    Some(id) => {
                        proof {
                            if old(self).session_id is None && frame.init_session_id is Some
                                && registered_run(*old(registry), frame.init_session_id->0) is Some {
                                assert(reg_mid.entries@.last().run_id == id);
                                assert(crate::registry::run_index(reg_mid.entries@, id) == reg_mid.entries@.len() - 1);
                            }
                        }
                        registry.append_live_output(id, line.as_str());
                        proof {
                            if old(self).session_id is None && frame.init_session_id is Some
                                && registered_run(*old(registry), frame.init_session_id->0) is Some {
                                let k = reg_mid.entries@.len() - 1;
                                assert(registry.entries@.drop_last() =~= old(registry).entries@) by {
                                    assert forall|i: int| 0 <= i < k implies registry.entries@[i] == old(registry).entries@[i] by {
                                        assert(registry.entries@[i] == reg_mid.entries@[i]);
                                        assert(reg_mid.entries@[i] == reg_mid.entries@.drop_last()[i]);
                                    }
                                }
                                assert(reg_mid.entries@[k].live_output@.len() == 0);
                                assert(registry.entries@.last().live_output@ =~= line@ + seq!['\n']);
                            }
                        }
                    },
                    None => {},
                }
                let scope = match &self.session_id {
                    Some(s) => Some(copy_string(s)),
                    None => None,
                };
                let a = SupervisorAction::Output { session_id: scope, line };
                self.emit(&mut out, a);
            },
            SupervisorEvent::Stderr { line } => {
                let scope = match &self.session_id {
                    Some(s) => Some(copy_string(s)),
                    None => None,
                };
                let a = SupervisorAction::ErrorOutput { session_id: scope, line };
                self.emit(&mut out, a);
            },
            SupervisorEvent::Exited { success } => {
                match &self.session_id {
                    Some(s) => {
                        let sid = copy_string(s);
                        self.emit(&mut out, SupervisorAction::SessionStopped { session_id: copy_string(&sid), success });
                        self.emit(&mut out, SupervisorAction::Complete { session_id: Some(sid), success });
                    },
                    None => {},
                }
                self.emit(&mut out, SupervisorAction::Complete { session_id: None, success });
                match self.run_id {
                    Some(id) => {
                        registry.unregister(id);
                    },
                    None => {},
                }
                self.finished = true;
            },
        }
        assert(self.history@ =~= h0 + out@);
        out
    }
}

/// Every state the supervisor reaches keeps the order the host relies on:
/// a session's actions follow its announcement, its completion is followed
/// only by the generic one, and it is announced at most once.
pub proof fn lemma_supervisor_order(st: Supervisor)
    requires
        st.wf(),
    ensures
        forall|i: int| #![trigger st.history@[i]] 0 <= i < st.history@.len() && scoped(st.history@[i]) is Some
            ==> exists|j: int| 0 <= j < i && announces(#[trigger] st.history@[j], scoped(st.history@[i])->0),
        forall|i: int, j: int| #![trigger st.history@[i], st.history@[j]] 0 <= i < j < st.history@.len()
            && completes_session(st.history@[i]) ==> (st.history@[j] matches SupervisorAction::Complete {
            session_id,
            ..
        } && session_id is None),
{
    let h = st.history@;
    assert forall|i: int| #![trigger h[i]] 0 <= i < h.len() && scoped(h[i]) is Some implies exists|j: int|
        0 <= j < i && announces(#[trigger] h[j], scoped(h[i])->0) by {
        assert(announced_in(h.take(i), scoped(h[i])->0));
        let j = choose|j: int| 0 <= j < h.take(i).len() && announces(#[trigger] h.take(i)[j], scoped(h[i])->0);
        assert(h.take(i)[j] == h[j]);
    }
}

/// A step of cancelling a run.
pub enum CancelStep {
    /// Report the cancellation; `None` is the generic channel.
    Cancelled { session_id: Option<String> },
    /// Wait this many milliseconds.
    Pause { millis: u64 },
    /// Report completion, unsuccessful.
    Complete { session_id: Option<String>, success: bool },
}

/// The grace between a cancellation report and the completion that follows.
pub const CANCEL_GRACE_MS: u64 = 100;

/// The reports a cancellation makes, whether or not any process was killed:
/// for the session, if one is named, then on the generic channel; each
/// cancellation is followed by a pause and an unsuccessful completion.
pub fn cancel_reports(session_id: Option<String>) -> (r: Vec<CancelStep>)
    ensures
        session_id matches Some(s) ==> r@ == seq![
            CancelStep::Cancelled { session_id: Some(s) },
            CancelStep::Pause { millis: CANCEL_GRACE_MS },
            CancelStep::Complete { session_id: Some(s), success: false },
            CancelStep::Cancelled { session_id: None },
            CancelStep::Pause { millis: CANCEL_GRACE_MS },
            CancelStep::Complete { session_id: None, success: false },
        ],
        session_id is None ==> r@ == seq![
            CancelStep::Cancelled { session_id: None },
            CancelStep::Pause { millis: CANCEL_GRACE_MS },
            CancelStep::Complete { session_id: None, success: false },
        ],
{
    let mut out: Vec<CancelStep> = Vec::new();
    match session_id {
        Some(s) => {
            let t = copy_string(&s);
            out.push(CancelStep::Cancelled { session_id: Some(s) });
            out.push(CancelStep::Pause { millis: CANCEL_GRACE_MS });
            out.push(CancelStep::Complete { session_id: Some(t), success: false });
        },
        None => {},
    }
    out.push(CancelStep::Cancelled { session_id: None });
    out.push(CancelStep::Pause { millis: CANCEL_GRACE_MS });
    out.push(CancelStep::Complete { session_id: None, success: false });
    out
}

/// How a cancellation goes about killing the child, tried in this order.
pub enum KillMethod {
    /// Kill the registered run.
    Registry { run_id: u64 },
    /// Kill the child held in the current-process slot.
    CurrentSlot,
}

/// The first way to kill the child of session `session_id`: through the
/// registry when the session is registered, else through the slot.
pub fn first_kill_method(registry: &ProcessRegistry, session_id: &Option<String>) -> (r: KillMethod)
    ensures
        match session_id {
            Some(s) => {
                let k = crate::registry::session_index(registry.entries@, s@);
                if k >= 0 {
                    r == (KillMethod::Registry { run_id: registry.entries@[k].run_id })
                } else {
                    r == KillMethod::CurrentSlot
                }
            },
            None => r == KillMethod::CurrentSlot,
        },
{
    match session_id {
        Some(s) => match registry.find_session(s.as_str()) {
            Some(k) => KillMethod::Registry { run_id: registry.entries[k].run_id },
            None => KillMethod::CurrentSlot,
        },
        None => KillMethod::CurrentSlot,
    }
}

} // verus!
