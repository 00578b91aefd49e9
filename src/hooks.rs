//! Hook decisions: conditions, retries, time limits and chain outcomes.

use vstd::prelude::*;
use crate::text::{trimmed, chars_of, trim_chars, slice_chars, same_str, string_of};

verus! {

/// The events hooks run on.
#[derive(PartialEq, Eq, Structural, Clone, Copy, Debug)]
pub enum HookEvent {
    PreToolUse,
    PostToolUse,
    Notification,
    Stop,
    SubagentStop,
    OnContextCompact,
    OnAgentSwitch,
    OnFileChange,
    OnSessionStart,
    OnSessionEnd,
    OnCheckpointCreate,
    OnCheckpointRestore,
    OnTabSwitch,
}

/// The name of a hook event.
pub open spec fn event_name(e: HookEvent) -> Seq<char> {
    match e {
        HookEvent::PreToolUse => "PreToolUse"@,
        HookEvent::PostToolUse => "PostToolUse"@,
        HookEvent::Notification => "Notification"@,
        HookEvent::Stop => "Stop"@,
        HookEvent::SubagentStop => "SubagentStop"@,
        HookEvent::OnContextCompact => "OnContextCompact"@,
        HookEvent::OnAgentSwitch => "OnAgentSwitch"@,
        HookEvent::OnFileChange => "OnFileChange"@,
        HookEvent::OnSessionStart => "OnSessionStart"@,
        HookEvent::OnSessionEnd => "OnSessionEnd"@,
        HookEvent::OnCheckpointCreate => "OnCheckpointCreate"@,
        HookEvent::OnCheckpointRestore => "OnCheckpointRestore"@,
        HookEvent::OnTabSwitch => "OnTabSwitch"@,
    }
}

impl HookEvent {
    /// The name of this event.
    pub fn as_str(&self) -> (r: &'static str)
        ensures
            r@ == event_name(*self),
    {
        match self {
            HookEvent::PreToolUse => "PreToolUse",
            HookEvent::PostToolUse => "PostToolUse",
            HookEvent::Notification => "Notification",
            HookEvent::Stop => "Stop",
            HookEvent::SubagentStop => "SubagentStop",
            HookEvent::OnContextCompact => "OnContextCompact",
            HookEvent::OnAgentSwitch => "OnAgentSwitch",
            HookEvent::OnFileChange => "OnFileChange",
            HookEvent::OnSessionStart => "OnSessionStart",
            HookEvent::OnSessionEnd => "OnSessionEnd",
            HookEvent::OnCheckpointCreate => "OnCheckpointCreate",
            HookEvent::OnCheckpointRestore => "OnCheckpointRestore",
            HookEvent::OnTabSwitch => "OnTabSwitch",
        }
    }
}

/// A condition guarding a hook.
pub struct ConditionalTrigger {
    /// `event == '...'` or `session_id == '...'`.
    pub condition: String,
    pub enabled: bool,
    pub priority: Option<i32>,
}

/// A hook: a shell command with its limits and follow-ups.
pub struct EnhancedHook {
    pub command: String,
    /// Seconds; 30 when unset.
    pub timeout: Option<u64>,
    /// Extra attempts after a failure; none when unset.
    pub retry: Option<u32>,
    pub condition: Option<ConditionalTrigger>,
    pub on_success: Option<Vec<String>>,
    pub on_failure: Option<Vec<String>>,
}

/// What running one hook gave.
pub struct HookExecutionResult {
    pub success: bool,
    pub output: String,
    pub error: Option<String>,
    pub execution_time_ms: u64,
    pub hook_command: String,
}

/// The first position of `==` in `s`, or -1.
pub open spec fn first_pair(s: Seq<char>) -> int
    decreases s.len(),
{
    if s.len() < 2 {
        -1
    } else if s[0] == '=' && s[1] == '=' {
        0
    } else {
        let r = first_pair(s.drop_first());
        if r < 0 { -1 } else { r + 1 }
    }
}

pub open spec fn is_quote(c: char) -> bool {
    c == '\'' || c == '"'
}

/// Number of leading quote characters of `s`.
pub open spec fn leading_quotes(s: Seq<char>) -> nat
    decreases s.len(),
{
    if s.len() > 0 && is_quote(s[0]) { 1 + leading_quotes(s.drop_first()) } else { 0 }
}

/// Number of trailing quote characters of `s`.
pub open spec fn trailing_quotes(s: Seq<char>) -> nat
    decreases s.len(),
{
    if s.len() > 0 && is_quote(s.last()) { 1 + trailing_quotes(s.drop_last()) } else { 0 }
}

/// `s` without leading and trailing quote characters.
pub open spec fn unquoted(s: Seq<char>) -> Seq<char> {
    let t = s.subrange(leading_quotes(s) as int, s.len() as int);
    t.subrange(0, t.len() - trailing_quotes(t))
}

/// Whether a hook's condition holds: without `==` it always does; with one
/// `==` it compares `event` or `session_id` with the quoted literal on the
/// right; anything else fails.
pub open spec fn condition_holds(cond: Seq<char>, event: Seq<char>, session_id: Seq<char>) -> bool {
    let k = first_pair(cond);
    if k < 0 {
        true
    } else {
        let rest = cond.subrange(k + 2, cond.len() as int);
        if first_pair(rest) >= 0 {
            false
        } else {
            let left = trimmed(cond.subrange(0, k));
            let right = unquoted(trimmed(rest));
            if left == "event"@ {
                event == right
            } else if left == "session_id"@ {
                session_id == right
            } else {
                false
            }
        }
    }
}

proof fn lemma_first_pair(s: Seq<char>)
    ensures
        -1 <= first_pair(s) <= s.len() - 2 || first_pair(s) == -1,
        first_pair(s) >= 0 ==> s[first_pair(s)] == '=' && s[first_pair(s) + 1] == '=',
        forall|j: int| 0 <= j < s.len() - 1 && (first_pair(s) < 0 || j < first_pair(s)) ==> !(#[trigger] s[j] == '='
            && s[j + 1] == '='),
    decreases s.len(),
{
    if s.len() >= 2 && !(s[0] == '=' && s[1] == '=') {
        lemma_first_pair(s.drop_first());
        assert forall|j: int| 0 <= j < s.len() - 1 && (first_pair(s) < 0 || j < first_pair(s)) implies !(#[trigger] s[j]
            == '=' && s[j + 1] == '=') by {
            if j > 0 {
                assert(s[j] == s.drop_first()[j - 1]);
                assert(s[j + 1] == s.drop_first()[j]);
            }
        }
    }
}

/// The first position of `==` in `v` at or after `from`.
fn find_pair(v: &Vec<char>, from: usize) -> (r: Option<usize>)
    requires
        from <= v.len(),
    ensures
        r matches Some(k) ==> from <= k && k + 1 < v.len() && first_pair(v@.subrange(from as int, v.len() as int))
            == k - from,
        r is None ==> first_pair(v@.subrange(from as int, v.len() as int)) == -1,
{
    let ghost s = v@.subrange(from as int, v.len() as int);
    let mut i = from;
    while v.len() - i >= 2
        invariant
            from <= i <= v.len(),
            s == v@.subrange(from as int, v.len() as int),
            forall|j: int| from <= j < i ==> !(#[trigger] v@[j] == '=' && v@[j + 1] == '='),
        decreases v.len() - i,
    {
        if v[i] == '=' && v[i + 1] == '=' {
            proof {
                lemma_first_pair(s);
                let f = first_pair(s);
                assert(s[i - from] == v@[i as int]);
                assert(s[i - from + 1] == v@[i + 1]);
                if 0 <= f < i - from {
                    assert(s[f] == v@[f + from]);
                    assert(s[f + 1] == v@[f + from + 1]);
                    assert(!(v@[f + from] == '=' && v@[f + from + 1] == '='));
                }
            }
            return Some(i);
        }
        i = i + 1;
    }
    proof {
        lemma_first_pair(s);
        let f = first_pair(s);
        if f >= 0 {
            assert(s[f] == v@[f + from]);
            assert(s[f + 1] == v@[f + from + 1]);
            assert(!(v@[f + from] == '=' && v@[f + from + 1] == '='));
        }
    }
    None
}

proof fn lemma_leading_quotes(s: Seq<char>, i: int)
    requires
        0 <= i <= s.len(),
        forall|m: int| 0 <= m < i ==> is_quote(#[trigger] s[m]),
        i == s.len() || !is_quote(s[i]),
    ensures
        leading_quotes(s) == i,
    decreases s.len(),
{
    if i > 0 {
        assert(is_quote(s[0]));
        assert forall|m: int| 0 <= m < i - 1 implies is_quote(#[trigger] s.drop_first()[m]) by {
            assert(s.drop_first()[m] == s[m + 1]);
        }
        if i - 1 < s.drop_first().len() {
            assert(s.drop_first()[i - 1] == s[i]);
        }
        lemma_leading_quotes(s.drop_first(), i - 1);
    }
}

proof fn lemma_trailing_quotes(s: Seq<char>, j: int)
    requires
        0 <= j <= s.len(),
        forall|m: int| j <= m < s.len() ==> is_quote(#[trigger] s[m]),
        j == 0 || !is_quote(s[j - 1]),
    ensures
        trailing_quotes(s) == s.len() - j,
    decreases s.len(),
{
    if j < s.len() {
        assert(is_quote(s.last()));
        assert forall|m: int| j <= m < s.drop_last().len() implies is_quote(#[trigger] s.drop_last()[m]) by {
            assert(s.drop_last()[m] == s[m]);
        }
        if j > 0 {
            assert(s.drop_last()[j - 1] == s[j - 1]);
        }
        lemma_trailing_quotes(s.drop_last(), j);
    }
}

/// `s` without leading and trailing quote characters.
fn strip_quotes(s: &Vec<char>) -> (r: Vec<char>)
    ensures
        r@ == unquoted(s@),
{
    let mut i: usize = 0;
    while i < s.len() && (s[i] == '\'' || s[i] == '"')
        invariant
            i <= s.len(),
            forall|m: int| 0 <= m < i ==> is_quote(#[trigger] s@[m]),
        decreases s.len() - i,
    {
        i = i + 1;
    }
    proof {
        lemma_leading_quotes(s@, i as int);
    }
    let ghost t = s@.subrange(i as int, s@.len() as int);
    let mut j: usize = s.len();
    while j > i && (s[j - 1] == '\'' || s[j - 1] == '"')
        invariant
            i <= j <= s.len(),
            forall|m: int| j <= m < s.len() ==> is_quote(#[trigger] s@[m]),
        decreases j,
    {
        j = j - 1;
    }
    proof {
        assert forall|m: int| j - i <= m < t.len() implies is_quote(#[trigger] t[m]) by {
            assert(t[m] == s@[m + i]);
        }
        if j > i {
            assert(t[j - i - 1] == s@[j - 1]);
        }
        lemma_trailing_quotes(t, j - i);
    }
    let r = slice_chars(s, i, j);
    assert(r@ =~= t.subrange(0, t.len() - trailing_quotes(t)));
    r
}

/// Evaluates a hook's condition against the event name and session id.
pub fn evaluate_condition(condition: &str, event: &str, session_id: &str) -> (r: bool)
    ensures
        r == condition_holds(condition@, event@, session_id@),
{
    let v = chars_of(condition);
    let k = match find_pair(&v, 0) {
        None => {
            assert(v@.subrange(0, v@.len() as int) =~= v@);
            return true;
        },
        Some(k) => k,
    };
    assert(v@.subrange(0, v@.len() as int) =~= v@);
    proof {
        lemma_first_pair(v@);
    }
    match find_pair(&v, k + 2) {
        Some(_) => return false,
        None => {},
    }
    let left_raw = slice_chars(&v, 0, k);
    let right_raw = slice_chars(&v, k + 2, v.len());
    let left = string_of(&trim_chars(&left_raw));
    let right = string_of(&strip_quotes(&trim_chars(&right_raw)));
    if same_str(left.as_str(), "event") {
        same_str(event, right.as_str())
    } else if same_str(left.as_str(), "session_id") {
        same_str(session_id, right.as_str())
    } else {
        false
    }
}

/// Whether a hook is skipped: its condition is enabled and does not hold.
pub fn skips_hook(hook: &EnhancedHook, event: &str, session_id: &str) -> (r: bool)
    ensures
        r == (hook.condition matches Some(c) && c.enabled && !condition_holds(c.condition@, event@, session_id@)),
{
    match &hook.condition {
        Some(c) => c.enabled && !evaluate_condition(c.condition.as_str(), event, session_id),
        None => false,
    }
}

/// Whether a failed attempt is retried: `retry_count` retries were made of
/// the hook's allowance (none when unset).
pub fn retries_after_failure(hook: &EnhancedHook, retry_count: u32) -> (r: bool)
    ensures
        r == (retry_count < match hook.retry { Some(n) => n, None => 0 }),
{
    let max = match hook.retry {
        Some(n) => n,
        None => 0,
    };
    retry_count < max
}

/// A hook's time limit in seconds: 30 unless set.
pub fn hook_timeout_secs(hook: &EnhancedHook) -> (r: u64)
    ensures
        r == match hook.timeout { Some(t) => t, None => 30 },
{
    match hook.timeout {
        Some(t) => t,
        None => 30,
    }
}

/// The running outcome of a chain of hooks for one event.
pub struct HookChainResult {
    pub event: String,
    pub total_hooks: usize,
    pub successful: usize,
    pub failed: usize,
    pub results: Vec<HookExecutionResult>,
    /// False once a hook of a `PreToolUse` chain failed: the pending tool use
    /// is to be blocked.
    pub should_continue: bool,
}

/// Whether `results` holds a failure.
pub open spec fn any_failed(results: Seq<HookExecutionResult>) -> bool {
    exists|i: int| 0 <= i < results.len() && !(#[trigger] results[i]).success
}

/// Number of successes in `results`.
pub open spec fn successes(results: Seq<HookExecutionResult>) -> nat
    decreases results.len(),
{
    if results.len() == 0 {
        0
    } else {
        successes(results.drop_last()) + if results.last().success { 1nat } else { 0nat }
    }
}

impl HookChainResult {
    /// Counts agree with the results, and only a failing `PreToolUse` chain stops.
    pub open spec fn wf(&self, event: HookEvent) -> bool {
        &&& self.successful == successes(self.results@)
        &&& self.successful + self.failed == self.results@.len()
        &&& self.should_continue == !(event == HookEvent::PreToolUse && any_failed(self.results@))
    }

    /// A chain of `total_hooks` hooks for `event`, none run yet.
    pub fn start(event: HookEvent, total_hooks: usize) -> (r: Self)
        ensures
            r.wf(event),
            r.event@ == event_name(event),
            r.total_hooks == total_hooks,
            r.results@.len() == 0,
    {
        HookChainResult {
            event: event.as_str().to_owned(),
            total_hooks,
            successful: 0,
            failed: 0,
            results: Vec::new(),
            should_continue: true,
        }
    }

    /// Adds the result of the next hook.
    pub fn add(&mut self, event: HookEvent, result: HookExecutionResult)
        requires
            old(self).wf(event),
            old(self).results@.len() < usize::MAX,
        ensures
            final(self).wf(event),
            final(self).results@ == old(self).results@.push(result),
            final(self).total_hooks == old(self).total_hooks,
            final(self).event == old(self).event,
    {
        let ghost r0 = self.results@;
        let ok = result.success;
        if ok {
            self.successful = self.successful + 1;
        } else {
            self.failed = self.failed + 1;
            if event == HookEvent::PreToolUse {
                self.should_continue = false;
            }
        }
        self.results.push(result);
        proof {
            assert(self.results@.drop_last() =~= r0);
            if any_failed(r0) {
                let i = choose|i: int| 0 <= i < r0.len() && !(#[trigger] r0[i]).success;
                assert(self.results@[i] == r0[i]);
            }
            if !ok {
                assert(!self.results@[r0.len() as int].success);
            }
            if any_failed(self.results@) && ok {
                let i = choose|i: int| 0 <= i < self.results@.len() && !(#[trigger] self.results@[i]).success;
                assert(i < r0.len());
                assert(self.results@[i] == r0[i]);
            }
        }
    }
}

} // verus!
