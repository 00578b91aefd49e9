//! Permission settings of the agent and the flags they become.

use vstd::prelude::*;
use crate::projects::{strs, contains_string, add_new, append_missing};
use crate::text::{trimmed, starts_with, chars_of, trim_chars, push_char, string_of, same_str};

verus! {

/// How the agent asks before acting.
#[derive(PartialEq, Eq, Structural, Clone, Copy, Debug)]
pub enum PermissionMode {
    Interactive,
    AcceptEdits,
    ReadOnly,
}

/// The flag value of a permission mode.
pub open spec fn mode_name(m: PermissionMode) -> Seq<char> {
    match m {
        PermissionMode::Interactive => "interactive"@,
        PermissionMode::AcceptEdits => "acceptEdits"@,
        PermissionMode::ReadOnly => "readOnly"@,
    }
}

impl PermissionMode {
    /// The flag value of this mode.
    pub fn as_str(&self) -> (r: &'static str)
        ensures
            r@ == mode_name(*self),
    {
        match self {
            PermissionMode::Interactive => "interactive",
            PermissionMode::AcceptEdits => "acceptEdits",
            PermissionMode::ReadOnly => "readOnly",
        }
    }
}

/// The agent's output format.
#[derive(PartialEq, Eq, Structural, Clone, Copy, Debug)]
pub enum OutputFormat {
    StreamJson,
    Json,
    Text,
}

/// The flag value of an output format.
pub open spec fn format_name(f: OutputFormat) -> Seq<char> {
    match f {
        OutputFormat::StreamJson => "stream-json"@,
        OutputFormat::Json => "json"@,
        OutputFormat::Text => "text"@,
    }
}

impl OutputFormat {
    /// The flag value of this format.
    pub fn as_str(&self) -> (r: &'static str)
        ensures
            r@ == format_name(*self),
    {
        match self {
            OutputFormat::StreamJson => "stream-json",
            OutputFormat::Json => "json",
            OutputFormat::Text => "text",
        }
    }
}

/// Which tools the agent may use, and how it asks.
pub struct ClaudePermissionConfig {
    pub allowed_tools: Vec<String>,
    pub disallowed_tools: Vec<String>,
    pub permission_mode: PermissionMode,
    pub auto_approve_edits: bool,
    /// The legacy switch that skips every permission check.
    pub enable_dangerous_skip: bool,
}

/// How the agent is run.
pub struct ClaudeExecutionConfig {
    pub output_format: OutputFormat,
    pub timeout_seconds: Option<u32>,
    pub max_tokens: Option<u32>,
    pub verbose: bool,
    pub permissions: ClaudePermissionConfig,
}

/// Appends an owned copy of `name`.
fn push_name(v: &mut Vec<String>, name: &str)
    ensures
        strs(final(v)@) == strs(old(v)@).push(name@),
{
    let ghost o = v@;
    v.push(name.to_owned());
    assert(strs(v@) =~= strs(o).push(name@));
}

/// Tools of the development preset.
pub fn development_tools() -> (r: Vec<String>)
    ensures
        strs(r@) == seq!["Bash"@, "Read"@, "Write"@, "Edit"@],
{
    let mut v: Vec<String> = Vec::new();
    assert(strs(v@) =~= Seq::<Seq<char>>::empty());
    push_name(&mut v, "Bash");
    push_name(&mut v, "Read");
    push_name(&mut v, "Write");
    push_name(&mut v, "Edit");
    assert(strs(v@) =~= seq!["Bash"@, "Read"@, "Write"@, "Edit"@]);
    v
}

/// Tools of the safe preset.
pub fn safe_tools() -> (r: Vec<String>)
    ensures
        strs(r@) == seq!["Read"@, "Search"@],
{
    let mut v: Vec<String> = Vec::new();
    assert(strs(v@) =~= Seq::<Seq<char>>::empty());
    push_name(&mut v, "Read");
    push_name(&mut v, "Search");
    assert(strs(v@) =~= seq!["Read"@, "Search"@]);
    v
}

/// Every tool the presets know.
pub fn all_tools() -> (r: Vec<String>)
    ensures
        strs(r@) == seq!["Bash"@, "Read"@, "Write"@, "Edit"@, "WebFetch"@, "Task"@, "TodoWrite"@],
{
    let mut v = development_tools();
    push_name(&mut v, "WebFetch");
    push_name(&mut v, "Task");
    push_name(&mut v, "TodoWrite");
    assert(strs(v@) =~= seq!["Bash"@, "Read"@, "Write"@, "Edit"@, "WebFetch"@, "Task"@, "TodoWrite"@]);
    v
}

impl ClaudePermissionConfig {
    /// The default: the common editing tools, and the legacy skip switch on.
    pub fn default_config() -> (r: Self)
        ensures
            strs(r.allowed_tools@) == seq!["Read"@, "Write"@, "Edit"@, "Bash"@],
            r.disallowed_tools@.len() == 0,
            r.permission_mode == PermissionMode::Interactive,
            !r.auto_approve_edits,
            r.enable_dangerous_skip,
    {
        let mut allowed: Vec<String> = Vec::new();
        assert(strs(allowed@) =~= Seq::<Seq<char>>::empty());
        push_name(&mut allowed, "Read");
        push_name(&mut allowed, "Write");
        push_name(&mut allowed, "Edit");
        push_name(&mut allowed, "Bash");
        assert(strs(allowed@) =~= seq!["Read"@, "Write"@, "Edit"@, "Bash"@]);
        ClaudePermissionConfig {
            allowed_tools: allowed,
            disallowed_tools: Vec::new(),
            permission_mode: PermissionMode::Interactive,
            auto_approve_edits: false,
            enable_dangerous_skip: true,
        }
    }

    /// Development preset: the development tools, edits accepted.
    pub fn development_mode() -> (r: Self)
        ensures
            strs(r.allowed_tools@) == seq!["Bash"@, "Read"@, "Write"@, "Edit"@],
            r.disallowed_tools@.len() == 0,
            r.permission_mode == PermissionMode::AcceptEdits,
            r.auto_approve_edits,
            !r.enable_dangerous_skip,
    {
        let allowed = development_tools();
        ClaudePermissionConfig {
            allowed_tools: allowed,
            disallowed_tools: Vec::new(),
            permission_mode: PermissionMode::AcceptEdits,
            auto_approve_edits: true,
            enable_dangerous_skip: false,
        }
    }

    /// Safe preset: reading only; shell and web fetches refused.
    pub fn safe_mode() -> (r: Self)
        ensures
            strs(r.allowed_tools@) == seq!["Read"@, "Search"@],
            strs(r.disallowed_tools@) == seq!["Bash"@, "WebFetch"@],
            r.permission_mode == PermissionMode::ReadOnly,
            !r.auto_approve_edits,
            !r.enable_dangerous_skip,
    {
        let allowed = safe_tools();
        let mut disallowed: Vec<String> = Vec::new();
        assert(strs(disallowed@) =~= Seq::<Seq<char>>::empty());
        push_name(&mut disallowed, "Bash");
        push_name(&mut disallowed, "WebFetch");
        assert(strs(disallowed@) =~= seq!["Bash"@, "WebFetch"@]);
        ClaudePermissionConfig {
            allowed_tools: allowed,
            disallowed_tools: disallowed,
            permission_mode: PermissionMode::ReadOnly,
            auto_approve_edits: false,
            enable_dangerous_skip: false,
        }
    }

    /// Interactive preset: reading and editing, each edit confirmed.
    pub fn interactive_mode() -> (r: Self)
        ensures
            strs(r.allowed_tools@) == seq!["Read"@, "Write"@, "Edit"@],
            r.disallowed_tools@.len() == 0,
            r.permission_mode == PermissionMode::Interactive,
            !r.auto_approve_edits,
            !r.enable_dangerous_skip,
    {
        let mut allowed: Vec<String> = Vec::new();
        assert(strs(allowed@) =~= Seq::<Seq<char>>::empty());
        push_name(&mut allowed, "Read");
        push_name(&mut allowed, "Write");
        push_name(&mut allowed, "Edit");
        assert(strs(allowed@) =~= seq!["Read"@, "Write"@, "Edit"@]);
        ClaudePermissionConfig {
            allowed_tools: allowed,
            disallowed_tools: Vec::new(),
            permission_mode: PermissionMode::Interactive,
            auto_approve_edits: false,
            enable_dangerous_skip: false,
        }
    }

    /// Legacy preset: every check skipped.
    pub fn legacy_mode() -> (r: Self)
        ensures
            r.allowed_tools@.len() == 0,
            r.disallowed_tools@.len() == 0,
            r.permission_mode == PermissionMode::Interactive,
            !r.auto_approve_edits,
            r.enable_dangerous_skip,
    {
        ClaudePermissionConfig {
            allowed_tools: Vec::new(),
            disallowed_tools: Vec::new(),
            permission_mode: PermissionMode::Interactive,
            auto_approve_edits: false,
            enable_dangerous_skip: true,
        }
    }
}

impl ClaudeExecutionConfig {
    /// The default: streamed JSON, verbose, no limits, default permissions.
    pub fn default_config() -> (r: Self)
        ensures
            r.output_format == OutputFormat::StreamJson,
            r.timeout_seconds is None,
            r.max_tokens is None,
            r.verbose,
            strs(r.permissions.allowed_tools@) == seq!["Read"@, "Write"@, "Edit"@, "Bash"@],
            r.permissions.disallowed_tools@.len() == 0,
            r.permissions.permission_mode == PermissionMode::Interactive,
            r.permissions.enable_dangerous_skip,
    {
        ClaudeExecutionConfig {
            output_format: OutputFormat::StreamJson,
            timeout_seconds: None,
            max_tokens: None,
            verbose: true,
            permissions: ClaudePermissionConfig::default_config(),
        }
    }
}

/// The items of `s` joined by commas.
pub open spec fn comma_joined(s: Seq<Seq<char>>) -> Seq<char>
    decreases s.len(),
{
    if s.len() == 0 {
        Seq::empty()
    } else if s.len() == 1 {
        s[0]
    } else {
        comma_joined(s.drop_last()) + seq![','] + s.last()
    }
}

/// The items of `v` joined by commas.
pub fn join_commas(v: &Vec<String>) -> (r: String)
    ensures
        r@ == comma_joined(strs(v@)),
{
    let mut out = String::new();
    let mut i: usize = 0;
    while i < v.len()
        invariant
            i <= v.len(),
            out@ == comma_joined(strs(v@).subrange(0, i as int)),
        decreases v.len() - i,
    {
        assert(strs(v@).subrange(0, i + 1).drop_last() =~= strs(v@).subrange(0, i as int));
        assert(strs(v@).subrange(0, i + 1).last() == v@[i as int]@);
        if i > 0 {
            push_char(&mut out, ',');
        } else {
            assert(strs(v@).subrange(0, 1)[0] == v@[0]@);
        }
        out.append(v[i].as_str());
        i = i + 1;
    }
    assert(strs(v@).subrange(0, v.len() as int) =~= strs(v@));
    out
}

/// The permission flags of `c`: the legacy switch alone when it is on, else
/// the tool lists that are not empty and the mode.
pub open spec fn permission_args(c: ClaudePermissionConfig) -> Seq<Seq<char>> {
    if c.enable_dangerous_skip {
        seq!["--dangerously-skip-permissions"@]
    } else {
        (if c.allowed_tools@.len() > 0 {
            seq!["--allowedTools"@, comma_joined(strs(c.allowed_tools@))]
        } else {
            Seq::empty()
        }) + (if c.disallowed_tools@.len() > 0 {
            seq!["--disallowedTools"@, comma_joined(strs(c.disallowed_tools@))]
        } else {
            Seq::empty()
        }) + seq!["--permission-mode"@, mode_name(c.permission_mode)]
    }
}

/// The permission flags for the agent.
pub fn build_permission_args(config: &ClaudePermissionConfig) -> (r: Vec<String>)
    ensures
        strs(r@) == permission_args(*config),
{
    let mut args: Vec<String> = Vec::new();
    if config.enable_dangerous_skip {
        args.push("--dangerously-skip-permissions".to_owned());
        assert(strs(args@) =~= permission_args(*config));
        return args;
    }
    let ghost a0 = Seq::<Seq<char>>::empty();
    if config.allowed_tools.len() > 0 {
        args.push("--allowedTools".to_owned());
        args.push(join_commas(&config.allowed_tools));
    }
    let ghost a1 = strs(args@);
    if config.disallowed_tools.len() > 0 {
        args.push("--disallowedTools".to_owned());
        args.push(join_commas(&config.disallowed_tools));
    }
    let ghost a2 = strs(args@);
    args.push("--permission-mode".to_owned());
    args.push(config.permission_mode.as_str().to_owned());
    assert(strs(args@) =~= permission_args(*config));
    args
}

/// The outcome of checking a permission configuration.
pub struct PermissionCheck {
    /// Tools both allowed and refused, once each, in the allowed list's order.
    pub conflicts: Vec<String>,
    /// The legacy skip switch is on.
    pub skip_warning: bool,
    /// Read-only mode allows a writing tool.
    pub read_only_write_warning: bool,
}

/// The allowed tools that are refused too, once each.
pub open spec fn conflicts_spec(c: ClaudePermissionConfig) -> Seq<Seq<char>> {
    add_new(
        Seq::empty(),
        strs(c.allowed_tools@).filter(|t: Seq<char>| strs(c.disallowed_tools@).contains(t)),
    )
}

impl PermissionCheck {
    /// The configuration is valid when no tool is both allowed and refused.
    pub fn valid(&self) -> (r: bool)
        ensures
            r == (self.conflicts@.len() == 0),
    {
        self.conflicts.len() == 0
    }
}

/// Checks a permission configuration: conflicting tool lists are an error;
/// the skip switch, and writing tools in read-only mode, are warnings.
pub fn validate_permission_config(config: &ClaudePermissionConfig) -> (r: PermissionCheck)
    ensures
        strs(r.conflicts@) == conflicts_spec(*config),
        r.skip_warning == config.enable_dangerous_skip,
        r.read_only_write_warning == (config.permission_mode == PermissionMode::ReadOnly && (strs(
            config.allowed_tools@,
        ).contains("Write"@) || strs(config.allowed_tools@).contains("Edit"@))),
{
    let ghost allowed = strs(config.allowed_tools@);
    let ghost pred = |t: Seq<char>| strs(config.disallowed_tools@).contains(t);
    let mut both: Vec<String> = Vec::new();
    let mut i: usize = 0;
    assert(strs(both@) =~= Seq::<Seq<char>>::empty());
    while i < config.allowed_tools.len()
        invariant
            i <= config.allowed_tools.len(),
            allowed == strs(config.allowed_tools@),
            pred == (|t: Seq<char>| strs(config.disallowed_tools@).contains(t)),
            strs(both@) == allowed.subrange(0, i as int).filter(pred),
        decreases config.allowed_tools.len() - i,
    {
        proof {
            allowed.subrange(0, i as int).lemma_filter_push(allowed[i as int], pred);
            assert(allowed.subrange(0, i as int).push(allowed[i as int]) =~= allowed.subrange(0, i + 1));
        }
        if contains_string(&config.disallowed_tools, config.allowed_tools[i].as_str()) {
            let ghost o = both@;
            both.push(config.allowed_tools[i].clone());
            assert(strs(both@) =~= strs(o).push(allowed[i as int]));
        }
        i = i + 1;
    }
    assert(allowed.subrange(0, config.allowed_tools.len() as int) =~= allowed);
    let mut conflicts: Vec<String> = Vec::new();
    assert(strs(conflicts@) =~= Seq::<Seq<char>>::empty());
    append_missing(&mut conflicts, &both);
    let writes = contains_string(&config.allowed_tools, "Write") || contains_string(&config.allowed_tools, "Edit");
    PermissionCheck {
        conflicts,
        skip_warning: config.enable_dangerous_skip,
        read_only_write_warning: config.permission_mode == PermissionMode::ReadOnly && writes,
    }
}

} // verus!
