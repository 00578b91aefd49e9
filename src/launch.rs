//! The agent's command line and environment.

use vstd::prelude::*;
use crate::projects::strs;
use crate::permissions::{ClaudeExecutionConfig, ClaudePermissionConfig, PermissionMode, build_permission_args,
    permission_args, format_name};
use crate::text::{trimmed, chars_of, trim_chars, push_char, string_of, same_str, starts_with, starts_with_chars,
    contains_seq, contains_str};

verus! {

/// What one prompt character becomes inside the single-quoted argument.
pub open spec fn escape_char(c: char) -> Seq<char> {
    if c == '\\' {
        seq!['\\', '\\']
    } else if c == '\n' {
        seq!['\\', 'n']
    } else if c == '\r' {
        seq!['\\', 'r']
    } else if c == '\t' {
        seq!['\\', 't']
    } else if c == '"' {
        seq!['\\', '"']
    } else if c == '\'' {
        seq!['\\', '\'', '"', '\'', '"', '\'']
    } else if c == '$' {
        seq!['\\', '$']
    } else if c == '`' {
        seq!['\\', '`']
    } else if c == '\0' {
        Seq::empty()
    } else {
        seq![c]
    }
}

/// Every character of `s` escaped.
pub open spec fn shell_escaped(s: Seq<char>) -> Seq<char>
    decreases s.len(),
{
    if s.len() == 0 {
        Seq::empty()
    } else {
        shell_escaped(s.drop_last()) + escape_char(s.last())
    }
}

/// What one character of a slash command becomes: line breaks turn into
/// spaces, NULs go.
pub open spec fn clean_char(c: char) -> Seq<char> {
    if c == '\r' || c == '\n' {
        seq![' ']
    } else if c == '\0' {
        Seq::empty()
    } else {
        seq![c]
    }
}

/// A slash command with line breaks turned into spaces and NULs removed.
pub open spec fn cleaned(s: Seq<char>) -> Seq<char>
    decreases s.len(),
{
    if s.len() == 0 {
        Seq::empty()
    } else {
        cleaned(s.drop_last()) + clean_char(s.last())
    }
}

/// The prompt as passed to the agent: a slash command goes raw, on one line
/// and trimmed; anything else is escaped and single-quoted.
pub open spec fn escaped_prompt(p: Seq<char>) -> Seq<char> {
    let t = trimmed(p);
    if t.len() > 0 && t[0] == '/' {
        trimmed(cleaned(t))
    } else {
        seq!['\''] + shell_escaped(p) + seq!['\'']
    }
}

/// Escapes a prompt for the agent's command line.
pub fn escape_prompt_for_cli(prompt: &str) -> (r: String)
    ensures
        r@ == escaped_prompt(prompt@),
{
    let v = chars_of(prompt);
    let t = trim_chars(&v);
    if t.len() > 0 && t[0] == '/' {
        let mut c: Vec<char> = Vec::new();
        let mut i: usize = 0;
        while i < t.len()
            invariant
                i <= t.len(),
                c@ == cleaned(t@.subrange(0, i as int)),
            decreases t.len() - i,
        {
            assert(t@.subrange(0, i + 1).drop_last() =~= t@.subrange(0, i as int));
            let ch = t[i];
            if ch == '\r' || ch == '\n' {
                c.push(' ');
            } else if ch != '\0' {
                c.push(ch);
            }
            assert(c@ =~= cleaned(t@.subrange(0, i + 1)));
            i = i + 1;
        }
        assert(t@.subrange(0, t.len() as int) =~= t@);
        let d = trim_chars(&c);
        return string_of(&d);
    }
    let mut out = String::new();
    push_char(&mut out, '\'');
    let mut i: usize = 0;
    while i < v.len()
        invariant
            i <= v.len(),
            v@ == prompt@,
            out@ == seq!['\''] + shell_escaped(v@.subrange(0, i as int)),
        decreases v.len() - i,
    {
        assert(v@.subrange(0, i + 1).drop_last() =~= v@.subrange(0, i as int));
        let ghost before = out@;
        let ch = v[i];
        if ch == '\\' {
            push_char(&mut out, '\\');
            push_char(&mut out, '\\');
        } else if ch == '\n' {
            push_char(&mut out, '\\');
            push_char(&mut out, 'n');
        } else if ch == '\r' {
            push_char(&mut out, '\\');
            push_char(&mut out, 'r');
        } else if ch == '\t' {
            push_char(&mut out, '\\');
            push_char(&mut out, 't');
        } else if ch == '"' {
            push_char(&mut out, '\\');
            push_char(&mut out, '"');
        } else if ch == '\'' {
            push_char(&mut out, '\\');
            push_char(&mut out, '\'');
            push_char(&mut out, '"');
            push_char(&mut out, '\'');
            push_char(&mut out, '"');
            push_char(&mut out, '\'');
        } else if ch == '$' {
            push_char(&mut out, '\\');
            push_char(&mut out, '$');
        } else if ch == '`' {
            push_char(&mut out, '\\');
            push_char(&mut out, '`');
        } else if ch != '\0' {
            push_char(&mut out, ch);
        }
        assert(out@ =~= before + escape_char(ch));
        assert(out@ =~= seq!['\''] + shell_escaped(v@.subrange(0, i + 1)));
        i = i + 1;
    }
    push_char(&mut out, '\'');
    assert(v@.subrange(0, v.len() as int) =~= v@);
    out
}

/// The model name the agent knows for a name the UI uses.
pub open spec fn model_alias(model: Seq<char>) -> Seq<char> {
    if model == "sonnet1m"@ {
        "sonnet[1m]"@
    } else {
        model
    }
}

/// Maps a UI model name to the agent's alias; other names pass unchanged.
pub fn map_model_to_claude_alias(model: &str) -> (r: String)
    ensures
        r@ == model_alias(model@),
{
    if same_str(model, "sonnet1m") {
        "sonnet[1m]".to_owned()
    } else {
        model.to_owned()
    }
}

/// The decimal digit `d`.
pub open spec fn digit_char(d: nat) -> char {
    if d == 0 { '0' } else if d == 1 { '1' } else if d == 2 { '2' } else if d == 3 { '3' } else if d == 4 { '4' }
    else if d == 5 { '5' } else if d == 6 { '6' } else if d == 7 { '7' } else if d == 8 { '8' } else { '9' }
}

/// The decimal numeral of `n`.
pub open spec fn decimal(n: nat) -> Seq<char>
    decreases n,
{
    if n < 10 {
        seq![digit_char(n)]
    } else {
        decimal(n / 10).push(digit_char(n % 10))
    }
}

fn digit(d: u64) -> (r: char)
    requires
        d < 10,
    ensures
        r == digit_char(d as nat),
{
    if d == 0 { '0' } else if d == 1 { '1' } else if d == 2 { '2' } else if d == 3 { '3' } else if d == 4 { '4' }
    else if d == 5 { '5' } else if d == 6 { '6' } else if d == 7 { '7' } else if d == 8 { '8' } else { '9' }
}

/// The decimal numeral of `n`.
pub fn decimal_string(n: u64) -> (r: String)
    ensures
        r@ == decimal(n as nat),
{
    let mut m = n;
    let mut rev: Vec<char> = Vec::new();
    while m >= 10
        invariant
            decimal(n as nat) == decimal(m as nat) + rev@.reverse(),
        decreases m,
    {
        let ghost r0 = rev@;
        rev.push(digit(m % 10));
        assert(rev@.reverse() =~= seq![digit_char((m % 10) as nat)] + r0.reverse());
        assert(decimal(m as nat) == decimal((m / 10) as nat).push(digit_char((m % 10) as nat)));
        assert(decimal(m as nat) + r0.reverse() =~= decimal((m / 10) as nat) + rev@.reverse());
        m = m / 10;
    }
    let mut out = String::new();
    push_char(&mut out, digit(m));
    let mut k: usize = rev.len();
    while k > 0
        invariant
            k <= rev.len(),
            decimal(n as nat) == decimal(m as nat) + rev@.reverse(),
            m < 10,
            out@ == decimal(m as nat) + rev@.subrange(k as int, rev@.len() as int).reverse(),
        decreases k,
    {
        push_char(&mut out, rev[k - 1]);
        assert(rev@.subrange(k - 1, rev@.len() as int).reverse() =~= rev@.subrange(k as int, rev@.len() as int).reverse().push(rev@[k - 1]));
        k = k - 1;
    }
    assert(rev@.subrange(0, rev@.len() as int) =~= rev@);
    out
}

/// Appends a copy of `s`.
fn push_copy(v: &mut Vec<String>, s: &String)
    ensures
        strs(final(v)@) == strs(old(v)@).push(s@),
{
    let ghost o = v@;
    v.push(s.clone());
    assert(strs(v@) =~= strs(o).push(s@));
}

/// The arguments of a new agent run: the prompt, the model, the output
/// format, the optional switches, then the permission flags.
pub open spec fn execution_args(c: ClaudeExecutionConfig, prompt: Seq<char>, model: Seq<char>) -> Seq<Seq<char>> {
    seq![escaped_prompt(prompt), "--model"@, model, "--output-format"@, format_name(c.output_format)]
        + (if c.verbose { seq!["--verbose"@] } else { Seq::empty() })
        + (match c.timeout_seconds { Some(t) => seq!["--timeout"@, decimal(t as nat)], None => Seq::empty() })
        + (match c.max_tokens { Some(m) => seq!["--max-tokens"@, decimal(m as nat)], None => Seq::empty() })
        + permission_args(c.permissions)
}

/// The agent's arguments for `prompt` and `model` under `config`.
pub fn build_execution_args(config: &ClaudeExecutionConfig, prompt: &str, model: &str) -> (r: Vec<String>)
    ensures
        strs(r@) == execution_args(*config, prompt@, model@),
{
    let mut args: Vec<String> = Vec::new();
    args.push(escape_prompt_for_cli(prompt));
    args.push("--model".to_owned());
    args.push(model.to_owned());
    args.push("--output-format".to_owned());
    args.push(config.output_format.as_str().to_owned());
    let ghost a0 = strs(args@);
    assert(a0 =~= seq![escaped_prompt(prompt@), "--model"@, model@, "--output-format"@, format_name(config.output_format)]);
    if config.verbose {
        args.push("--verbose".to_owned());
    }
    let ghost a1 = strs(args@);
    assert(a1 =~= a0 + (if config.verbose { seq!["--verbose"@] } else { Seq::<Seq<char>>::empty() }));
    match config.timeout_seconds {
        Some(t) => {
            args.push("--timeout".to_owned());
            args.push(decimal_string(t as u64));
        },
        None => {},
    }
    let ghost a2 = strs(args@);
    assert(a2 =~= a1 + (match config.timeout_seconds { Some(t) => seq!["--timeout"@, decimal(t as nat)], None => Seq::<Seq<char>>::empty() }));
    match config.max_tokens {
        Some(m) => {
            args.push("--max-tokens".to_owned());
            args.push(decimal_string(m as u64));
        },
        None => {},
    }
    let ghost a3 = strs(args@);
    assert(a3 =~= a2 + (match config.max_tokens { Some(m) => seq!["--max-tokens"@, decimal(m as nat)], None => Seq::<Seq<char>>::empty() }));
    let perms = build_permission_args(&config.permissions);
    let mut i: usize = 0;
    while i < perms.len()
        invariant
            i <= perms.len(),
            strs(args@) == a3 + strs(perms@).subrange(0, i as int),
        decreases perms.len() - i,
    {
        push_copy(&mut args, &perms[i]);
        assert(strs(args@) =~= a3 + strs(perms@).subrange(0, i + 1));
        i = i + 1;
    }
    assert(strs(perms@).subrange(0, perms.len() as int) =~= strs(perms@));
    assert(strs(args@) == a3 + permission_args(config.permissions));
    assert(strs(args@) == execution_args(*config, prompt@, model@));
    args
}

/// How a run relates to earlier ones.
pub enum LaunchMode {
    /// A new conversation.
    New,
    /// Continue the most recent conversation (`-c`).
    Continue,
    /// Resume the session with this id (`--resume <id>`, before the prompt).
    Resume { session_id: String },
}

/// The agent's arguments for a run in mode `mode`.
pub open spec fn launch_args_spec(
    c: ClaudeExecutionConfig,
    prompt: Seq<char>,
    model: Seq<char>,
    mode: LaunchMode,
) -> Seq<Seq<char>> {
    match mode {
        LaunchMode::New => execution_args(c, prompt, model),
        LaunchMode::Continue => seq!["-c"@] + execution_args(c, prompt, model),
        LaunchMode::Resume { session_id } => seq!["--resume"@, session_id@] + execution_args(c, prompt, model),
    }
}

/// The agent's arguments for a run: the UI model name is mapped to the
/// agent's alias first.
pub fn launch_args(config: &ClaudeExecutionConfig, prompt: &str, model: &str, mode: LaunchMode) -> (r: Vec<String>)
    ensures
        strs(r@) == launch_args_spec(*config, prompt@, model_alias(model@), mode),
{
    let alias = map_model_to_claude_alias(model);
    let base = build_execution_args(config, prompt, alias.as_str());
    let mut args: Vec<String> = Vec::new();
    match &mode {
        LaunchMode::New => {},
        LaunchMode::Continue => {
            args.push("-c".to_owned());
        },
        LaunchMode::Resume { session_id } => {
            args.push("--resume".to_owned());
            args.push(session_id.clone());
        },
    }
    let ghost a0 = strs(args@);
    assert(a0 =~= match mode {
        LaunchMode::New => Seq::<Seq<char>>::empty(),
        LaunchMode::Continue => seq!["-c"@],
        LaunchMode::Resume { session_id } => seq!["--resume"@, session_id@],
    });
    let mut i: usize = 0;
    while i < base.len()
        invariant
            i <= base.len(),
            strs(args@) == a0 + strs(base@).subrange(0, i as int),
        decreases base.len() - i,
    {
        push_copy(&mut args, &base[i]);
        assert(strs(args@) =~= a0 + strs(base@).subrange(0, i + 1));
        i = i + 1;
    }
    assert(strs(base@).subrange(0, base.len() as int) =~= strs(base@));
    assert(strs(args@) == a0 + execution_args(*config, prompt@, alias@));
    assert(strs(args@) == launch_args_spec(*config, prompt@, model_alias(model@), mode));
    args
}

/// Whether the child inherits environment variable `key`: the shell and
/// locale basics, Node and Homebrew locations, and the agent's own settings.
pub open spec fn inherited_var(key: Seq<char>) -> bool {
    ||| key == "PATH"@ ||| key == "HOME"@ ||| key == "USER"@ ||| key == "SHELL"@
    ||| key == "LANG"@ ||| key == "LC_ALL"@ ||| starts_with(key, "LC_"@)
    ||| key == "NODE_PATH"@ ||| key == "NVM_DIR"@ ||| key == "NVM_BIN"@
    ||| key == "HOMEBREW_PREFIX"@ ||| key == "HOMEBREW_CELLAR"@
    ||| starts_with(key, "ANTHROPIC_"@) ||| starts_with(key, "CLAUDE_CODE_"@)
    ||| key == "API_TIMEOUT_MS"@
}

fn has_prefix(key: &str, prefix: &str) -> (r: bool)
    ensures
        r == starts_with(key@, prefix@),
{
    let k = chars_of(key);
    let p = chars_of(prefix);
    starts_with_chars(&k, &p)
}

/// Whether the child inherits environment variable `key`.
pub fn inherits_env_var(key: &str) -> (r: bool)
    ensures
        r == inherited_var(key@),
{
    same_str(key, "PATH") || same_str(key, "HOME") || same_str(key, "USER") || same_str(key, "SHELL")
        || same_str(key, "LANG") || same_str(key, "LC_ALL") || has_prefix(key, "LC_")
        || same_str(key, "NODE_PATH") || same_str(key, "NVM_DIR") || same_str(key, "NVM_BIN")
        || same_str(key, "HOMEBREW_PREFIX") || same_str(key, "HOMEBREW_CELLAR")
        || has_prefix(key, "ANTHROPIC_") || has_prefix(key, "CLAUDE_CODE_") || same_str(key, "API_TIMEOUT_MS")
}

/// What `std::path::Path::parent` gives for a path, as text.
pub uninterp spec fn parent_of(p: Seq<char>) -> Option<Seq<char>>;

/// Relies on `std::path::Path::parent`: the path without its last component,
/// or `None` for a root or an empty path.
#[verifier::external_body]
fn parent_dir(p: &str) -> (r: Option<String>)
    ensures
        match r {
            Some(d) => parent_of(p@) == Some(d@),
            None => parent_of(p@) is None,
        },
{
    std::path::Path::new(p).parent().map(|d| d.to_string_lossy().to_string())
}

/// The `PATH` a child needs when the agent runs from an nvm install: its
/// directory first, unless `PATH` already names it.
pub open spec fn nvm_path_spec(program: Seq<char>, current: Seq<char>) -> Option<Seq<char>> {
    if contains_seq(program, "/.nvm/versions/node/"@) {
        match parent_of(program) {
            Some(dir) => if contains_seq(current, dir) {
                None
            } else {
                Some(dir + seq![':'] + current)
            },
            None => None,
        }
    } else {
        None
    }
}

/// The `PATH` to set for a child started from `program`, if it must change.
pub fn nvm_path(program: &str, current_path: &str) -> (r: Option<String>)
    ensures
        match r {
            Some(p) => nvm_path_spec(program@, current_path@) == Some(p@),
            None => nvm_path_spec(program@, current_path@) is None,
        },
{
    if !contains_str(program, "/.nvm/versions/node/") {
        return None;
    }
    match parent_dir(program) {
        Some(dir) => {
            if contains_str(current_path, dir.as_str()) {
                None
            } else {
                let mut p = dir;
                push_char(&mut p, ':');
                p.append(current_path);
                Some(p)
            }
        },
        None => None,
    }
}

} // verus!
