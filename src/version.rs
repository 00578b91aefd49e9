//! Reading the agent's version check.

use vstd::prelude::*;
use crate::text::{contains_seq, contains_str, trimmed, trim_str, push_char};

verus! {

/// What the agent CLI reported about itself.
pub struct ClaudeVersionStatus {
    pub is_installed: bool,
    pub version: Option<String>,
    /// The command's output, trimmed.
    pub output: String,
}

/// The first `x.y.z` version (with optional pre-release and build parts) that
/// the pattern of [`find_version`] finds in a text.
pub uninterp spec fn version_in(text: Seq<char>) -> Option<Seq<char>>;

/// Relies on `regex::Regex::new` and `Regex::captures`: the first match of
/// `\d+\.\d+\.\d+` with optional `-pre` and `+build` parts; a match is a
/// piece of the text.
#[verifier::external_body]
fn find_version(text: &str) -> (r: Option<String>)
    ensures
        match r {
            Some(v) => version_in(text@) == Some(v@) && contains_seq(text@, v@),
            None => version_in(text@) is None,
        },
{
    regex::Regex::new(r"(\d+\.\d+\.\d+(?:-[a-zA-Z0-9.-]+)?(?:\+[a-zA-Z0-9.-]+)?)")
        .ok()
        .and_then(|re| re.captures(text).and_then(|c| c.get(1)).map(|m| m.as_str().to_string()))
}

/// The full output of a version check: stdout, then stderr on a new line
/// when there is any.
pub open spec fn full_output(stdout: Seq<char>, stderr: Seq<char>) -> Seq<char> {
    if stderr.len() == 0 { stdout } else { stdout + seq!['\n'] + stderr }
}

/// The status of a version check given the version found in stdout: the
/// agent is installed when the command succeeded and its output names the
/// product (for the bundled binary, a version number is enough).
pub fn version_status_from(
    stdout: &str,
    stderr: &str,
    exit_success: bool,
    bundled: bool,
    product: &str,
    version: Option<String>,
) -> (r: ClaudeVersionStatus)
    ensures
        r.version == version,
        r.output@ == trimmed(full_output(stdout@, stderr@)),
        r.is_installed == (exit_success && (contains_seq(stdout@, product@) || (bundled && version is Some))),
{
    let mut full = stdout.to_owned();
    if !stderr.is_empty() {
        push_char(&mut full, '\n');
        full.append(stderr);
    }
    assert(full@ =~= full_output(stdout@, stderr@));
    let output = trim_str(full.as_str());
    let named = contains_str(stdout, product);
    let valid = named || (bundled && version.is_some());
    ClaudeVersionStatus { is_installed: valid && exit_success, version, output }
}

/// The status of a version check from the command's output; `product` is
/// the name the agent prints beside its version.
pub fn version_status(stdout: &str, stderr: &str, exit_success: bool, bundled: bool, product: &str) -> (r:
    ClaudeVersionStatus)
    ensures
        r.version matches Some(v) ==> version_in(stdout@) == Some(v@),
        r.version is None ==> version_in(stdout@) is None,
        r.output@ == trimmed(full_output(stdout@, stderr@)),
        r.is_installed == (exit_success && (contains_seq(stdout@, product@) || (bundled && version_in(stdout@) is Some))),
{
    let v = find_version(stdout);
    version_status_from(stdout, stderr, exit_success, bundled, product, v)
}

} // verus!
