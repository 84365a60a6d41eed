//! What the output of an external command (`git`, `gh`) amounts to.

use vstd::prelude::*;
use crate::text::{trim, trimmed};

verus! {

/// The message of a failed command: its trimmed error output, or `fallback`
/// when that is blank.
pub open spec fn failure_message(stderr: Seq<char>, fallback: Seq<char>) -> Seq<char> {
    if trim(stderr).len() == 0 {
        fallback
    } else {
        trim(stderr)
    }
}

/// The outcome of a command: its trimmed standard output when it succeeded,
/// else the failure message.
pub fn command_output(success: bool, stdout: &str, stderr: &str, fallback: &str) -> (r: Result<
    String,
    String,
>)
    ensures
        success ==> (r matches Ok(o) && o@ == trim(stdout@)),
        !success ==> (r matches Err(m) && m@ == failure_message(stderr@, fallback@)),
{
    if !success {
        let msg = trimmed(stderr);
        if msg.as_str().is_empty() {
            return Err(String::from_str(fallback));
        }
        return Err(msg);
    }
    Ok(trimmed(stdout))
}

/// The outcome of a `git` command.
pub fn git_output(success: bool, stdout: &str, stderr: &str) -> (r: Result<String, String>)
    ensures
        success ==> (r matches Ok(o) && o@ == trim(stdout@)),
        !success ==> (r matches Err(m) && m@ == failure_message(stderr@, "git command failed"@)),
{
    command_output(success, stdout, stderr, "git command failed")
}

/// The outcome of a `gh api` call: the trimmed JSON text, or the failure message.
pub fn gh_output(success: bool, stdout: &str, stderr: &str) -> (r: Result<String, String>)
    ensures
        success ==> (r matches Ok(o) && o@ == trim(stdout@)),
        !success ==> (r matches Err(m) && m@ == failure_message(stderr@, "gh api failed"@)),
{
    command_output(success, stdout, stderr, "gh api failed")
}

} // verus!
