//! Shell command facts: output records and sudo detection.

use vstd::prelude::*;
use crate::model::OutputStream;
use crate::text::{chars_of, chars_eq, words, words_of};

verus! {

/// The collected output of a finished shell command.
#[derive(Debug)]
pub struct ShellOutput {
    pub stdout: String,
    pub stderr: String,
    pub exit_code: i32,
}

/// One line of streaming output from a running command.
#[derive(Debug)]
pub struct StreamLine {
    pub stream: OutputStream,
    pub line: String,
}

/// Some whitespace-separated word of `cmd` is exactly `sudo`.
pub open spec fn mentions_sudo(cmd: Seq<char>) -> bool {
    words_of(cmd).contains("sudo"@)
}

/// Returns true if any whitespace-separated word in the command equals "sudo".
pub fn command_contains_sudo(cmd: &str) -> (r: bool)
    ensures
        r == mentions_sudo(cmd@),
{
    let v = chars_of(cmd);
    let ws = words(v.as_slice());
    let sudo = chars_of("sudo");
    let mut i: usize = 0;
    while i < ws.len()
        invariant
            i <= ws.len(),
            crate::text::views(ws@) == words_of(cmd@),
            sudo@ == "sudo"@,
            forall|j: int| 0 <= j < i ==> ws@[j]@ != "sudo"@,
        decreases ws.len() - i,
    {
        if chars_eq(ws[i].as_slice(), sudo.as_slice()) {
            assert(words_of(cmd@)[i as int] == "sudo"@);
            return true;
        }
        i += 1;
    }
    proof {
        if words_of(cmd@).contains("sudo"@) {
            let k = choose|k: int| 0 <= k < words_of(cmd@).len() && words_of(cmd@)[k] == "sudo"@;
            assert(ws@[k]@ == words_of(cmd@)[k]);
        }
    }
    false
}

} // verus!
