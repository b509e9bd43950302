//! From a process name to a process id: the query put to the process table
//! and the reading of its answer.

use crate::error::TraceError;
use crate::number::{i32_value, parse_i32};
use crate::text::{chars_of, trim, trim_span};
use vstd::prelude::*;
use vstd::string::StringExecFns;

verus! {

/// The shell command that lists the ids of the processes whose line in the
/// process table holds `name`.
pub open spec fn command_text(name: Seq<char>) -> Seq<char> {
    "ps -ef | grep "@ + name + " | grep -v grep | awk '{print $2}'"@
}

/// The process id that the answer to the query stands for. The query has to
/// have succeeded, and its output, without the white space around it, has
/// to be one number other than -1: no match gives no number, and several
/// matches give several lines, which are no number either.
pub open spec fn resolved(success: bool, output: Seq<char>) -> Result<i32, TraceError> {
    if success {
        match i32_value(trim(output)) {
            Some(pid) => if pid != -1 {
                Ok(pid)
            } else {
                Err(TraceError::Resolution)
            },
            None => Err(TraceError::Resolution),
        }
    } else {
        Err(TraceError::Resolution)
    }
}

/// An answer that holds nothing but white space resolves to no process.
pub proof fn lemma_no_match_fails(success: bool, output: Seq<char>)
    requires
        trim(output).len() == 0,
    ensures
        resolved(success, output) == Err::<i32, TraceError>(TraceError::Resolution),
{
}

/// The shell command that queries the process table for `name`.
pub fn resolution_command(name: &str) -> (command: String)
    ensures
        command@ == command_text(name@),
{
    let mut command = String::from_str("ps -ef | grep ");
    command.append(name);
    command.append(" | grep -v grep | awk '{print $2}'");
    command
}

/// Reads the answer to the query: whether it succeeded, and what it printed.
pub fn resolve_pid(success: bool, output: &str) -> (r: Result<i32, TraceError>)
    ensures
        r == resolved(success, output@),
{
    if !success {
        return Err(TraceError::Resolution);
    }
    let s = chars_of(output);
    assert(s@.subrange(0, s@.len() as int) =~= s@);
    let span = trim_span(s.as_slice(), 0, s.len());
    match parse_i32(s.as_slice(), span.lo, span.hi) {
        Some(pid) => {
            if pid != -1 {
                Ok(pid)
            } else {
                Err(TraceError::Resolution)
            }
        },
        None => Err(TraceError::Resolution),
    }
}

} // verus!
