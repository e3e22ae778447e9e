//! Reporting how the pipeline's tasks ended.
use vstd::prelude::*;
use crate::json::push_str;
use crate::text::{chars_of, string_of};

verus! {

/// How a task of the pipeline ended.
#[derive(Debug)]
pub enum TaskExit {
    /// It finished without error.
    Completed,
    /// It returned an error, described here.
    Failed(String),
    /// It could not be joined (it panicked or was cancelled), as described here.
    Panicked(String),
}

/// The report for a task that did not complete: its name, then the cause.
pub open spec fn exit_report(name: Seq<char>, cause: Seq<char>) -> Seq<char> {
    name + " task exited with error: "@ + cause
}

/// The line to log for how the task `name` ended: nothing when it completed,
/// else its name and what went wrong.
pub fn log_error(name: &str, outcome: &TaskExit) -> (r: Option<String>)
    ensures
        match outcome {
            TaskExit::Completed => r is None,
            TaskExit::Failed(e) => r matches Some(line) && line@ == exit_report(name@, e@),
            TaskExit::Panicked(e) => r matches Some(line) && line@ == exit_report(name@, e@),
        },
{
    let cause = match outcome {
        TaskExit::Completed => {
            return None;
        },
        TaskExit::Failed(e) => e,
        TaskExit::Panicked(e) => e,
    };
    let mut line = chars_of(name);
    push_str(&mut line, " task exited with error: ");
    push_str(&mut line, cause.as_str());
    Some(string_of(&line))
}

} // verus!
