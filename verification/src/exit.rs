//! How the program ends: the status it exits with and the line, if any, that
//! goes to the error log first.

use vstd::prelude::*;
use vstd::string::StringExecFns;

verus! {

/// The end of the program.
#[derive(Debug, PartialEq, Eq)]
pub struct Exit {
    /// The exit status.
    pub code: i32,
    /// The line to log as an error before exiting.
    pub message: Option<String>,
}

/// An `Exit` as mathematical values.
pub struct ExitView {
    pub code: int,
    pub message: Option<Seq<char>>,
}

impl View for Exit {
    type V = ExitView;

    open spec fn view(&self) -> ExitView {
        ExitView {
            code: self.code as int,
            message: match self.message {
                Some(m) => Some(m@),
                None => None,
            },
        }
    }
}

/// The line logged for an error: what was attempted, a colon, the cause.
pub open spec fn failure_line(attempt: Seq<char>, cause: Seq<char>) -> Seq<char> {
    attempt + ": "@ + cause
}

/// The end on an error of the wrapper itself: status 1 and the line that
/// names the cause.
pub open spec fn fatal(attempt: Seq<char>, cause: Seq<char>) -> ExitView {
    ExitView { code: 1, message: Some(failure_line(attempt, cause)) }
}

/// The end on a child that failed: the child's own status, and no line,
/// since the child has said what went wrong.
pub open spec fn mirrored(code: i32) -> ExitView {
    ExitView { code: code as int, message: None }
}

/// Whether waiting for a child ends the program, and how. `waited` is the
/// child's exit code (`None` where it ended without one), or the cause that
/// kept it from being waited for.
pub open spec fn end_after_wait(waited: Result<Option<i32>, Seq<char>>) -> Option<ExitView> {
    match waited {
        Err(cause) => Some(fatal("Command was not running"@, cause)),
        Ok(Some(code)) => if code != 0 {
            Some(mirrored(code))
        } else {
            None
        },
        Ok(None) => None,
    }
}

/// Unwraps `result`. An error becomes the end of the program with status 1
/// and the line `attempt: cause`, where `cause` is the error as text.
pub fn log_err<T>(result: Result<T, String>, attempt: &str) -> (unwrapped: Result<T, Exit>)
    ensures
        match result {
            Ok(value) => unwrapped == Ok::<T, Exit>(value),
            Err(cause) => unwrapped is Err && unwrapped->Err_0@ == fatal(attempt@, cause@),
        },
{
    match result {
        Ok(value) => Ok(value),
        Err(cause) => {
            let mut line = String::from_str(attempt);
            line.append(": ");
            line.append(cause.as_str());
            Err(Exit { code: 1, message: Some(line) })
        },
    }
}

/// Decides after waiting for a child whether the program ends, and how: with
/// the child's status where that is not zero, with status 1 where the child
/// could not be waited for. `None` means that the program goes on.
pub fn exit_if_code_nonzero(waited: Result<Option<i32>, String>) -> (end: Option<Exit>)
    ensures
        match end {
            Some(exit) => end_after_wait(waited_view(waited)) == Some(exit@),
            None => end_after_wait(waited_view(waited)).is_none(),
        },
{
    let status = match log_err(waited, "Command was not running") {
        Ok(status) => status,
        Err(exit) => {
            return Some(exit);
        },
    };
    let exit_code = match status {
        Some(code) => code,
        None => 0,
    };
    if exit_code != 0 {
        Some(Exit { code: exit_code, message: None })
    } else {
        None
    }
}

/// The result of a wait with the cause, if any, as a sequence of characters.
pub open spec fn waited_view(waited: Result<Option<i32>, String>) -> Result<Option<i32>, Seq<char>> {
    match waited {
        Ok(status) => Ok(status),
        Err(cause) => Err(cause@),
    }
}

} // verus!
