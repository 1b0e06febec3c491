//! Classifying what a child process's exit means.
//!
//! The process runner announces a command with a `$ ` line, streams the
//! child's output while it runs, and then judges the exit: status code 0 is
//! success, anything else is a structured failure carrying the command and
//! the code (or `signal` when the child was killed without one).

use vstd::prelude::*;

use crate::errors::Failure;
use crate::numtext::spec_dec;
use crate::numtext::u64_to_dec;
use crate::shell::push_char;

verus! {

/// How a child process ended: with an exit status code, or by a signal that
/// left none.
#[derive(Clone, Copy, Debug, PartialEq, Eq, Structural)]
pub enum ProcessExit {
    Code(i32),
    Signal,
}

/// The text naming an exit: the decimal code, or `signal`.
pub open spec fn spec_exit_text(exit: ProcessExit) -> Seq<char> {
    match exit {
        ProcessExit::Code(c) => if c >= 0 {
            spec_dec(c as int)
        } else {
            seq!['-'] + spec_dec(-(c as int))
        },
        ProcessExit::Signal => "signal"@,
    }
}

/// The message of the failure a non-zero exit yields: it names both the
/// exit and the exact command that failed.
pub open spec fn spec_exit_failure_message(cmd: Seq<char>, exit: ProcessExit) -> Seq<char> {
    "Command failed (exit "@ + spec_exit_text(exit) + "): "@ + cmd
}

/// The log line announcing a command before it runs.
pub open spec fn spec_announce_line(cmd: Seq<char>) -> Seq<char> {
    "\n$ "@ + cmd + "\n"@
}

/// Render the text naming an exit.
pub fn exit_text(exit: &ProcessExit) -> (r: String)
    ensures
        r@ == spec_exit_text(*exit),
{
    match exit {
        ProcessExit::Code(c) => {
            let c = *c;
            if c >= 0 {
                u64_to_dec(c as u64)
            } else {
                let mag: u64 = (-(c as i64)) as u64;
                let mut s = String::new();
                push_char(&mut s, '-');
                let digits = u64_to_dec(mag);
                let r = s.concat(digits.as_str());
                proof {
                    assert(r@ =~= seq!['-'] + spec_dec(mag as int));
                }
                r
            }
        },
        ProcessExit::Signal => String::from_str("signal"),
    }
}

/// The log line announcing `cmd`.
pub fn announce_line(cmd: &str) -> (r: String)
    ensures
        r@ == spec_announce_line(cmd@),
{
    let r = String::from_str("\n$ ").concat(cmd).concat("\n");
    proof {
        assert(r@ =~= spec_announce_line(cmd@));
    }
    r
}

/// Judge a child's exit: success exactly on status code 0; any other exit
/// yields a failure naming the exit and the command.
pub fn classify_exit(cmd: &str, exit: ProcessExit) -> (r: Result<(), Failure>)
    ensures
        r is Ok <==> exit == ProcessExit::Code(0),
        r is Err ==> r->Err_0.message@ == spec_exit_failure_message(cmd@, exit),
{
    match exit {
        ProcessExit::Code(0) => Ok(()),
        _ => {
            let text = exit_text(&exit);
            let msg = String::from_str("Command failed (exit ").concat(text.as_str()).concat(
                "): ",
            ).concat(cmd);
            proof {
                assert(msg@ =~= spec_exit_failure_message(cmd@, exit));
            }
            Err(Failure { message: msg })
        },
    }
}

} // verus!
