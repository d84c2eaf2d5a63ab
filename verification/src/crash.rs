//! What the launcher says when the client stops on its own.
//!
//! Only a failing status counts as a crash. The ordinary ways a session ends
//! all exit zero; a signal death has no code at all and is always a crash; an
//! X11 connection loss exits 1 and is a shutdown caused by the display server,
//! not an engine crash.

use vstd::prelude::*;
use crate::text::{chars_of, contains, decimal, decimal_i32, occurs, trim, trim_bounds};

verus! {

/// How a client process ended.
///
/// `success` is the platform's own verdict on the status, `code` its exit
/// code, and `shown` the platform's one-line rendering of it (`exit status:
/// 1`, `signal: 11 (SIGSEGV)`), used only to describe a signal death.
pub struct Exit {
    /// Whether the status is a success.
    pub success: bool,
    /// The exit code, or `None` when a signal ended the process.
    pub code: Option<i32>,
    /// The status as the platform displays it.
    pub shown: String,
}

/// Whether the client's last output is Xlib reporting that the display went
/// away: `XIO: ... fatal IO error ...` or `X connection to ... broken`.
pub open spec fn display_shutdown(output: Seq<char>) -> bool {
    ||| occurs(output, "XIO:"@) && occurs(output, "fatal IO error"@)
    ||| occurs(output, "X connection to "@) && occurs(output, " broken"@)
}

/// A crash: any status that is not a success, unless it carries an exit code
/// and the output is a display shutdown. A signal death is always a crash.
pub open spec fn crashed(success: bool, code: Option<i32>, output: Seq<char>) -> bool {
    if success {
        false
    } else {
        match code {
            Some(_) => !display_shutdown(output),
            None => true,
        }
    }
}

/// Whether an exit means something went wrong.
pub fn is_crash(status: &Exit, output: &str) -> (r: bool)
    ensures
        r == crashed(status.success, status.code, output@),
{
    if status.success {
        return false;
    }
    match status.code {
        None => true,
        Some(_) => {
            let shutdown = (contains(output, "XIO:") && contains(output, "fatal IO error")) || (
            contains(output, "X connection to ") && contains(output, " broken"));
            !shutdown
        },
    }
}

/// The one line that says how the client stopped.
pub open spec fn description(code: Option<i32>, shown: Seq<char>) -> Seq<char> {
    match code {
        Some(c) => "Roblox stopped on its own, with exit code "@ + decimal(c as int) + "."@,
        None => "Roblox was stopped by the system ("@ + shown + ")."@,
    }
}

/// How the exit is described in one line, without making the user read it as
/// a number.
pub fn describe(status: &Exit) -> (r: String)
    ensures
        r@ == description(status.code, status.shown@),
{
    match status.code {
        Some(code) => {
            let mut r = String::from_str("Roblox stopped on its own, with exit code ");
            let d = decimal_i32(code);
            r.append(d.as_str());
            r.append(".");
            r
        },
        None => {
            let mut r = String::from_str("Roblox was stopped by the system (");
            r.append(status.shown.as_str());
            r.append(").");
            r
        },
    }
}

/// What the crash page's expander shows, and what its copy button copies: the
/// client's output, or a sentence saying there was none, then the command line.
pub open spec fn crash_details(output: Seq<char>, command_line: Seq<char>) -> Seq<char> {
    if trim(output).len() == 0 {
        "Roblox printed nothing before it stopped.\n\nIt was started with:\n"@ + command_line
    } else {
        output + "\n\nIt was started with:\n"@ + command_line
    }
}

/// The detail text of the crash page.
pub fn details(output: &str, command_line: &str) -> (r: String)
    ensures
        r@ == crash_details(output@, command_line@),
{
    let v = chars_of(output);
    let (a, b) = trim_bounds(v.as_slice(), 0, v.len());
    assert(v@.subrange(0, v@.len() as int) =~= output@);
    if a == b {
        let mut r = String::from_str(
            "Roblox printed nothing before it stopped.\n\nIt was started with:\n",
        );
        r.append(command_line);
        r
    } else {
        let mut r = String::from_str(output);
        r.append("\n\nIt was started with:\n");
        r.append(command_line);
        r
    }
}

/// A clean exit is never a crash, whatever was printed; a signal death always
/// is, whatever was printed, an X11 connection line included.
pub proof fn law_status_decides_first(code: Option<i32>, output: Seq<char>)
    ensures
        !crashed(true, code, output),
        crashed(false, None, output),
{
}

/// A signal death is described as the system stopping the client, and an exit
/// code is described with the code in decimal.
pub proof fn law_description_names_the_cause(code: Option<i32>, shown: Seq<char>)
    ensures
        code is None ==> occurs(description(code, shown), "stopped by the system"@),
        code matches Some(c) ==> occurs(
            description(code, shown),
            "exit code "@ + decimal(c as int),
        ),
{
    let d = description(code, shown);
    match code {
        None => {
            reveal_strlit("Roblox was stopped by the system (");
            reveal_strlit("stopped by the system");
            let n = "stopped by the system"@;
            assert(d.subrange(11int, 11 + n.len() as int) =~= n);
        },
        Some(c) => {
            reveal_strlit("Roblox stopped on its own, with exit code ");
            reveal_strlit("exit code ");
            let n = "exit code "@ + decimal(c as int);
            assert(d.subrange(32int, 32 + n.len() as int) =~= n);
        },
    }
}

/// A failing exit code is judged by what the client printed, never by its
/// value: any two codes give the same verdict on the same output, and a code
/// with no X11 connection-loss line in the output is a crash, a panic's 101
/// or a loader's 1 alike.
pub proof fn law_every_exit_code_is_judged_by_the_output(c1: i32, c2: i32, output: Seq<char>)
    ensures
        crashed(false, Some(c1), output) == crashed(false, Some(c2), output),
        !occurs(output, "XIO:"@) && !occurs(output, "X connection to "@) ==> crashed(
            false,
            Some(c1),
            output,
        ),
        occurs(output, "XIO:"@) && occurs(output, "fatal IO error"@) ==> !crashed(
            false,
            Some(c1),
            output,
        ),
{
}

/// The details hold the whole of what the client printed, unshortened, then
/// the command line at the very end: when the output is not blank the
/// details begin with all of it, and they always end with the command line.
pub proof fn law_details_keep_the_whole_output(output: Seq<char>, command_line: Seq<char>)
    ensures
        ({
            let d = crash_details(output, command_line);
            &&& d.len() >= command_line.len()
            &&& d.skip(d.len() - command_line.len()) == command_line
            &&& trim(output).len() > 0 ==> d.take(output.len() as int) == output
            &&& trim(output).len() > 0 ==> d.len() == output.len() + 23 + command_line.len()
        }),
{
    reveal_strlit("\n\nIt was started with:\n");
    reveal_strlit("Roblox printed nothing before it stopped.\n\nIt was started with:\n");
    let d = crash_details(output, command_line);
    assert(d.skip(d.len() - command_line.len()) =~= command_line);
    if trim(output).len() > 0 {
        assert(d.take(output.len() as int) =~= output);
    }
}

} // verus!
