//! The command protocol of the control channel.
//!
//! A client sends one line. `switch` asks to go back to the window that had
//! focus before the current one, `debug` asks for a listing of the history,
//! and anything else is answered with a fixed complaint.

use vstd::prelude::*;
use vstd::slice::slice_subrange;
use vstd::string::StringExecFns;
use vstd::string::StringSliceAdditionalSpecFns;

use crate::history::after_mark;
use crate::history::FocusHistory;
use crate::switcher::switch_to;
use crate::switcher::switched;
use crate::switcher::FocusReply;
use crate::switcher::SwitchError;
use crate::text::decimal;
use crate::text::push_decimal;
use crate::text::push_signed;
use crate::text::push_truth;
use crate::text::signed_decimal;
use crate::text::truth;
use crate::window::Window;

verus! {

/// The position a `switch` command aims at: the entry right behind the front,
/// which is the window that had focus before the current one.
pub const PREVIOUS: usize = 1;

/// What is sent back for anything that is not a command.
pub const COMPLAINT: &'static str = "Invalid command\n";

/// What a client asked for.
#[derive(Clone, Copy, Debug, PartialEq, Eq, Structural)]
pub enum Command {
    /// Go back to the previously focused window.
    Switch,
    /// List the history.
    Debug,
    /// Anything that is not a command.
    Invalid,
}

/// The answer to one request.
#[derive(Clone, Debug, PartialEq, Eq)]
pub struct Handled {
    /// The text to send back to the client; empty when nothing is sent.
    pub response: String,
    /// For a `switch` command, how the switch went. The client is not told.
    pub switch: Option<Result<usize, SwitchError>>,
}

/// The first line feed of `raw` is at position `k`.
pub open spec fn newline_at(raw: Seq<u8>, k: int) -> bool {
    &&& 0 <= k < raw.len()
    &&& raw[k] == 10
    &&& forall|j: int| 0 <= j < k ==> raw[j] != 10
}

/// The first line of `raw`, without its end: the bytes before the first line
/// feed, less a carriage return right before that line feed. Without a line
/// feed, all of `raw` is the line.
pub open spec fn first_line(raw: Seq<u8>) -> Seq<u8> {
    if exists|k: int| newline_at(raw, k) {
        let k = choose|k: int| newline_at(raw, k);
        if k > 0 && raw[k - 1] == 13 {
            raw.subrange(0, k - 1)
        } else {
            raw.subrange(0, k)
        }
    } else {
        raw
    }
}

/// The command that `line` spells.
pub open spec fn command_of(line: Seq<u8>) -> Command {
    if line == "switch".spec_bytes() {
        Command::Switch
    } else if line == "debug".spec_bytes() {
        Command::Debug
    } else {
        Command::Invalid
    }
}

/// One entry of the listing.
pub open spec fn listed_window(w: Window) -> Seq<char> {
    "    Window {\n        id: "@ + signed_decimal(w.id as int) + ",\n        just_switched: "@
        + truth(w.just_switched) + ",\n        focused_at: "@ + decimal(w.focused_at as nat)
        + ",\n    },\n"@
}

/// The entries of the listing, most recent first.
pub open spec fn listed_windows(s: Seq<Window>) -> Seq<char>
    decreases s.len(),
{
    if s.len() == 0 {
        Seq::empty()
    } else {
        listed_windows(s.drop_last()) + listed_window(s.last())
    }
}

/// The listing of a history: its entries in order, each with its window id,
/// its pending mark and the time it gained focus.
pub open spec fn listing(s: Seq<Window>) -> Seq<char> {
    if s.len() == 0 {
        "[]"@
    } else {
        "[\n"@ + listed_windows(s) + "]"@
    }
}

/// The history after `command` was handled.
pub open spec fn history_after(s: Seq<Window>, command: Command) -> Seq<Window> {
    match command {
        Command::Switch => after_mark(s),
        Command::Debug => s,
        Command::Invalid => s,
    }
}

/// The text sent back for `command` when the history is `s`.
pub open spec fn response_to(s: Seq<Window>, command: Command) -> Seq<char> {
    match command {
        Command::Switch => Seq::empty(),
        Command::Debug => listing(s) + "\n"@,
        Command::Invalid => COMPLAINT@,
    }
}

/// The name of the control channel's endpoint for the server process `pid`
/// started at `timestamp`, in seconds.
pub open spec fn socket_name_text(pid: u32, timestamp: u64) -> Seq<char> {
    "i3-alternate-focus."@ + decimal(pid as nat) + "."@ + decimal(timestamp as nat) + ".sock"@
}

/// Names the control channel's endpoint. The process id and the start time
/// are part of the name, so that a server does not take over what an earlier
/// one left behind.
pub fn socket_name(pid: u32, timestamp: u64) -> (name: String)
    ensures
        name@ == socket_name_text(pid, timestamp),
{
    let mut name = String::from_str("i3-alternate-focus.");
    push_decimal(&mut name, pid as u64);
    name.append(".");
    push_decimal(&mut name, timestamp);
    name.append(".sock");
    name
}

/// Whether `a` and `b` hold the same bytes.
fn same_bytes(a: &[u8], b: &[u8]) -> (same: bool)
    ensures
        same == (a@ == b@),
{
    if a.len() != b.len() {
        return false;
    }
    let mut i: usize = 0;
    while i < a.len()
        invariant
            a@.len() == b@.len(),
            i <= a@.len(),
            forall|j: int| 0 <= j < i ==> a@[j] == b@[j],
        decreases a@.len() - i,
    {
        if a[i] != b[i] {
            return false;
        }
        i = i + 1;
    }
    assert(a@ =~= b@);
    true
}

/// Cuts the first line out of what a client sent, see [`first_line`].
pub fn request_line(raw: &[u8]) -> (line: &[u8])
    ensures
        line@ == first_line(raw@),
{
    let mut k: usize = 0;
    while k < raw.len() && raw[k] != 10
        invariant
            k <= raw@.len(),
            forall|j: int| 0 <= j < k ==> raw@[j] != 10,
        decreases raw@.len() - k,
    {
        k = k + 1;
    }
    if k < raw.len() {
        assert(newline_at(raw@, k as int));
        assert forall|m: int| newline_at(raw@, m) implies m == k by {}
        if k > 0 && raw[k - 1] == 13 {
            slice_subrange(raw, 0, k - 1)
        } else {
            slice_subrange(raw, 0, k)
        }
    } else {
        raw
    }
}

/// Reads a request line as a command, see [`command_of`].
pub fn parse_command(line: &[u8]) -> (command: Command)
    ensures
        command == command_of(line@),
{
    if same_bytes(line, "switch".as_bytes()) {
        Command::Switch
    } else if same_bytes(line, "debug".as_bytes()) {
        Command::Debug
    } else {
        Command::Invalid
    }
}

/// Appends the listing entry of `w` to `out`.
fn push_window(out: &mut String, w: &Window)
    ensures
        final(out)@ == old(out)@ + listed_window(*w),
{
    out.append("    Window {\n        id: ");
    push_signed(out, w.id);
    out.append(",\n        just_switched: ");
    push_truth(out, w.just_switched);
    out.append(",\n        focused_at: ");
    push_decimal(out, w.focused_at);
    out.append(",\n    },\n");
    assert(out@ =~= old(out)@ + listed_window(*w));
}

/// Lists the history, see [`listing`]. The history is left as it is.
pub fn list_history(history: &FocusHistory) -> (text: String)
    ensures
        text@ == listing(history@),
{
    let windows = history.snapshot();
    if windows.len() == 0 {
        return String::from_str("[]");
    }
    let mut text = String::from_str("[\n");
    let mut i: usize = 0;
    while i < windows.len()
        invariant
            i <= windows@.len(),
            text@ == "[\n"@ + listed_windows(windows@.take(i as int)),
        decreases windows@.len() - i,
    {
        push_window(&mut text, &windows[i]);
        i = i + 1;
        proof {
            assert(windows@.take(i as int).drop_last() =~= windows@.take(i - 1));
            assert(text@ =~= "[\n"@ + listed_windows(windows@.take(i as int)));
        }
    }
    assert(windows@.take(i as int) =~= windows@);
    text.append("]");
    text
}

/// Carries out `command`.
///
/// For `switch` the front entry is marked as just switched and a switch to
/// the entry behind it is made through `focus`, all in one go, so that no
/// focus notification can come between the mark and the request; nothing is
/// sent back, however the switch went. For `debug` the listing of the history
/// is sent back and the history stays as it is. For anything else the
/// complaint is sent back.
pub fn handle_command<F: Fn(i64) -> FocusReply>(
    history: &mut FocusHistory,
    command: Command,
    focus: F,
) -> (out: Handled)
    requires
        forall|id: i64| call_requires(focus, (id,)),
    ensures
        final(history)@ == history_after(old(history)@, command),
        out.response@ == response_to(old(history)@, command),
        match out.switch {
            Some(outcome) => command == Command::Switch && switched(
                focus,
                final(history)@,
                PREVIOUS,
                outcome,
            ),
            None => command != Command::Switch,
        },
        final(history).wf(),
{
    proof {
        use_type_invariant(&*history);
    }
    match command {
        Command::Switch => {
            history.mark_pending_switch();
            let outcome = switch_to(history, PREVIOUS, focus);
            Handled { response: String::new(), switch: Some(outcome) }
        },
        Command::Debug => {
            let mut response = list_history(history);
            response.append("\n");
            Handled { response, switch: None }
        },
        Command::Invalid => Handled { response: String::from_str(COMPLAINT), switch: None },
    }
}

/// Handles what one client sent: reads the command off the first line of
/// `raw` and carries it out, see [`handle_command`].
pub fn handle_request<F: Fn(i64) -> FocusReply>(
    history: &mut FocusHistory,
    raw: &[u8],
    focus: F,
) -> (out: Handled)
    requires
        forall|id: i64| call_requires(focus, (id,)),
    ensures
        final(history)@ == history_after(old(history)@, command_of(first_line(raw@))),
        out.response@ == response_to(old(history)@, command_of(first_line(raw@))),
        match out.switch {
            Some(outcome) => command_of(first_line(raw@)) == Command::Switch && switched(
                focus,
                final(history)@,
                PREVIOUS,
                outcome,
            ),
            None => command_of(first_line(raw@)) != Command::Switch,
        },
        final(history).wf(),
{
    handle_command(history, parse_command(request_line(raw)), focus)
}

/// Asking for the listing changes nothing: the history stays as it is, so
/// asking again right away gets the same text.
pub proof fn lemma_debug_read_only(s: Seq<Window>)
    ensures
        history_after(s, Command::Debug) == s,
        response_to(history_after(s, Command::Debug), Command::Debug) == response_to(
            s,
            Command::Debug,
        ),
{
}

} // verus!
