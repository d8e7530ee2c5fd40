//! Switching back to an earlier window, skipping windows that are gone.
//!
//! The history is not told when a window closes. A switch therefore asks the
//! window manager to focus the entry it aims at and, when the window manager
//! rejects the request, moves on to the next older entry until one request is
//! accepted or the history is used up.

use vstd::prelude::*;
use vstd::string::StringExecFns;

use crate::history::FocusHistory;
use crate::text::decimal;
use crate::text::push_decimal;
use crate::text::push_signed;
use crate::text::signed_decimal;
use crate::window::Window;

verus! {

/// The window manager's answer to a request to focus one window.
#[derive(Clone, Copy, Debug, PartialEq, Eq, Structural)]
pub enum FocusReply {
    /// The window now has focus.
    Focused,
    /// The request was turned down: the window no longer exists.
    Rejected,
    /// The request could not be carried out at all.
    Failed,
}

/// Why a switch did not focus any window.
#[derive(Clone, Copy, Debug, PartialEq, Eq, Structural)]
pub enum SwitchError {
    /// No entry at or behind the given position could be focused.
    TargetUnavailable(usize),
    /// The request for the entry at the given position could not be carried
    /// out, and the switch was given up.
    RequestFailed(usize),
}

/// What a switch does next.
#[derive(Clone, Copy, Debug, PartialEq, Eq)]
pub enum SwitchStep {
    /// Ask the window manager to focus window `id`, the entry at `index`.
    Ask { index: usize, id: i64 },
    /// The switch is over: the entry at the given position has focus, or no
    /// window could be focused.
    Done(Result<usize, SwitchError>),
}

/// The reply that a list of command results stands for: the window has focus
/// when there is a first result and it reports success, and the request was
/// rejected otherwise.
pub open spec fn reply_of(outcomes: Seq<bool>) -> FocusReply {
    if outcomes.len() > 0 && outcomes[0] {
        FocusReply::Focused
    } else {
        FocusReply::Rejected
    }
}

/// The command that asks the window manager to focus window `id`.
pub open spec fn focus_command_text(id: i64) -> Seq<char> {
    "[con_id="@ + signed_decimal(id as int) + "] focus"@
}

/// What `error` says in words.
pub open spec fn message_text(error: SwitchError) -> Seq<char> {
    match error {
        SwitchError::TargetUnavailable(n) => "Last "@ + decimal(n as nat)
            + "nth window unavailable"@,
        SwitchError::RequestFailed(k) => "Focus request for last "@ + decimal(k as nat)
            + "nth window failed"@,
    }
}

impl FocusReply {
    /// Reads the window manager's results for a focus command, one per
    /// command it parsed, as a reply, see [`reply_of`].
    pub fn from_outcomes(outcomes: &[bool]) -> (reply: FocusReply)
        ensures
            reply == reply_of(outcomes@),
    {
        if outcomes.len() > 0 && outcomes[0] {
            FocusReply::Focused
        } else {
            FocusReply::Rejected
        }
    }
}

impl SwitchError {
    /// The error in words, see [`message_text`].
    pub fn message(&self) -> (text: String)
        ensures
            text@ == message_text(*self),
    {
        match self {
            SwitchError::TargetUnavailable(n) => {
                let mut text = String::from_str("Last ");
                push_decimal(&mut text, *n as u64);
                text.append("nth window unavailable");
                text
            },
            SwitchError::RequestFailed(k) => {
                let mut text = String::from_str("Focus request for last ");
                push_decimal(&mut text, *k as u64);
                text.append("nth window failed");
                text
            },
        }
    }
}

/// Writes the command that asks the window manager to focus window `id`.
pub fn focus_command(id: i64) -> (text: String)
    ensures
        text@ == focus_command_text(id),
{
    let mut text = String::from_str("[con_id=");
    push_signed(&mut text, id);
    text.append("] focus");
    text
}

/// The step of a switch from position `n` that has reached position `k`: ask
/// for the entry there, or give up when the history does not reach that far.
pub open spec fn ask_at(s: Seq<Window>, n: usize, k: int) -> SwitchStep {
    if 0 <= k < s.len() {
        SwitchStep::Ask { index: k as usize, id: s[k].id }
    } else {
        SwitchStep::Done(Err(SwitchError::TargetUnavailable(n)))
    }
}

/// The step that follows `reply` to the request for the entry at `asked`, in
/// a switch from position `n`.
pub open spec fn after_reply(
    s: Seq<Window>,
    n: usize,
    asked: usize,
    reply: FocusReply,
) -> SwitchStep {
    match reply {
        FocusReply::Focused => SwitchStep::Done(Ok(asked)),
        FocusReply::Rejected => ask_at(s, n, asked + 1),
        FocusReply::Failed => SwitchStep::Done(Err(SwitchError::RequestFailed(asked))),
    }
}

/// `focus` may answer `reply` when asked for window `w`.
pub open spec fn answers<F: Fn(i64) -> FocusReply>(
    focus: F,
    w: Window,
    reply: FocusReply,
) -> bool {
    call_ensures(focus, (w.id,), reply)
}

/// `focus` rejected the request for every entry from position `from` up to,
/// not including, position `to`.
pub open spec fn rejected_between<F: Fn(i64) -> FocusReply>(
    focus: F,
    s: Seq<Window>,
    from: int,
    to: int,
) -> bool {
    forall|j: int|
        from <= j < to && j < s.len() ==> answers(focus, #[trigger] s[j], FocusReply::Rejected)
}

/// `outcome` is what a switch from position `n` comes to when the window
/// manager answers as `focus` does: the first entry at or behind `n` whose
/// request was not rejected decides, and if there is none the target is
/// unavailable.
pub open spec fn switched<F: Fn(i64) -> FocusReply>(
    focus: F,
    s: Seq<Window>,
    n: usize,
    outcome: Result<usize, SwitchError>,
) -> bool {
    match outcome {
        Ok(k) => {
            &&& n <= k < s.len()
            &&& rejected_between(focus, s, n as int, k as int)
            &&& answers(focus, s[k as int], FocusReply::Focused)
        },
        Err(SwitchError::RequestFailed(k)) => {
            &&& n <= k < s.len()
            &&& rejected_between(focus, s, n as int, k as int)
            &&& answers(focus, s[k as int], FocusReply::Failed)
        },
        Err(SwitchError::TargetUnavailable(m)) => {
            &&& m == n
            &&& rejected_between(focus, s, n as int, s.len() as int)
        },
    }
}

/// The first step of a switch to the entry at position `n`.
pub fn begin_switch(history: &FocusHistory, n: usize) -> (step: SwitchStep)
    ensures
        step == ask_at(history@, n, n as int),
{
    match history.get(n) {
        Some(w) => SwitchStep::Ask { index: n, id: w.id },
        None => SwitchStep::Done(Err(SwitchError::TargetUnavailable(n))),
    }
}

/// The step that follows the window manager's `reply` to the request for the
/// entry at position `asked`, in a switch that began at position `n`.
pub fn continue_switch(
    history: &FocusHistory,
    n: usize,
    asked: usize,
    reply: FocusReply,
) -> (step: SwitchStep)
    ensures
        step == after_reply(history@, n, asked, reply),
{
    match reply {
        FocusReply::Focused => SwitchStep::Done(Ok(asked)),
        FocusReply::Rejected => {
            let next = if asked < history.len() {
                history.get(asked + 1)
            } else {
                None
            };
            match next {
                Some(w) => SwitchStep::Ask { index: asked + 1, id: w.id },
                None => SwitchStep::Done(Err(SwitchError::TargetUnavailable(n))),
            }
        },
        FocusReply::Failed => SwitchStep::Done(Err(SwitchError::RequestFailed(asked))),
    }
}

/// Switches to the entry at position `n`, or to the first entry behind it
/// that the window manager accepts. `focus` asks the window manager to focus
/// one window and reports its answer.
///
/// Returns the position of the entry that now has focus. When every request
/// from `n` on was rejected, or the history has no entry at `n`, the error is
/// `TargetUnavailable(n)`; when a request could not be carried out, the
/// switch stops there with `RequestFailed`.
pub fn switch_to<F: Fn(i64) -> FocusReply>(
    history: &FocusHistory,
    n: usize,
    focus: F,
) -> (outcome: Result<usize, SwitchError>)
    requires
        forall|id: i64| call_requires(focus, (id,)),
    ensures
        switched(focus, history@, n, outcome),
        n >= history@.len() ==> outcome == Err::<usize, SwitchError>(
            SwitchError::TargetUnavailable(n),
        ),
{
    let len = history.len();
    let mut step = begin_switch(history, n);
    let ghost mut reached: int = n as int;
    loop
        invariant
            forall|id: i64| call_requires(focus, (id,)),
            len == history@.len(),
            n <= reached,
            rejected_between(focus, history@, n as int, reached),
            step == ask_at(history@, n, reached) || (step matches SwitchStep::Done(r) && switched(
                focus,
                history@,
                n,
                r,
            )),
        decreases
            history@.len() - reached + (if step is Ask { 1int } else { 0int }),
    {
        match step {
            SwitchStep::Ask { index, id } => {
                let reply = focus(id);
                assert(answers(focus, history@[index as int], reply));
                step = continue_switch(history, n, index, reply);
                proof {
                    if reply == FocusReply::Rejected {
                        reached = reached + 1;
                    }
                }
            },
            SwitchStep::Done(outcome) => {
                return outcome;
            },
        }
    }
}

/// What a switch from position `n` that has reached position `k` comes to
/// when every request for a window `id` is answered by `verdict(id)`.
pub open spec fn scan(
    s: Seq<Window>,
    n: usize,
    k: int,
    verdict: spec_fn(i64) -> FocusReply,
) -> Result<usize, SwitchError>
    decreases s.len() - k,
{
    if k < 0 || k >= s.len() {
        Err(SwitchError::TargetUnavailable(n))
    } else {
        match verdict(s[k].id) {
            FocusReply::Focused => Ok(k as usize),
            FocusReply::Rejected => scan(s, n, k + 1, verdict),
            FocusReply::Failed => Err(SwitchError::RequestFailed(k as usize)),
        }
    }
}

/// A scan passes over entries whose requests are rejected.
proof fn lemma_scan_skips(
    s: Seq<Window>,
    n: usize,
    from: int,
    to: int,
    verdict: spec_fn(i64) -> FocusReply,
)
    requires
        0 <= from <= to <= s.len(),
        forall|j: int| from <= j < to ==> verdict((#[trigger] s[j]).id) == FocusReply::Rejected,
    ensures
        scan(s, n, from, verdict) == scan(s, n, to, verdict),
    decreases to - from,
{
    if from < to {
        assert(verdict(s[from].id) == FocusReply::Rejected);
        lemma_scan_skips(s, n, from + 1, to, verdict);
    }
}

/// When the window manager answers every request for a window in one way
/// only, the outcome of a switch is settled: it is the first entry at or
/// behind the target whose request is not rejected that decides, and the
/// switch fails with `TargetUnavailable` exactly when there is no such entry.
pub proof fn lemma_switch_settled<F: Fn(i64) -> FocusReply>(
    focus: F,
    s: Seq<Window>,
    n: usize,
    verdict: spec_fn(i64) -> FocusReply,
    outcome: Result<usize, SwitchError>,
)
    requires
        forall|id: i64, reply: FocusReply|
            call_ensures(focus, (id,), reply) ==> reply == verdict(id),
        switched(focus, s, n, outcome),
    ensures
        outcome == scan(s, n, n as int, verdict),
{
    let stop: int = match outcome {
        Ok(k) => k as int,
        Err(SwitchError::RequestFailed(k)) => k as int,
        Err(SwitchError::TargetUnavailable(_)) => if n <= s.len() {
            s.len() as int
        } else {
            n as int
        },
    };
    if n <= s.len() {
        assert forall|j: int| n <= j < stop implies verdict((#[trigger] s[j]).id)
            == FocusReply::Rejected by {
            assert(answers(focus, s[j], FocusReply::Rejected));
        }
        lemma_scan_skips(s, n, n as int, stop, verdict);
    }
}

} // verus!
