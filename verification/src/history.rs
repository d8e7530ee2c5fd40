//! The focus history and its update policy.

use std::collections::VecDeque;
use vstd::prelude::*;

use crate::window::Window;
use crate::window::MAX_HISTORY;

verus! {

/// No two entries of `s` belong to the same window.
pub open spec fn distinct_ids(s: Seq<Window>) -> bool {
    forall|i: int, j: int| 0 <= i < j < s.len() ==> s[i].id != s[j].id
}

/// Only the front entry of `s` may be marked as just switched.
pub open spec fn only_front_pending(s: Seq<Window>) -> bool {
    forall|i: int| 0 < i < s.len() ==> !(#[trigger] s[i]).just_switched
}

/// What every focus history satisfies: at most [`MAX_HISTORY`] entries, one
/// entry per window, and no pending mark behind the front.
pub open spec fn well_formed(s: Seq<Window>) -> bool {
    &&& s.len() <= MAX_HISTORY
    &&& distinct_ids(s)
    &&& only_front_pending(s)
}

/// The history once its front entry has been judged at time `now`: a front
/// that was marked as just switched loses the mark and stays; an unmarked
/// front that held focus only briefly is dropped.
pub open spec fn settle(s: Seq<Window>, now: u64) -> Seq<Window> {
    if s.len() == 0 {
        s
    } else if s[0].just_switched {
        s.update(0, s[0].with_pending(false))
    } else if s[0].held_briefly(now) {
        s.subrange(1, s.len() as int)
    } else {
        s
    }
}

/// `s` with every entry for window `id` taken out.
pub open spec fn without(s: Seq<Window>, id: i64) -> Seq<Window> {
    s.filter(|w: Window| w.id != id)
}

/// The first `limit` entries of `s`, or all of `s` if it has fewer.
pub open spec fn capped(s: Seq<Window>, limit: int) -> Seq<Window> {
    if s.len() > limit {
        s.subrange(0, limit)
    } else {
        s
    }
}

/// The history after window `id` gained focus at time `now`.
pub open spec fn after_focus(s: Seq<Window>, id: i64, now: u64) -> Seq<Window> {
    capped(
        seq![Window { id, focused_at: now, just_switched: false }] + without(settle(s, now), id),
        MAX_HISTORY as int,
    )
}

/// The history after its front entry, if any, was marked as just switched.
pub open spec fn after_mark(s: Seq<Window>) -> Seq<Window> {
    if s.len() == 0 {
        s
    } else {
        s.update(0, s[0].with_pending(true))
    }
}

/// One change to a focus history.
#[derive(Clone, Copy, Debug, PartialEq, Eq, Structural)]
pub enum Update {
    /// Window `id` gained focus at time `now`.
    Focus { id: i64, now: u64 },
    /// A switch away from the front window was requested.
    MarkPending,
}

/// The history after one update.
pub open spec fn apply(s: Seq<Window>, update: Update) -> Seq<Window> {
    match update {
        Update::Focus { id, now } => after_focus(s, id, now),
        Update::MarkPending => after_mark(s),
    }
}

/// The history after a sequence of updates, applied first to last.
pub open spec fn replay(s: Seq<Window>, updates: Seq<Update>) -> Seq<Window>
    decreases updates.len(),
{
    if updates.len() == 0 {
        s
    } else {
        apply(replay(s, updates.drop_last()), updates.last())
    }
}

/// The windows that recently had focus, most recent first.
#[derive(Debug)]
pub struct FocusHistory {
    windows: VecDeque<Window>,
}

impl View for FocusHistory {
    type V = Seq<Window>;

    closed spec fn view(&self) -> Seq<Window> {
        self.windows@
    }
}

impl FocusHistory {
    /// The invariant of the history, see [`well_formed`]. It holds of every
    /// history there is.
    #[verifier::type_invariant]
    pub open spec fn wf(&self) -> bool {
        well_formed(self@)
    }

    /// An empty history.
    pub fn new() -> (h: FocusHistory)
        ensures
            h@ == Seq::<Window>::empty(),
            h.wf(),
    {
        FocusHistory { windows: VecDeque::new() }
    }

    /// The history at start-up: a single entry for the window that has focus
    /// at time `now`, or nothing when that window could not be found out.
    pub fn seeded(focused: Option<i64>, now: u64) -> (h: FocusHistory)
        ensures
            h@ == match focused {
                Some(id) => seq![Window { id, focused_at: now, just_switched: false }],
                None => Seq::<Window>::empty(),
            },
            h.wf(),
    {
        let mut h = FocusHistory::new();
        match focused {
            Some(id) => {
                h.on_focus(id, now);
                assert(h@ =~= seq![Window { id, focused_at: now, just_switched: false }]) by {
                    reveal(Seq::filter);
                }
            },
            None => {},
        }
        h
    }

    /// The number of entries.
    pub fn len(&self) -> (n: usize)
        ensures
            n == self@.len(),
    {
        self.windows.len()
    }

    /// Whether the history has no entry.
    pub fn is_empty(&self) -> (empty: bool)
        ensures
            empty == (self@.len() == 0),
    {
        self.windows.len() == 0
    }

    /// The entry at position `index`, counted from the most recent, if the
    /// history reaches that far.
    pub fn get(&self, index: usize) -> (w: Option<Window>)
        ensures
            w == if index < self@.len() {
                Some(self@[index as int])
            } else {
                None
            },
    {
        if index < self.windows.len() {
            Some(self.windows[index])
        } else {
            None
        }
    }

    /// A copy of the entries, most recent first. The history is left as it is.
    pub fn snapshot(&self) -> (copy: Vec<Window>)
        ensures
            copy@ == self@,
    {
        let mut copy: Vec<Window> = Vec::new();
        let mut i: usize = 0;
        while i < self.windows.len()
            invariant
                i <= self.windows@.len(),
                copy@ == self.windows@.take(i as int),
            decreases self.windows@.len() - i,
        {
            copy.push(self.windows[i]);
            i = i + 1;
            assert(copy@ =~= self.windows@.take(i as int));
        }
        assert(self.windows@.take(i as int) =~= self.windows@);
        copy
    }

    /// Records that window `id` gained focus at time `now`.
    ///
    /// The front entry is judged first: if it was marked as just switched the
    /// mark is cleared, otherwise it is dropped when it held focus only
    /// briefly. Any entry for `id` is then taken out, a fresh entry for `id`
    /// is put at the front, and the history is cut to [`MAX_HISTORY`] entries.
    pub fn on_focus(&mut self, id: i64, now: u64)
        ensures
            final(self)@ == after_focus(old(self)@, id, now),
            final(self).wf(),
    {
        proof {
            use_type_invariant(&*self);
            lemma_after_focus_well_formed(self@, id, now);
        }
        let mut windows = self.take_windows();
        settle_front(&mut windows, now);
        forget(&mut windows, id);
        windows.push_front(Window::new(id, now));
        windows.truncate(MAX_HISTORY);
        self.windows = windows;
    }

    /// Marks the front entry, if there is one, as just switched, so that the
    /// next focus notification does not drop it for having been brief.
    pub fn mark_pending_switch(&mut self)
        ensures
            final(self)@ == after_mark(old(self)@),
            final(self).wf(),
    {
        proof {
            use_type_invariant(&*self);
        }
        let mut windows = self.take_windows();
        match windows.pop_front() {
            Some(front) => {
                windows.push_front(front.pending(true));
                assert(windows@ =~= after_mark(old(self)@));
            },
            None => {},
        }
        self.windows = windows;
    }

    /// Hands out the entries to be worked on, and leaves the history empty
    /// until they are put back.
    fn take_windows(&mut self) -> (windows: VecDeque<Window>)
        ensures
            windows@ == old(self)@,
            final(self)@ == Seq::<Window>::empty(),
    {
        let mut windows: VecDeque<Window> = VecDeque::new();
        std::mem::swap(&mut self.windows, &mut windows);
        windows
    }
}

/// Judges the front entry of `windows` at time `now`, see [`settle`].
fn settle_front(windows: &mut VecDeque<Window>, now: u64)
    ensures
        final(windows)@ == settle(old(windows)@, now),
{
    match windows.pop_front() {
        Some(front) => {
            if front.just_switched {
                windows.push_front(front.pending(false));
            } else if !front.is_brief(now) {
                windows.push_front(front);
            }
            assert(windows@ =~= settle(old(windows)@, now));
        },
        None => {},
    }
}

/// Takes every entry for window `id` out of `windows`.
fn forget(windows: &mut VecDeque<Window>, id: i64)
    ensures
        final(windows)@ == without(old(windows)@, id),
{
    let ghost all = windows@;
    let ghost mut seen: int = 0;
    let mut i: usize = 0;
    while i < windows.len()
        invariant
            0 <= seen <= all.len(),
            i == without(all.take(seen), id).len(),
            windows@ == without(all.take(seen), id) + all.skip(seen),
        decreases all.len() - seen,
    {
        let here = windows[i];
        proof {
            assert(here == all[seen]);
            assert(all.take(seen + 1) =~= all.take(seen).push(all[seen]));
            all.take(seen).lemma_filter_push(all[seen], |w: Window| w.id != id);
        }
        if here.id == id {
            let _ = windows.remove(i);
        } else {
            i = i + 1;
        }
        proof {
            seen = seen + 1;
            assert(windows@ =~= without(all.take(seen), id) + all.skip(seen));
        }
    }
    proof {
        assert(all.take(seen) =~= all);
        assert(windows@ =~= without(all, id));
    }
}

/// Taking a window out of a history keeps the other entries, in order: every
/// entry left is an entry of `s` for another window, and entries that were for
/// different windows still are.
pub proof fn lemma_without(s: Seq<Window>, id: i64)
    ensures
        without(s, id).len() <= s.len(),
        forall|k: int|
            0 <= k < without(s, id).len() ==> (#[trigger] without(s, id)[k]).id != id
                && s.contains(without(s, id)[k]),
        distinct_ids(s) ==> distinct_ids(without(s, id)),
    decreases s.len(),
{
    reveal(Seq::filter);
    if s.len() > 0 {
        let rest = s.drop_last();
        let kept = without(rest, id);
        let all = without(s, id);
        lemma_without(rest, id);
        assert forall|k: int| 0 <= k < all.len() implies (#[trigger] all[k]).id != id
            && s.contains(all[k]) by {
            if k < kept.len() {
                let m = choose|m: int| 0 <= m < rest.len() && rest[m] == kept[k];
                assert(s[m] == all[k]);
            } else {
                assert(all[k] == s[s.len() - 1]);
            }
        }
        if distinct_ids(s) {
            assert(distinct_ids(rest)) by {
                assert forall|i: int, j: int| 0 <= i < j < rest.len() implies rest[i].id
                    != rest[j].id by {
                    assert(rest[i] == s[i] && rest[j] == s[j]);
                }
            }
            assert forall|i: int, j: int| 0 <= i < j < all.len() implies all[i].id
                != all[j].id by {
                if j >= kept.len() {
                    let m = choose|m: int| 0 <= m < rest.len() && rest[m] == kept[i];
                    assert(s[m] == all[i]);
                    assert(all[j] == s[s.len() - 1]);
                }
            }
        }
    }
}

/// Taking out a window that has no entry changes nothing.
pub proof fn lemma_without_absent(s: Seq<Window>, id: i64)
    requires
        forall|k: int| 0 <= k < s.len() ==> (#[trigger] s[k]).id != id,
    ensures
        without(s, id) == s,
    decreases s.len(),
{
    reveal(Seq::filter);
    if s.len() > 0 {
        let rest = s.drop_last();
        assert forall|k: int| 0 <= k < rest.len() implies (#[trigger] rest[k]).id != id by {
            assert(rest[k] == s[k]);
        }
        lemma_without_absent(rest, id);
        assert(rest.push(s.last()) =~= s);
    }
}

/// Taking out another window leaves the front entry at the front.
pub proof fn lemma_without_keeps_front(s: Seq<Window>, id: i64)
    requires
        s.len() > 0,
        s[0].id != id,
    ensures
        without(s, id).len() > 0,
        without(s, id)[0] == s[0],
    decreases s.len(),
{
    reveal(Seq::filter);
    if s.len() > 1 {
        lemma_without_keeps_front(s.drop_last(), id);
    } else {
        assert(without(s.drop_last(), id).len() == 0);
    }
}

/// Judging the front entry keeps the entries apart and leaves no entry
/// marked, if only the front could be marked before.
proof fn lemma_settle(s: Seq<Window>, now: u64)
    ensures
        settle(s, now).len() <= s.len(),
        distinct_ids(s) ==> distinct_ids(settle(s, now)),
        only_front_pending(s) ==> forall|i: int|
            0 <= i < settle(s, now).len() ==> !(#[trigger] settle(s, now)[i]).just_switched,
{
    let settled = settle(s, now);
    if s.len() > 0 && !s[0].just_switched && s[0].held_briefly(now) {
        assert forall|i: int| 0 <= i < settled.len() implies settled[i] == s[i + 1] by {}
        if distinct_ids(s) {
            assert forall|i: int, j: int| 0 <= i < j < settled.len() implies settled[i].id
                != settled[j].id by {
                assert(settled[i] == s[i + 1] && settled[j] == s[j + 1]);
            }
        }
    }
}

/// Whatever the history held, after a focus notification it holds at most
/// [`MAX_HISTORY`] entries, and the window that gained focus is at the front,
/// unmarked and stamped with the time of the notification.
pub proof fn lemma_after_focus_bounded(s: Seq<Window>, id: i64, now: u64)
    ensures
        1 <= after_focus(s, id, now).len() <= MAX_HISTORY,
        after_focus(s, id, now)[0] == (Window { id, focused_at: now, just_switched: false }),
{
}

/// A focus notification never makes two entries for one window.
pub proof fn lemma_after_focus_distinct(s: Seq<Window>, id: i64, now: u64)
    requires
        distinct_ids(s),
    ensures
        distinct_ids(after_focus(s, id, now)),
{
    let kept = without(settle(s, now), id);
    let result = after_focus(s, id, now);
    lemma_settle(s, now);
    lemma_without(settle(s, now), id);
    assert forall|i: int, j: int| 0 <= i < j < result.len() implies result[i].id
        != result[j].id by {
        assert(result[j] == kept[j - 1]);
        if i > 0 {
            assert(result[i] == kept[i - 1]);
        }
    }
}

/// After a focus notification no entry is marked as just switched, if only
/// the front could be marked before.
pub proof fn lemma_after_focus_unmarked(s: Seq<Window>, id: i64, now: u64)
    requires
        only_front_pending(s),
    ensures
        forall|i: int|
            0 <= i < after_focus(s, id, now).len() ==> !(#[trigger] after_focus(
                s,
                id,
                now,
            )[i]).just_switched,
{
    let settled = settle(s, now);
    let kept = without(settled, id);
    let result = after_focus(s, id, now);
    lemma_settle(s, now);
    lemma_without(settled, id);
    assert forall|i: int| 0 <= i < result.len() implies !(#[trigger] result[i]).just_switched by {
        if i > 0 {
            assert(result[i] == kept[i - 1]);
            let m = choose|m: int| 0 <= m < settled.len() && settled[m] == kept[i - 1];
            assert(!settled[m].just_switched);
        }
    }
}

/// A focus notification leaves the history well formed.
pub proof fn lemma_after_focus_well_formed(s: Seq<Window>, id: i64, now: u64)
    requires
        well_formed(s),
    ensures
        well_formed(after_focus(s, id, now)),
{
    lemma_after_focus_bounded(s, id, now);
    lemma_after_focus_distinct(s, id, now);
    lemma_after_focus_unmarked(s, id, now);
}

/// Marking the front entry leaves the history well formed.
pub proof fn lemma_after_mark_well_formed(s: Seq<Window>)
    requires
        well_formed(s),
    ensures
        well_formed(after_mark(s)),
{
}

/// Each of the three parts of well-formedness, taken alone, carries over
/// from a history to what a sequence of updates makes of it.
proof fn lemma_replay_keeps(s: Seq<Window>, updates: Seq<Update>)
    ensures
        s.len() <= MAX_HISTORY ==> replay(s, updates).len() <= MAX_HISTORY,
        distinct_ids(s) ==> distinct_ids(replay(s, updates)),
        only_front_pending(s) ==> only_front_pending(replay(s, updates)),
    decreases updates.len(),
{
    if updates.len() > 0 {
        let before = replay(s, updates.drop_last());
        lemma_replay_keeps(s, updates.drop_last());
        match updates.last() {
            Update::Focus { id, now } => {
                lemma_after_focus_bounded(before, id, now);
                if distinct_ids(s) {
                    lemma_after_focus_distinct(before, id, now);
                }
                if only_front_pending(s) {
                    lemma_after_focus_unmarked(before, id, now);
                }
            },
            Update::MarkPending => {
                if distinct_ids(s) {
                    assert(distinct_ids(after_mark(before)));
                }
                if only_front_pending(s) {
                    assert(only_front_pending(after_mark(before)));
                }
            },
        }
    }
}

/// The history never grows beyond [`MAX_HISTORY`] entries: starting from a
/// history within the bound, such as the empty one, it is within the bound
/// after every single one of any sequence of updates.
pub proof fn lemma_history_stays_bounded(s: Seq<Window>, updates: Seq<Update>)
    requires
        s.len() <= MAX_HISTORY,
    ensures
        forall|k: int|
            0 <= k <= updates.len() ==> (#[trigger] replay(s, updates.take(k))).len()
                <= MAX_HISTORY,
{
    assert forall|k: int| 0 <= k <= updates.len() implies (#[trigger] replay(
        s,
        updates.take(k),
    )).len() <= MAX_HISTORY by {
        lemma_replay_keeps(s, updates.take(k));
    }
}

/// No window ever has two entries: starting from a history with one entry
/// per window, such as the empty one, this holds after every single one of
/// any sequence of updates.
pub proof fn lemma_history_stays_distinct(s: Seq<Window>, updates: Seq<Update>)
    requires
        distinct_ids(s),
    ensures
        forall|k: int|
            0 <= k <= updates.len() ==> distinct_ids(#[trigger] replay(s, updates.take(k))),
{
    assert forall|k: int| 0 <= k <= updates.len() implies distinct_ids(
        #[trigger] replay(s, updates.take(k)),
    ) by {
        lemma_replay_keeps(s, updates.take(k));
    }
}

/// Starting from a well-formed history, the history is well formed after
/// every single one of any sequence of updates; in particular a pending mark
/// is never found behind the front.
pub proof fn lemma_history_stays_well_formed(s: Seq<Window>, updates: Seq<Update>)
    requires
        well_formed(s),
    ensures
        forall|k: int|
            0 <= k <= updates.len() ==> well_formed(#[trigger] replay(s, updates.take(k))),
{
    assert forall|k: int| 0 <= k <= updates.len() implies well_formed(
        #[trigger] replay(s, updates.take(k)),
    ) by {
        lemma_replay_keeps(s, updates.take(k));
    }
}

/// A front window that was not marked and held focus only briefly is gone
/// once another window gains focus.
pub proof fn lemma_brief_front_dropped(s: Seq<Window>, id: i64, now: u64)
    requires
        distinct_ids(s),
        s.len() > 0,
        !s[0].just_switched,
        s[0].held_briefly(now),
        s[0].id != id,
    ensures
        forall|k: int|
            0 <= k < after_focus(s, id, now).len() ==> (#[trigger] after_focus(s, id, now)[k]).id
                != s[0].id,
{
    let rest = s.subrange(1, s.len() as int);
    let kept = without(rest, id);
    let result = after_focus(s, id, now);
    lemma_without(rest, id);
    assert forall|k: int| 0 <= k < result.len() implies (#[trigger] result[k]).id != s[0].id by {
        if k > 0 {
            assert(result[k] == kept[k - 1]);
            let m = choose|m: int| 0 <= m < rest.len() && rest[m] == kept[k - 1];
            assert(rest[m] == s[m + 1]);
        }
    }
}

/// A front window that held focus long enough stays, unchanged, right behind
/// the window that gains focus after it.
pub proof fn lemma_settled_front_kept(s: Seq<Window>, id: i64, now: u64)
    requires
        s.len() > 0,
        !s[0].just_switched,
        !s[0].held_briefly(now),
        s[0].id != id,
    ensures
        after_focus(s, id, now).len() >= 2,
        after_focus(s, id, now)[1] == s[0],
{
    lemma_without_keeps_front(s, id);
}

/// Switching back and forth between the two most recent windows never drops
/// either: once the front is marked, a focus notification for the second
/// window swaps the two, however briefly the front had focus, and leaves the
/// rest of the history as it was.
pub proof fn lemma_toggle(s: Seq<Window>, now: u64)
    requires
        well_formed(s),
        s.len() >= 2,
    ensures
        after_focus(after_mark(s), s[1].id, now) == seq![
            Window { id: s[1].id, focused_at: now, just_switched: false },
            s[0].with_pending(false),
        ] + s.subrange(2, s.len() as int),
{
    let id = s[1].id;
    let keep = |w: Window| w.id != id;
    let front = s[0].with_pending(false);
    let head = seq![front, s[1]];
    let tail = s.subrange(2, s.len() as int);
    let settled = settle(after_mark(s), now);
    assert(settled =~= head + tail);
    assert(without(settled, id) =~= seq![front] + tail) by {
        Seq::filter_distributes_over_add(head, tail, keep);
        assert(head.filter(keep) =~= seq![front]) by {
            reveal(Seq::filter);
            assert(head =~= Seq::<Window>::empty().push(front).push(s[1]));
            Seq::<Window>::empty().lemma_filter_push(front, keep);
            Seq::<Window>::empty().push(front).lemma_filter_push(s[1], keep);
        }
        lemma_without_absent(tail, id);
    }
    assert(after_focus(after_mark(s), id, now) =~= seq![
        Window { id, focused_at: now, just_switched: false },
        front,
    ] + tail);
}

} // verus!
