use i3_alternate_focus::history::FocusHistory;
use i3_alternate_focus::window::Window;
use i3_alternate_focus::window::MAX_HISTORY;
use i3_alternate_focus::window::MIN_FOCUS_NANOS;

const SECOND: u64 = 1_000_000_000;
const A: i64 = 11;
const B: i64 = 22;
const C: i64 = 33;

fn entry(id: i64, focused_at: u64) -> Window {
    Window { id, focused_at, just_switched: false }
}

fn ids(h: &FocusHistory) -> Vec<i64> {
    h.snapshot().iter().map(|w| w.id).collect()
}

fn has_duplicate(ids: &[i64]) -> bool {
    let mut sorted = ids.to_vec();
    sorted.sort();
    sorted.windows(2).any(|pair| pair[0] == pair[1])
}

#[test]
fn new_window_records_id_and_time() {
    let w = Window::new(7, 3 * SECOND);
    assert_eq!(w, Window { id: 7, focused_at: 3 * SECOND, just_switched: false });
}

#[test]
fn min_focus_is_two_seconds() {
    assert_eq!(MIN_FOCUS_NANOS, 2 * SECOND);
    assert_eq!(MAX_HISTORY, 100);
}

#[test]
fn brief_focus_is_measured_from_focused_at() {
    let w = Window::new(A, 10 * SECOND);
    assert!(w.is_brief(10 * SECOND));
    assert!(w.is_brief(12 * SECOND - 1));
    assert!(!w.is_brief(12 * SECOND));
    assert!(!w.is_brief(u64::MAX));
}

#[test]
fn clock_reading_before_focus_counts_as_brief() {
    let w = Window::new(A, 10 * SECOND);
    assert!(w.is_brief(0));
    assert!(w.is_brief(10 * SECOND - 1));
}

#[test]
fn pending_sets_only_the_flag() {
    let w = Window::new(A, 5);
    assert_eq!(w.pending(true), Window { id: A, focused_at: 5, just_switched: true });
    assert_eq!(w.pending(true).pending(false), w);
}

#[test]
fn new_history_is_empty() {
    let h = FocusHistory::new();
    assert_eq!(h.len(), 0);
    assert!(h.is_empty());
    assert_eq!(h.snapshot(), Vec::<Window>::new());
    assert_eq!(h.get(0), None);
}

#[test]
fn seeded_history_holds_the_focused_window() {
    let h = FocusHistory::seeded(Some(A), 4 * SECOND);
    assert_eq!(h.snapshot(), vec![entry(A, 4 * SECOND)]);
    assert!(!h.is_empty());
}

#[test]
fn seeded_history_without_a_window_is_empty() {
    let h = FocusHistory::seeded(None, 4 * SECOND);
    assert!(h.is_empty());
}

#[test]
fn first_focus_event_starts_the_history() {
    let mut h = FocusHistory::new();
    h.on_focus(A, 0);
    assert_eq!(h.snapshot(), vec![entry(A, 0)]);
}

#[test]
fn debounce_eviction() {
    let mut h = FocusHistory::new();
    h.on_focus(A, 0);
    assert_eq!(h.snapshot(), vec![entry(A, 0)]);
    h.on_focus(B, SECOND);
    assert_eq!(h.snapshot(), vec![entry(B, SECOND)]);
}

#[test]
fn debounce_pass_through() {
    let mut h = FocusHistory::new();
    h.on_focus(A, 0);
    h.on_focus(B, 5 * SECOND);
    assert_eq!(h.snapshot(), vec![entry(B, 5 * SECOND), entry(A, 0)]);
}

#[test]
fn debounce_window_ends_at_exactly_two_seconds() {
    let mut kept = FocusHistory::new();
    kept.on_focus(A, 7);
    kept.on_focus(B, 7 + 2 * SECOND);
    assert_eq!(ids(&kept), vec![B, A]);

    let mut dropped = FocusHistory::new();
    dropped.on_focus(A, 7);
    dropped.on_focus(B, 7 + 2 * SECOND - 1);
    assert_eq!(ids(&dropped), vec![B]);
}

#[test]
fn toggle_suppression() {
    let mut h = FocusHistory::new();
    h.on_focus(B, 0);
    h.on_focus(A, 10 * SECOND);
    assert_eq!(ids(&h), vec![A, B]);

    h.mark_pending_switch();
    assert_eq!(
        h.snapshot(),
        vec![Window { id: A, focused_at: 10 * SECOND, just_switched: true }, entry(B, 0)]
    );

    h.on_focus(B, 10 * SECOND + SECOND / 10);
    assert_eq!(
        h.snapshot(),
        vec![entry(B, 10 * SECOND + SECOND / 10), entry(A, 10 * SECOND)]
    );
}

#[test]
fn rapid_toggling_never_drops_either_window() {
    let mut h = FocusHistory::new();
    h.on_focus(C, 0);
    h.on_focus(B, 10 * SECOND);
    h.on_focus(A, 20 * SECOND);
    let mut now = 20 * SECOND;
    for round in 0..20 {
        let target = h.get(1).unwrap().id;
        h.mark_pending_switch();
        now += 1_000_000;
        h.on_focus(target, now);
        let expected = if round % 2 == 0 { vec![B, A, C] } else { vec![A, B, C] };
        assert_eq!(ids(&h), expected);
        assert!(h.snapshot().iter().all(|w| !w.just_switched));
    }
}

#[test]
fn pending_mark_is_cleared_by_any_focus_event() {
    let mut h = FocusHistory::new();
    h.on_focus(B, 0);
    h.on_focus(A, 10 * SECOND);
    h.mark_pending_switch();
    h.on_focus(C, 10 * SECOND + 1);
    assert_eq!(
        h.snapshot(),
        vec![entry(C, 10 * SECOND + 1), entry(A, 10 * SECOND), entry(B, 0)]
    );
}

#[test]
fn pending_mark_protects_only_once() {
    let mut h = FocusHistory::new();
    h.on_focus(A, 0);
    h.mark_pending_switch();
    h.on_focus(B, 1);
    assert_eq!(ids(&h), vec![B, A]);
    h.on_focus(C, 2);
    assert_eq!(ids(&h), vec![C, A]);
}

#[test]
fn mark_on_empty_history_changes_nothing() {
    let mut h = FocusHistory::new();
    h.mark_pending_switch();
    assert!(h.is_empty());
}

#[test]
fn mark_touches_only_the_front() {
    let mut h = FocusHistory::new();
    h.on_focus(C, 0);
    h.on_focus(B, 10 * SECOND);
    h.on_focus(A, 20 * SECOND);
    h.mark_pending_switch();
    let flags: Vec<bool> = h.snapshot().iter().map(|w| w.just_switched).collect();
    assert_eq!(flags, vec![true, false, false]);
    h.mark_pending_switch();
    let again: Vec<bool> = h.snapshot().iter().map(|w| w.just_switched).collect();
    assert_eq!(again, vec![true, false, false]);
}

#[test]
fn refocus_promotes_instead_of_duplicating() {
    let mut h = FocusHistory::new();
    h.on_focus(A, 0);
    h.on_focus(B, 10 * SECOND);
    h.on_focus(C, 20 * SECOND);
    h.on_focus(A, 30 * SECOND);
    assert_eq!(
        h.snapshot(),
        vec![entry(A, 30 * SECOND), entry(C, 20 * SECOND), entry(B, 10 * SECOND)]
    );
}

#[test]
fn refocus_of_the_front_restamps_it() {
    let mut h = FocusHistory::new();
    h.on_focus(B, 0);
    h.on_focus(A, 10 * SECOND);
    h.on_focus(A, 10 * SECOND + 5);
    assert_eq!(h.snapshot(), vec![entry(A, 10 * SECOND + 5), entry(B, 0)]);
    h.on_focus(A, 20 * SECOND);
    assert_eq!(h.snapshot(), vec![entry(A, 20 * SECOND), entry(B, 0)]);
}

#[test]
fn brief_front_is_dropped_even_when_an_older_window_returns() {
    let mut h = FocusHistory::new();
    h.on_focus(A, 0);
    h.on_focus(B, 10 * SECOND);
    h.on_focus(A, 10 * SECOND + 1);
    assert_eq!(h.snapshot(), vec![entry(A, 10 * SECOND + 1)]);
}

#[test]
fn bounded_size() {
    let mut h = FocusHistory::new();
    for k in 0..250u64 {
        h.on_focus(k as i64, k * 3 * SECOND);
        assert!(h.len() <= MAX_HISTORY);
        assert_eq!(h.len(), std::cmp::min(k as usize + 1, MAX_HISTORY));
    }
    let expected: Vec<i64> = (150..250).rev().collect();
    assert_eq!(ids(&h), expected);
}

#[test]
fn oldest_entry_is_dropped_first() {
    let mut h = FocusHistory::new();
    for k in 0..100u64 {
        h.on_focus(k as i64, k * 3 * SECOND);
    }
    assert_eq!(h.get(99), Some(entry(0, 0)));
    h.on_focus(1000, 100 * 3 * SECOND);
    assert_eq!(h.len(), 100);
    assert_eq!(h.get(0), Some(entry(1000, 300 * SECOND)));
    assert_eq!(h.get(99), Some(entry(1, 3 * SECOND)));
    assert!(!ids(&h).contains(&0));
}

#[test]
fn full_history_keeps_its_size_when_a_window_returns() {
    let mut h = FocusHistory::new();
    for k in 0..100u64 {
        h.on_focus(k as i64, k * 3 * SECOND);
    }
    h.on_focus(0, 400 * SECOND);
    assert_eq!(h.len(), 100);
    assert_eq!(h.get(0), Some(entry(0, 400 * SECOND)));
    assert_eq!(h.get(99), Some(entry(1, 3 * SECOND)));
}

#[test]
fn uniqueness() {
    let mut h = FocusHistory::new();
    let mut now = 0u64;
    let mut seed = 12345u64;
    for step in 0..2000u64 {
        seed = seed.wrapping_mul(6364136223846793005).wrapping_add(1442695040888963407);
        let id = ((seed >> 33) % 130) as i64;
        now += (seed >> 20) % (4 * SECOND);
        if step % 7 == 3 {
            h.mark_pending_switch();
        }
        h.on_focus(id, now);
        let seen = ids(&h);
        assert!(!has_duplicate(&seen));
        assert!(seen.len() <= MAX_HISTORY);
        assert_eq!(seen[0], id);
        assert!(h.snapshot().iter().all(|w| !w.just_switched));
    }
}

#[test]
fn snapshot_leaves_the_history_alone() {
    let mut h = FocusHistory::new();
    h.on_focus(B, 0);
    h.on_focus(A, 10 * SECOND);
    h.mark_pending_switch();
    let first = h.snapshot();
    let second = h.snapshot();
    assert_eq!(first, second);
    assert_eq!(first[0], Window { id: A, focused_at: 10 * SECOND, just_switched: true });
    assert_eq!(h.len(), 2);
}

#[test]
fn get_counts_from_the_most_recent() {
    let mut h = FocusHistory::new();
    h.on_focus(B, 0);
    h.on_focus(A, 10 * SECOND);
    assert_eq!(h.get(0), Some(entry(A, 10 * SECOND)));
    assert_eq!(h.get(1), Some(entry(B, 0)));
    assert_eq!(h.get(2), None);
    assert_eq!(h.get(usize::MAX), None);
}
