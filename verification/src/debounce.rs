//! The change watcher's debounce model: bursts of filesystem events within
//! the debounce window coalesce into a single notification.  The watcher
//! registration and the listener loop are I/O and run outside this crate;
//! they feed event times into this state machine and deliver a notification
//! whenever a poll fires.

use vstd::prelude::*;

verus! {

/// The debouncer: after the first event of a burst, a notification becomes
/// due one window later; further events before it is delivered are absorbed.
pub struct DebounceState {
    /// The debounce window, in milliseconds.
    pub window: u64,
    /// A notification is due.
    pub pending: bool,
    /// When the pending notification fires.
    pub deadline: u64,
}

/// An event at time `now`: starts a burst when none is pending, and is
/// absorbed otherwise.
pub open spec fn spec_note_event(st: DebounceState, now: u64) -> DebounceState {
    if st.pending {
        st
    } else {
        DebounceState { window: st.window, pending: true, deadline: (now + st.window) as u64 }
    }
}

/// A poll at time `now`: fires exactly when a notification is pending and
/// its deadline has passed, and then clears it.
pub open spec fn spec_poll(st: DebounceState, now: u64) -> (bool, DebounceState) {
    if st.pending && now >= st.deadline {
        (true, DebounceState { window: st.window, pending: false, deadline: st.deadline })
    } else {
        (false, st)
    }
}

/// The state after a sequence of events, in order.
pub open spec fn spec_run_events(st: DebounceState, times: Seq<u64>) -> DebounceState
    decreases times.len(),
{
    if times.len() == 0 {
        st
    } else {
        spec_run_events(spec_note_event(st, times[0]), times.drop_first())
    }
}

impl DebounceState {
    /// A quiet debouncer with the given window.
    pub fn new(window: u64) -> (r: DebounceState)
        ensures
            r.window == window,
            !r.pending,
            r.deadline == 0,
    {
        DebounceState { window, pending: false, deadline: 0 }
    }

    /// Record a filesystem event observed at time `now`.
    pub fn note_event(&mut self, now: u64)
        requires
            old(self).pending || now + old(self).window <= u64::MAX,
        ensures
            *final(self) == spec_note_event(*old(self), now),
    {
        if !self.pending {
            self.deadline = now + self.window;
            self.pending = true;
        }
    }

    /// Deliver the pending notification once its window has elapsed.
    pub fn poll(&mut self, now: u64) -> (fire: bool)
        ensures
            fire == spec_poll(*old(self), now).0,
            *final(self) == spec_poll(*old(self), now).1,
    {
        if self.pending && now >= self.deadline {
            self.pending = false;
            true
        } else {
            false
        }
    }
}

/// Did a delivered batch contain any actual change?
pub fn should_notify(changes: &Vec<bool>) -> (r: bool)
    ensures
        r == exists|i: int| 0 <= i < changes@.len() && changes@[i],
{
    let mut i: usize = 0;
    while i < changes.len()
        invariant
            i <= changes@.len(),
            forall|j: int| 0 <= j < i ==> !changes@[j],
        decreases changes@.len() - i,
    {
        if changes[i] {
            return true;
        }
        i += 1;
    }
    false
}

/// Once a notification is pending, further events change nothing.
pub proof fn lemma_run_pending_identity(st: DebounceState, times: Seq<u64>)
    requires
        st.pending,
    ensures
        spec_run_events(st, times) == st,
    decreases times.len(),
{
    if times.len() > 0 {
        lemma_run_pending_identity(st, times.drop_first());
    }
}

/// A burst of events starting from a quiet debouncer leaves exactly one
/// notification pending, due one window after the burst's first event —
/// however many events follow, and whenever they arrive.
pub proof fn lemma_burst_sets_single_deadline(st: DebounceState, times: Seq<u64>)
    requires
        !st.pending,
        times.len() > 0,
        times[0] + st.window <= u64::MAX,
    ensures
        spec_run_events(st, times).pending,
        spec_run_events(st, times).deadline == times[0] + st.window,
        spec_run_events(st, times).window == st.window,
{
    let st1 = spec_note_event(st, times[0]);
    lemma_run_pending_identity(st1, times.drop_first());
}

/// Rapid-fire events within the debounce window produce exactly one
/// notification: no poll before the deadline fires or disturbs the state,
/// the first poll at or after it fires, and with no further events no later
/// poll fires again.
pub proof fn lemma_burst_coalesces_to_one(
    st: DebounceState,
    times: Seq<u64>,
    t_early: u64,
    t_fire: u64,
    t_late: u64,
)
    requires
        !st.pending,
        times.len() > 0,
        times[0] + st.window <= u64::MAX,
        t_early < times[0] + st.window,
        t_fire >= times[0] + st.window,
        t_late >= t_fire,
    ensures
        ({
            let burst = spec_run_events(st, times);
            &&& !spec_poll(burst, t_early).0
            &&& spec_poll(burst, t_early).1 == burst
            &&& spec_poll(burst, t_fire).0
            &&& !spec_poll(spec_poll(burst, t_fire).1, t_late).0
        }),
{
    lemma_burst_sets_single_deadline(st, times);
}

} // verus!
