//! The recompilation driver's decisions: debouncing change bursts and
//! publishing a freshly built index.
//!
//! The filesystem watch itself is an outside collaborator; what is decided
//! here is pure: how many recompilations a sequence of change timestamps
//! yields, and that a failed pass leaves the published index intact.

use vstd::prelude::*;

use crate::error::CompileError;
use crate::state::ParseState;

verus! {

/// The first position at or after `i` whose event falls past `limit`, or
/// the length of `s`.
pub open spec fn past_window(s: Seq<u64>, limit: int, i: int) -> int
    decreases s.len() - i when 0 <= i <= s.len()
{
    if i >= s.len() {
        i
    } else if s[i] as int > limit {
        i
    } else {
        past_window(s, limit, i + 1)
    }
}

/// `past_window` stays within bounds, passes only events inside the
/// window, and stops on the first event past it.
pub proof fn lemma_past_window_props(s: Seq<u64>, limit: int, i: int)
    requires
        0 <= i <= s.len(),
    ensures
        i <= past_window(s, limit, i) <= s.len(),
        forall|k: int| i <= k < past_window(s, limit, i) ==> s[k] as int <= limit,
        past_window(s, limit, i) < s.len() ==> s[past_window(s, limit, i)] as int > limit,
    decreases s.len() - i,
{
    if i < s.len() && s[i] as int <= limit {
        lemma_past_window_props(s, limit, i + 1);
    }
}

/// `past_window` is the unique boundary of an in-window stretch.
proof fn lemma_past_window_unique(s: Seq<u64>, limit: int, i: int, j: int)
    requires
        0 <= i <= j <= s.len(),
        forall|k: int| i <= k < j ==> s[k] as int <= limit,
        j == s.len() || s[j] as int > limit,
    ensures
        past_window(s, limit, i) == j,
    decreases j - i,
{
    if i < j {
        lemma_past_window_unique(s, limit, i + 1, j);
    }
}

/// How many recompilations the events from position `i` on yield: the
/// event at `i` opens a batch; every further event inside its window
/// coalesces into it; the first event past the window opens the next.
pub open spec fn batches_from(s: Seq<u64>, window: u64, i: int) -> nat
    decreases s.len() - i when 0 <= i <= s.len() via batches_from_dec
{
    if i >= s.len() {
        0
    } else {
        1 + batches_from(s, window, past_window(s, s[i] as int + window as int, i + 1))
    }
}

#[via_fn]
proof fn batches_from_dec(s: Seq<u64>, window: u64, i: int) {
    if 0 <= i < s.len() {
        lemma_past_window_props(s, s[i] as int + window as int, i + 1);
    }
}

/// The events come in time order.
pub open spec fn sorted_events(s: Seq<u64>) -> bool {
    forall|p: int, q: int| 0 <= p <= q < s.len() ==> s[p] <= s[q]
}

/// Debounces filesystem change events: a burst of writes becomes few
/// recompilations.
#[derive(Debug, Clone, Copy)]
pub struct Debouncer {
    /// How long after a batch's first event further events coalesce into
    /// it, in milliseconds.
    pub window_ms: u64,
}

impl Debouncer {
    /// How many recompilations a time-ordered sequence of change events
    /// triggers.
    pub fn coalesce(&self, events: &Vec<u64>) -> (r: usize)
        requires
            sorted_events(events@),
        ensures
            r == batches_from(events@, self.window_ms, 0),
    {
        let n = events.len();
        let w = self.window_ms;
        let mut count: usize = 0;
        let mut i: usize = 0;
        while i < n
            invariant
                0 <= i <= n,
                n == events@.len(),
                w == self.window_ms,
                sorted_events(events@),
                count <= i,
                count + batches_from(events@, w, i as int) == batches_from(events@, w, 0),
            decreases n - i,
        {
            let t0 = events[i];
            let mut j: usize = i + 1;
            while j < n && events[j] - t0 <= w
                invariant
                    i + 1 <= j <= n,
                    n == events@.len(),
                    t0 == events@[i as int],
                    sorted_events(events@),
                    forall|k: int| i + 1 <= k < j ==> events@[k] as int <= t0 as int + w as int,
                decreases n - j,
            {
                j = j + 1;
            }
            proof {
                if j < n {
                    assert(events@[j as int] >= t0);
                    assert(events@[j as int] as int > t0 as int + w as int);
                }
                lemma_past_window_unique(events@, t0 as int + w as int, i as int + 1, j as int);
            }
            count = count + 1;
            i = j;
        }
        count
    }
}

/// Law: two (or more) change events that all fall inside the first
/// event's debounce window trigger exactly one recompilation.
pub proof fn lemma_burst_single_trigger(events: Seq<u64>, window: u64)
    requires
        events.len() >= 1,
        forall|k: int|
            0 <= k < events.len() ==> (#[trigger] events[k]) as int <= events[0] as int
                + window as int,
    ensures
        batches_from(events, window, 0) == 1,
{
    lemma_past_window_unique(events, events[0] as int + window as int, 1, events.len() as int);
    assert(batches_from(events, window, events.len() as int) == 0);
}

/// Holds the currently published content index and swaps in the outcome
/// of a compilation pass.
pub struct Recompiler {
    /// The index readers currently see.
    pub published: ParseState,
}

impl Recompiler {
    /// Starts with an initial index.
    pub fn new(initial: ParseState) -> (r: Recompiler)
        ensures
            r.published == initial,
    {
        Recompiler { published: initial }
    }

    /// Takes a pass's outcome. A successful pass replaces the published
    /// index as one atomic swap; a failed pass leaves the published index
    /// exactly as it was and hands the error back to be reported — the
    /// watch loop goes on listening either way.
    pub fn publish(&mut self, outcome: Result<ParseState, CompileError>) -> (r: Option<
        CompileError,
    >)
        ensures
            outcome matches Ok(s) ==> final(self).published == s && r is None,
            outcome matches Err(e) ==> final(self).published == old(self).published && r == Some(
                e,
            ),
    {
        match outcome {
            Ok(s) => {
                self.published = s;
                None
            },
            Err(e) => Some(e),
        }
    }
}

} // verus!
