//! The two history lists: most recent first, and never longer than their
//! cap.

use vstd::prelude::*;
use crate::types::{PlanHistoryEntry, QueryHistoryEntry};

verus! {

/// The most entries that the query history keeps.
pub const QUERY_HISTORY_CAP: usize = 100;

/// The most entries that the plan history keeps.
pub const PLAN_HISTORY_CAP: usize = 50;

/// `history` with `entry` put in front, cut down to its first `cap`
/// entries.
pub open spec fn capped<T>(entry: T, history: Seq<T>, cap: nat) -> Seq<T> {
    let all = seq![entry] + history;
    if all.len() > cap {
        all.take(cap as int)
    } else {
        all
    }
}

/// A capped list holds one entry more than before, up to the cap; it
/// starts with the new entry where the cap is not zero, and goes on with
/// the old entries in their order, so that what is dropped is the oldest.
pub proof fn lemma_capped<T>(entry: T, history: Seq<T>, cap: nat)
    ensures
        capped(entry, history, cap).len() == if history.len() + 1 <= cap {
            history.len() + 1
        } else {
            cap
        },
        cap > 0 ==> capped(entry, history, cap)[0] == entry,
        forall|i: int|
            0 < i < capped(entry, history, cap).len() ==> capped(entry, history, cap)[i]
                == history[i - 1],
{
}

/// Once a list is full, it stays exactly full under every insertion.
pub proof fn lemma_capped_stays_full<T>(entry: T, history: Seq<T>, cap: nat)
    requires
        history.len() >= cap,
    ensures
        capped(entry, history, cap).len() == cap,
{
    lemma_capped(entry, history, cap);
}

/// Puts `entry` in front of `history` and drops what lies beyond `cap`.
pub fn insert_capped<T>(history: &mut Vec<T>, entry: T, cap: usize)
    ensures
        final(history)@ == capped(entry, old(history)@, cap as nat),
{
    history.insert(0, entry);
    assert(history@ =~= seq![entry] + old(history)@);
    if history.len() > cap {
        history.truncate(cap);
    }
}

/// Records an executed statement: it becomes the first entry, and the
/// history keeps its hundred most recent.
pub fn save_query_history_entry(history: &mut Vec<QueryHistoryEntry>, entry: QueryHistoryEntry)
    ensures
        final(history)@ == capped(entry, old(history)@, QUERY_HISTORY_CAP as nat),
{
    insert_capped(history, entry, QUERY_HISTORY_CAP);
}

/// Records a captured plan: it becomes the first entry, and the history
/// keeps its fifty most recent.
pub fn save_plan_history_entry(history: &mut Vec<PlanHistoryEntry>, entry: PlanHistoryEntry)
    ensures
        final(history)@ == capped(entry, old(history)@, PLAN_HISTORY_CAP as nat),
{
    insert_capped(history, entry, PLAN_HISTORY_CAP);
}

} // verus!
