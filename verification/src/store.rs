//! The clean history kept in the persistent store: at most the latest
//! thirty entries.

use vstd::prelude::*;

verus! {

/// How many history entries the store keeps.
pub const HISTORY_LIMIT: usize = 30;

/// The history after appending `entry`: the latest `HISTORY_LIMIT` entries
/// of the old history followed by the new one.
pub open spec fn spec_push_history<T>(hist: Seq<T>, entry: T) -> Seq<T> {
    let all = hist.push(entry);
    if all.len() > HISTORY_LIMIT {
        all.skip(all.len() - HISTORY_LIMIT)
    } else {
        all
    }
}

/// Appends an entry, dropping the oldest ones beyond the limit.
pub fn push_history<T>(hist: &mut Vec<T>, entry: T)
    ensures
        final(hist)@ == spec_push_history(old(hist)@, entry),
{
    hist.push(entry);
    let len = hist.len();
    if len > HISTORY_LIMIT {
        let extra = len - HISTORY_LIMIT;
        let mut kept: Vec<T> = Vec::new();
        let ghost all = hist@;
        while hist.len() > extra
            invariant
                extra <= hist.len() <= all.len(),
                hist@ == all.take(hist.len() as int),
                kept@ == all.subrange(hist.len() as int, all.len() as int).reverse(),
            decreases hist.len(),
        {
            let x = hist.pop().unwrap();
            kept.push(x);
            assert(hist@ =~= all.take(hist.len() as int));
            assert(kept@ =~= all.subrange(hist.len() as int, all.len() as int).reverse());
        }
        hist.clear();
        while kept.len() > 0
            invariant
                extra <= all.len(),
                kept@.len() + hist@.len() == all.len() - extra,
                hist@ == all.subrange(extra as int, extra + hist@.len()),
                kept@ == all.subrange(extra + hist@.len(), all.len() as int).reverse(),
            decreases kept.len(),
        {
            let x = kept.pop().unwrap();
            hist.push(x);
            assert(hist@ =~= all.subrange(extra as int, extra + hist@.len()));
            assert(kept@ =~= all.subrange(extra + hist@.len(), all.len() as int).reverse());
        }
        assert(hist@ =~= all.skip(extra as int));
    }
}

/// After an append the history holds at most `HISTORY_LIMIT` entries, the
/// newest last.
pub proof fn law_history_bounded<T>(hist: Seq<T>, entry: T)
    ensures
        spec_push_history(hist, entry).len() <= HISTORY_LIMIT,
        spec_push_history(hist, entry).last() == entry,
{
}

} // verus!
