//! The last few of many entries: enough to explain a failure, never an
//! unbounded log.
use std::collections::VecDeque;
use vstd::prelude::*;

verus! {

/// The last `limit` entries of a sequence.
pub open spec fn kept<T>(all: Seq<T>, limit: nat) -> Seq<T> {
    if all.len() <= limit {
        all
    } else {
        all.skip(all.len() - limit)
    }
}

/// Keeping the last entries after every addition is keeping the last of all.
pub proof fn keeping_as_one_goes_is_keeping_at_the_end<T>(all: Seq<T>, limit: nat, entry: T)
    requires
        limit > 0,
    ensures
        kept(kept(all, limit).push(entry), limit) == kept(all.push(entry), limit),
{
    assert(kept(kept(all, limit).push(entry), limit) =~= kept(all.push(entry), limit));
}

/// A history that holds at most `limit` entries and drops the oldest first.
#[derive(Debug)]
pub struct History<T> {
    pub limit: usize,
    pub entries: VecDeque<T>,
}

impl<T> View for History<T> {
    type V = Seq<T>;

    open spec fn view(&self) -> Seq<T> {
        self.entries@
    }
}

impl<T> History<T> {
    /// Whether the history holds no more than it may.
    pub open spec fn bounded(self) -> bool {
        0 < self.limit && self@.len() <= self.limit
    }

    /// An empty history.
    pub fn new(limit: usize) -> (history: History<T>)
        requires
            limit > 0,
        ensures
            history.bounded(),
            history.limit == limit,
            history@ == Seq::<T>::empty(),
    {
        History { limit, entries: VecDeque::new() }
    }

    /// Adds an entry, dropping the oldest one where the history is full.
    pub fn add(&mut self, entry: T)
        requires
            old(self).bounded(),
        ensures
            final(self).bounded(),
            final(self).limit == old(self).limit,
            final(self)@ == kept(old(self)@.push(entry), old(self).limit as nat),
    {
        if self.entries.len() == self.limit {
            self.entries.pop_front();
        }
        self.entries.push_back(entry);
        assert(self@ =~= kept(old(self)@.push(entry), old(self).limit as nat));
    }
}

/// The newest entry is always kept, the ones before it as far as there is room, in
/// order, and never more than the limit.
pub proof fn the_newest_entry_is_kept<T>(all: Seq<T>, entry: T, limit: nat)
    requires
        limit > 0,
    ensures
        ({
            let left = kept(all.push(entry), limit);
            &&& left.len() == (if all.len() < limit {
                all.len() + 1
            } else {
                limit
            })
            &&& left.last() == entry
            &&& forall|i: int|
                1 <= i <= left.len() ==> left[left.len() - i] == #[trigger] all.push(
                    entry,
                )[all.len() + 1 - i]
            &&& all.len() < limit ==> left == all.push(entry)
        }),
{
}

/// A history keeps a positive number of entries and never more than it may, and an
/// entry that is added to a bounded one leaves it bounded.
pub proof fn a_history_stays_within_its_limit<T>(history: History<T>, entry: T)
    ensures
        history.bounded() <==> history.limit >= 1 && history@.len() <= history.limit,
        history.bounded() ==> kept(history@.push(entry), history.limit as nat).len()
            <= history.limit,
{
}

} // verus!
