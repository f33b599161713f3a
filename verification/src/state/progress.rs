//! The life cycle of one transfer as shown in the chat log.

use vstd::prelude::*;

verus! {

/// Progress of a transfer: `Started(total)`, then `Working(total, current)`,
/// then `Completed` once `current` has reached `total`.
#[derive(Clone, Copy, Debug, PartialEq, Eq, Structural)]
pub enum ProgressState {
    /// Nothing has been transferred yet; holds the total size.
    Started(u64),
    /// Total size and the amount transferred so far.
    Working(u64, u64),
    /// Everything has been transferred.
    Completed,
}

impl ProgressState {
    /// The state that follows `self` once `delta` more bytes were transferred.
    pub open spec fn advance(self, delta: u64) -> ProgressState {
        match self {
            ProgressState::Started(total) => if delta == total {
                ProgressState::Completed
            } else {
                ProgressState::Working(total, delta)
            },
            ProgressState::Working(total, current) => if current + delta == total {
                ProgressState::Completed
            } else {
                ProgressState::Working(total, (current + delta) as u64)
            },
            ProgressState::Completed => ProgressState::Completed,
        }
    }

    /// Whether the amount transferred still fits the counter after `delta` more bytes.
    pub open spec fn can_advance(self, delta: u64) -> bool {
        self matches ProgressState::Working(_, current) ==> current + delta <= u64::MAX
    }

    /// The state after a run of updates, applied in order.
    pub open spec fn advance_all(self, deltas: Seq<u64>) -> ProgressState
        decreases deltas.len(),
    {
        if deltas.len() == 0 {
            self
        } else {
            self.advance(deltas.first()).advance_all(deltas.drop_first())
        }
    }

    /// Tells whether [`Self::can_advance`] holds.
    pub fn check_advance(&self, delta: u64) -> (ok: bool)
        ensures
            ok == self.can_advance(delta),
    {
        match self {
            ProgressState::Working(_, current) => delta <= u64::MAX - *current,
            _ => true,
        }
    }

    /// Accounts for `delta` more transferred bytes.
    pub fn advanced(&self, delta: u64) -> (next: ProgressState)
        requires
            self.can_advance(delta),
        ensures
            next == self.advance(delta),
    {
        match self {
            ProgressState::Started(total) => {
                if delta == *total {
                    ProgressState::Completed
                } else {
                    ProgressState::Working(*total, delta)
                }
            },
            ProgressState::Working(total, current) => {
                let new_current: u64 = *current + delta;
                if new_current == *total {
                    ProgressState::Completed
                } else {
                    ProgressState::Working(*total, new_current)
                }
            },
            ProgressState::Completed => ProgressState::Completed,
        }
    }
}

/// Sum of a run of byte counts.
pub open spec fn sum_of(deltas: Seq<u64>) -> int
    decreases deltas.len(),
{
    if deltas.len() == 0 {
        0
    } else {
        deltas.first() + sum_of(deltas.drop_first())
    }
}

proof fn lemma_sum_nonnegative(deltas: Seq<u64>)
    ensures
        sum_of(deltas) >= 0,
    decreases deltas.len(),
{
    if deltas.len() > 0 {
        lemma_sum_nonnegative(deltas.drop_first());
    }
}

/// A completed transfer stays completed whatever updates follow.
pub proof fn lemma_completed_is_final(deltas: Seq<u64>)
    ensures
        ProgressState::Completed.advance_all(deltas) == ProgressState::Completed,
    decreases deltas.len(),
{
    if deltas.len() > 0 {
        lemma_completed_is_final(deltas.drop_first());
    }
}

proof fn lemma_working_reaches_total(total: u64, current: u64, deltas: Seq<u64>)
    requires
        deltas.len() > 0,
        current + sum_of(deltas) == total,
    ensures
        ProgressState::Working(total, current).advance_all(deltas) == ProgressState::Completed,
    decreases deltas.len(),
{
    let rest = deltas.drop_first();
    lemma_sum_nonnegative(rest);
    if current + deltas.first() == total {
        lemma_completed_is_final(rest);
    } else {
        assert(rest.len() > 0) by {
            if rest.len() == 0 {
                assert(sum_of(rest) == 0);
            }
        }
        lemma_working_reaches_total(total, (current + deltas.first()) as u64, rest);
    }
}

/// One or more updates whose byte counts add up to exactly `total` take a
/// transfer from `Started(total)` to `Completed`.
pub proof fn lemma_exact_total_completes(total: u64, deltas: Seq<u64>)
    requires
        deltas.len() > 0,
        sum_of(deltas) == total,
    ensures
        ProgressState::Started(total).advance_all(deltas) == ProgressState::Completed,
{
    let rest = deltas.drop_first();
    lemma_sum_nonnegative(rest);
    if deltas.first() == total {
        lemma_completed_is_final(rest);
    } else {
        assert(rest.len() > 0) by {
            if rest.len() == 0 {
                assert(sum_of(rest) == 0);
            }
        }
        lemma_working_reaches_total(total, deltas.first(), rest);
    }
}

/// While the byte counts add up to no more than `u64::MAX`, no update of the
/// run overflows the counter.
pub proof fn lemma_bounded_sum_can_advance(total: u64, deltas: Seq<u64>)
    requires
        deltas.len() > 0,
        sum_of(deltas) <= u64::MAX,
    ensures
        ProgressState::Started(total).advance_all(deltas.drop_last()).can_advance(deltas.last()),
{
    lemma_sum_split_last(deltas);
    lemma_prefix_amount(total, deltas.drop_last());
}

/// The amount a state has accounted for: what `Working` holds, else nothing.
pub open spec fn amount(s: ProgressState) -> int {
    match s {
        ProgressState::Working(_, current) => current as int,
        _ => 0,
    }
}

proof fn lemma_sum_split_last(deltas: Seq<u64>)
    requires
        deltas.len() > 0,
    ensures
        sum_of(deltas) == sum_of(deltas.drop_last()) + deltas.last(),
    decreases deltas.len(),
{
    if deltas.len() == 1 {
        assert(deltas.drop_last() =~= Seq::<u64>::empty());
        assert(deltas.drop_first() =~= Seq::<u64>::empty());
    } else {
        let rest = deltas.drop_first();
        lemma_sum_split_last(rest);
        assert(deltas.drop_last().drop_first() =~= rest.drop_last());
        assert(deltas.drop_last().first() == deltas.first());
    }
}

proof fn lemma_amount_bounded(s: ProgressState, deltas: Seq<u64>)
    requires
        amount(s) + sum_of(deltas) <= u64::MAX,
    ensures
        amount(s.advance_all(deltas)) <= amount(s) + sum_of(deltas),
    decreases deltas.len(),
{
    if deltas.len() > 0 {
        let rest = deltas.drop_first();
        lemma_sum_nonnegative(rest);
        lemma_amount_bounded(s.advance(deltas.first()), rest);
    }
}

proof fn lemma_prefix_amount(total: u64, deltas: Seq<u64>)
    requires
        sum_of(deltas) <= u64::MAX,
    ensures
        amount(ProgressState::Started(total).advance_all(deltas)) <= sum_of(deltas),
{
    lemma_amount_bounded(ProgressState::Started(total), deltas);
}

} // verus!
