//! The per-user trade history index: an append-only log of
//! `(user, trade identifier)` pairs.  A user's history is the
//! subsequence of identifiers logged under that user, oldest first.

use vstd::prelude::*;

use crate::types::AccountId;
use crate::types::TradeId;

verus! {

/// One line of the history log: a trade recorded for a user.
#[derive(Clone, Copy, PartialEq, Eq, Debug)]
pub struct TradeHistoryEntry {
    pub user: AccountId,
    pub trade_id: TradeId,
}

/// The trade identifiers logged under `u`, in log order.
pub open spec fn ids_for(s: Seq<TradeHistoryEntry>, u: AccountId) -> Seq<TradeId>
    decreases s.len(),
{
    if s.len() == 0 {
        Seq::empty()
    } else if s.last().user == u {
        ids_for(s.drop_last(), u) + seq![s.last().trade_id]
    } else {
        ids_for(s.drop_last(), u)
    }
}

/// Extending the log by one line extends exactly that line's user.
proof fn lemma_ids_for_push(s: Seq<TradeHistoryEntry>, e: TradeHistoryEntry, u: AccountId)
    ensures
        e.user == u ==> ids_for(s.push(e), u) == ids_for(s, u).push(e.trade_id),
        e.user != u ==> ids_for(s.push(e), u) == ids_for(s, u),
{
    assert(s.push(e).last() == e);
    assert(s.push(e).drop_last() =~= s);
    if e.user == u {
        assert(ids_for(s, u) + seq![e.trade_id] =~= ids_for(s, u).push(e.trade_id));
    }
}

/// One step of reading the log from the front.
proof fn lemma_ids_for_prefix_step(s: Seq<TradeHistoryEntry>, u: AccountId, i: int)
    requires
        0 <= i < s.len(),
    ensures
        s[i].user == u ==> ids_for(s.subrange(0, i + 1), u) == ids_for(s.subrange(0, i), u).push(
            s[i].trade_id,
        ),
        s[i].user != u ==> ids_for(s.subrange(0, i + 1), u) == ids_for(s.subrange(0, i), u),
{
    let p = s.subrange(0, i + 1);
    assert(p =~= s.subrange(0, i).push(s[i]));
    lemma_ids_for_push(s.subrange(0, i), s[i], u);
}

/// The append-only history index.
pub struct TradeHistory {
    pub log: Vec<TradeHistoryEntry>,
}

impl TradeHistory {
    /// The trade identifiers of `u`, oldest first.
    pub open spec fn ids(self, u: AccountId) -> Seq<TradeId> {
        ids_for(self.log@, u)
    }

    /// An empty index: every user's history is empty.
    pub fn new() -> (r: TradeHistory)
        ensures
            forall|u: AccountId| #[trigger] r.ids(u) == Seq::<TradeId>::empty(),
    {
        let r = TradeHistory { log: Vec::new() };
        assert(forall|u: AccountId| #[trigger] r.ids(u) == Seq::<TradeId>::empty());
        r
    }

    /// Record `trade_id` as the newest trade of `user`.
    pub fn append(&mut self, user: AccountId, trade_id: TradeId)
        ensures
            final(self).ids(user) == old(self).ids(user).push(trade_id),
            forall|u2: AccountId|
                u2 != user ==> #[trigger] final(self).ids(u2) == old(self).ids(u2),
    {
        let entry = TradeHistoryEntry { user: user, trade_id: trade_id };
        self.log.push(entry);
        proof {
            assert forall|u2: AccountId| #![all_triggers] true implies ids_for(
                self.log@,
                u2,
            ) == if u2 == user {
                ids_for(old(self).log@, u2).push(trade_id)
            } else {
                ids_for(old(self).log@, u2)
            } by {
                lemma_ids_for_push(old(self).log@, entry, u2);
            }
        }
    }

    /// All trade identifiers of `user`, oldest first.
    #[verifier::loop_isolation(false)]
    pub fn user_trades(&self, user: AccountId) -> (r: Vec<TradeId>)
        ensures
            r@ == self.ids(user),
    {
        let mut out: Vec<TradeId> = Vec::new();
        let mut i: usize = 0;
        while i < self.log.len()
            invariant
                0 <= i <= self.log.len(),
                out@ == ids_for(self.log@.subrange(0, i as int), user),
            decreases self.log.len() - i,
        {
            let e = self.log[i];
            proof {
                lemma_ids_for_prefix_step(self.log@, user, i as int);
            }
            if e.user == user {
                out.push(e.trade_id);
            }
            i = i + 1;
        }
        proof {
            assert(self.log@.subrange(0, self.log@.len() as int) =~= self.log@);
        }
        out
    }
}

} // verus!
