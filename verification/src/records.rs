//! The settlement record table: an append-only audit log keyed by
//! trade identifier.  A lookup returns the newest record written under
//! an identifier, so replaying a trade identifier overwrites what a
//! reader sees while every record stays in the log.

use vstd::prelude::*;

use crate::types::SettlementRecord;
use crate::types::TradeId;
use crate::types::trade_id_eq;

verus! {

/// The newest record written under `tid`, if any.
pub open spec fn rec_find(s: Seq<SettlementRecord>, tid: Seq<u8>) -> Option<SettlementRecord>
    decreases s.len(),
{
    if s.len() == 0 {
        None
    } else if s.last().trade_id@ == tid {
        Some(s.last())
    } else {
        rec_find(s.drop_last(), tid)
    }
}

/// The records that a list of trade identifiers resolves to, in
/// order; an identifier with no record is skipped.
pub open spec fn resolve_ids(s: Seq<SettlementRecord>, ids: Seq<TradeId>) -> Seq<SettlementRecord>
    decreases ids.len(),
{
    if ids.len() == 0 {
        Seq::empty()
    } else if rec_find(s, ids.last()@) is Some {
        resolve_ids(s, ids.drop_last()).push(rec_find(s, ids.last()@)->0)
    } else {
        resolve_ids(s, ids.drop_last())
    }
}

/// One step of a lookup walking the log from the front.
pub proof fn lemma_rec_find_prefix_step(s: Seq<SettlementRecord>, tid: Seq<u8>, i: int)
    requires
        0 <= i < s.len(),
    ensures
        s[i].trade_id@ == tid ==> rec_find(s.subrange(0, i + 1), tid) == Some(s[i]),
        s[i].trade_id@ != tid ==> rec_find(s.subrange(0, i + 1), tid) == rec_find(
            s.subrange(0, i),
            tid,
        ),
{
    let p = s.subrange(0, i + 1);
    assert(p.last() == s[i]);
    assert(p.drop_last() =~= s.subrange(0, i));
}

/// One step of resolving a list of identifiers from the front.
pub proof fn lemma_resolve_prefix_step(s: Seq<SettlementRecord>, ids: Seq<TradeId>, i: int)
    requires
        0 <= i < ids.len(),
    ensures
        rec_find(s, ids[i]@) is Some ==> resolve_ids(s, ids.subrange(0, i + 1)) == resolve_ids(
            s,
            ids.subrange(0, i),
        ).push(rec_find(s, ids[i]@)->0),
        rec_find(s, ids[i]@) is None ==> resolve_ids(s, ids.subrange(0, i + 1)) == resolve_ids(
            s,
            ids.subrange(0, i),
        ),
{
    let p = ids.subrange(0, i + 1);
    assert(p.last() == ids[i]);
    assert(p.drop_last() =~= ids.subrange(0, i));
}

/// When every identifier resolves, resolution is a one-for-one map:
/// position `k` of the result is the record of position `k` of the
/// identifiers.
pub proof fn lemma_resolve_all_present(s: Seq<SettlementRecord>, ids: Seq<TradeId>)
    requires
        forall|j: int| 0 <= j < ids.len() ==> (#[trigger] rec_find(s, ids[j]@)) is Some,
    ensures
        resolve_ids(s, ids).len() == ids.len(),
        forall|k: int|
            0 <= k < ids.len() ==> #[trigger] resolve_ids(s, ids)[k] == rec_find(s, ids[k]@)->0,
    decreases ids.len(),
{
    if ids.len() > 0 {
        assert(ids.last() == ids[ids.len() - 1]);
        assert(forall|j: int|
            0 <= j < ids.drop_last().len() ==> (#[trigger] rec_find(
                s,
                ids.drop_last()[j]@,
            )) is Some);
        lemma_resolve_all_present(s, ids.drop_last());
        assert(forall|k: int|
            0 <= k < ids.len() - 1 ==> #[trigger] resolve_ids(s, ids)[k] == resolve_ids(
                s,
                ids.drop_last(),
            )[k]);
        assert(forall|k: int| 0 <= k < ids.len() - 1 ==> ids.drop_last()[k] == ids[k]);
    }
}

/// The append-only settlement record table.
pub struct SettlementRecords {
    pub log: Vec<SettlementRecord>,
}

impl SettlementRecords {
    /// The record a trade identifier resolves to: the newest one
    /// written under it.
    pub open spec fn lookup(self, tid: Seq<u8>) -> Option<SettlementRecord> {
        rec_find(self.log@, tid)
    }

    /// An empty table: nothing resolves.
    pub fn new() -> (r: SettlementRecords)
        ensures
            forall|t: Seq<u8>| #[trigger] r.lookup(t) is None,
    {
        let r = SettlementRecords { log: Vec::new() };
        assert(forall|t: Seq<u8>| #[trigger] r.lookup(t) is None);
        r
    }

    /// Append `record`; it becomes what its trade identifier resolves
    /// to, and every other identifier resolves as before.
    pub fn append(&mut self, record: SettlementRecord)
        ensures
            final(self).lookup(record.trade_id@) == Some(record),
            forall|t: Seq<u8>|
                t != record.trade_id@ ==> #[trigger] final(self).lookup(t) == old(self).lookup(t),
    {
        self.log.push(record);
        proof {
            assert(self.log@.last() == record);
            assert(self.log@.drop_last() =~= old(self).log@);
        }
    }

    /// Exact-key lookup of a settlement record; absent is `None`, not
    /// an error.
    #[verifier::loop_isolation(false)]
    pub fn get_settlement(&self, trade_id: &TradeId) -> (r: Option<SettlementRecord>)
        ensures
            r == self.lookup(trade_id@),
    {
        let mut found: Option<SettlementRecord> = None;
        let mut i: usize = 0;
        while i < self.log.len()
            invariant
                0 <= i <= self.log.len(),
                found == rec_find(self.log@.subrange(0, i as int), trade_id@),
            decreases self.log.len() - i,
        {
            proof {
                lemma_rec_find_prefix_step(self.log@, trade_id@, i as int);
            }
            if trade_id_eq(&self.log[i].trade_id, trade_id) {
                found = Some(self.log[i]);
            }
            i = i + 1;
        }
        proof {
            assert(self.log@.subrange(0, self.log@.len() as int) =~= self.log@);
        }
        found
    }
}

} // verus!
