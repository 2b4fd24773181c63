//! The vault's global guarantees, stated and proved once over the
//! specification functions that the operations' contracts use.

use vstd::prelude::*;

use crate::records::lemma_resolve_all_present;
use crate::records::rec_find;
use crate::types::AccountId;
use crate::types::AssetId;
use crate::types::SettlementInstruction;
use crate::types::SettlementRecord;
use crate::vault::SettlementContract;
use crate::vault::post_settlement_balance;
use crate::vault::recent_ids;

verus! {

/// Conservation of value.  A successful settlement between three
/// distinct parties in two distinct assets moves value around but
/// creates and destroys none: per asset, the buyer's, seller's and
/// admin's balances sum to the same total after as before, every
/// other balance is untouched, and what the buyer and seller lose
/// beyond the principal is exactly the fee the admin gains.
pub proof fn lemma_settlement_conservation(v: SettlementContract, i: SettlementInstruction)
    requires
        i.amounts_valid(),
        i.buy_user != i.sell_user,
        i.buy_user != v.admin,
        i.sell_user != v.admin,
        i.base_asset != i.quote_asset,
    ensures
        post_settlement_balance(v, i, i.buy_user, i.base_asset) + post_settlement_balance(
            v,
            i,
            i.sell_user,
            i.base_asset,
        ) + post_settlement_balance(v, i, v.admin, i.base_asset) == v.bal(i.buy_user, i.base_asset)
            + v.bal(i.sell_user, i.base_asset) + v.bal(v.admin, i.base_asset),
        post_settlement_balance(v, i, i.buy_user, i.quote_asset) + post_settlement_balance(
            v,
            i,
            i.sell_user,
            i.quote_asset,
        ) + post_settlement_balance(v, i, v.admin, i.quote_asset) == v.bal(
            i.buy_user,
            i.quote_asset,
        ) + v.bal(i.sell_user, i.quote_asset) + v.bal(v.admin, i.quote_asset),
        post_settlement_balance(v, i, i.buy_user, i.base_asset) + post_settlement_balance(
            v,
            i,
            i.sell_user,
            i.base_asset,
        ) == v.bal(i.buy_user, i.base_asset) + v.bal(i.sell_user, i.base_asset) - i.fee_base,
        post_settlement_balance(v, i, i.buy_user, i.quote_asset) + post_settlement_balance(
            v,
            i,
            i.sell_user,
            i.quote_asset,
        ) == v.bal(i.buy_user, i.quote_asset) + v.bal(i.sell_user, i.quote_asset) - i.fee_quote,
        forall|u: AccountId, a: AssetId|
            (u != i.buy_user && u != i.sell_user && u != v.admin) || (a != i.base_asset && a
                != i.quote_asset) ==> #[trigger] post_settlement_balance(v, i, u, a) == v.bal(u, a),
{
}

/// Non-negativity.  A well-formed vault holds no negative balance,
/// for any account and any asset; since every operation's contract
/// preserves well-formedness, no sequence of deposits, withdrawals
/// and settlements can ever drive a balance below zero.
pub proof fn lemma_no_negative_balances(v: SettlementContract, user: AccountId, asset: AssetId)
    requires
        v.wf(),
    ensures
        v.bal(user, asset) >= 0,
{
    v.balances.lemma_bal_nonneg(user, asset);
}

/// Idempotent reads.  The query operations take the vault by shared
/// reference and their contracts pin each result to a function of the
/// state alone, so two reads with no intervening write return
/// identical results.  The parameters stand for the results of two
/// calls of `get_balance`, `get_settlement` and `get_trade_history`,
/// constrained by exactly what those contracts guarantee.
pub proof fn lemma_reads_idempotent(
    v: SettlementContract,
    user: AccountId,
    asset: AssetId,
    tid: Seq<u8>,
    limit: u32,
    bal_first: i128,
    bal_second: i128,
    rec_first: Option<SettlementRecord>,
    rec_second: Option<SettlementRecord>,
    hist_first: Seq<SettlementRecord>,
    hist_second: Seq<SettlementRecord>,
)
    requires
        bal_first == v.bal(user, asset),
        bal_second == v.bal(user, asset),
        rec_first == v.record_of(tid),
        rec_second == v.record_of(tid),
        hist_first == v.trade_history_of(user, limit as int),
        hist_second == v.trade_history_of(user, limit as int),
    ensures
        bal_first == bal_second,
        rec_first == rec_second,
        hist_first == hist_second,
{
}

/// History window.  In a well-formed vault, the trade history
/// reported for a user with `n` recorded trades and a limit of `k`
/// holds exactly `min(n, k)` records: the most recent trades, in
/// chronological order, each position resolving the matching
/// position of the trailing window of the user's trade identifiers.
pub proof fn lemma_trade_history_window(v: SettlementContract, user: AccountId, limit: u32)
    requires
        v.wf(),
    ensures
        ({
            let ids = v.history_of(user);
            let win = recent_ids(ids, limit as int);
            let out = v.trade_history_of(user, limit as int);
            &&& win.len() == (if ids.len() <= limit { ids.len() as int } else { limit as int })
            &&& out.len() == win.len()
            &&& forall|k: int|
                0 <= k < win.len() ==> #[trigger] win[k] == ids[ids.len() - win.len() + k]
            &&& forall|k: int|
                0 <= k < win.len() ==> Some(#[trigger] out[k]) == v.record_of(win[k]@)
        }),
{
    let ids = v.history_of(user);
    let win = recent_ids(ids, limit as int);
    let off = ids.len() - win.len();
    assert forall|j: int| 0 <= j < win.len() implies (#[trigger] rec_find(
        v.records.log@,
        win[j]@,
    )) is Some by {
        assert(win[j] == ids[off + j]);
        assert(v.record_of(ids[off + j]@) is Some);
    }
    lemma_resolve_all_present(v.records.log@, win);
}

} // verus!
