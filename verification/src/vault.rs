//! The settlement vault: configuration, balance ledger, record table
//! and history index in one explicit state value, with every
//! operation's effect pinned down by its contract.
//!
//! Authorization is by verified caller identity: the host
//! authenticates a caller and passes its identity in, and the
//! operations compare it against the configured admin or matching
//! engine.  Every rejection is a typed error and leaves the state
//! byte-for-byte unchanged.

use vstd::prelude::*;

use crate::balances::Balances;
use crate::history::TradeHistory;
use crate::records::SettlementRecords;
use crate::records::lemma_resolve_prefix_step;
use crate::records::resolve_ids;
use crate::types::AccountId;
use crate::types::AssetId;
use crate::types::SettlementInstruction;
use crate::types::SettlementRecord;
use crate::types::SettlementResult;
use crate::types::TradeId;
use crate::types::VaultError;
use crate::types::record_of_instruction;

verus! {

/// Whether an amount is strictly positive, the sign rule that
/// deposits and withdrawals enforce.
pub fn check_positive_amount(amount: i128) -> (r: bool)
    ensures
        r == (amount > 0),
{
    amount > 0
}

/// The custodial settlement vault.
pub struct SettlementContract {
    /// Fee recipient, fixed at construction.
    pub admin: AccountId,
    /// First whitelisted asset, fixed at construction.
    pub asset_a: AssetId,
    /// Second whitelisted asset, fixed at construction.
    pub asset_b: AssetId,
    /// The identity authorized to settle trades, if configured.
    pub matching_engine: Option<AccountId>,
    /// The balance ledger.
    pub balances: Balances,
    /// The settlement record table.
    pub records: SettlementRecords,
    /// The per-user trade history index.
    pub history: TradeHistory,
}

impl SettlementContract {
    /// The balance of `user` in `asset`; zero when never touched.
    pub open spec fn bal(self, user: AccountId, asset: AssetId) -> i128 {
        self.balances.bal(user, asset)
    }

    /// The record a trade identifier resolves to.
    pub open spec fn record_of(self, tid: Seq<u8>) -> Option<SettlementRecord> {
        self.records.lookup(tid)
    }

    /// The trade identifiers of `user`, oldest first.
    pub open spec fn history_of(self, user: AccountId) -> Seq<TradeId> {
        self.history.ids(user)
    }

    /// Whether `asset` is one of the two whitelisted assets.
    pub open spec fn asset_supported(self, asset: AssetId) -> bool {
        asset == self.asset_a || asset == self.asset_b
    }

    /// Every identifier in any user's history resolves to a record.
    pub open spec fn histories_resolve(self) -> bool {
        forall|u: AccountId, j: int|
            0 <= j < self.history_of(u).len() ==> self.record_of(
                (#[trigger] self.history_of(u)[j])@,
            ) is Some
    }

    /// Vault well-formedness: the ledger holds one non-negative
    /// balance per key, and the history index never dangles.
    pub open spec fn wf(self) -> bool {
        &&& self.balances.wf()
        &&& self.histories_resolve()
    }

    /// The configuration (admin, whitelist, matching engine) of
    /// `self` and `other` agree.
    pub open spec fn same_config(self, other: SettlementContract) -> bool {
        &&& self.admin == other.admin
        &&& self.asset_a == other.asset_a
        &&& self.asset_b == other.asset_b
        &&& self.matching_engine == other.matching_engine
    }

    /// A step that touches neither the record table nor the history
    /// index keeps the history resolving.
    proof fn lemma_same_audit_preserves_resolve(a: SettlementContract, b: SettlementContract)
        requires
            a.histories_resolve(),
            b.history == a.history,
            b.records == a.records,
        ensures
            b.histories_resolve(),
    {
        assert forall|u: AccountId, j: int| 0 <= j < b.history_of(u).len() implies b.record_of(
            (#[trigger] b.history_of(u)[j])@,
        ) is Some by {
            assert(b.history_of(u) == a.history_of(u));
            assert(a.history_of(u)[j] == b.history_of(u)[j]);
            assert(a.record_of(a.history_of(u)[j]@) is Some);
        }
    }

    /// One-time setup: fixes the admin identity and the two
    /// whitelisted assets.  Everything starts empty.
    pub fn new(admin: AccountId, asset_a: AssetId, asset_b: AssetId) -> (r: SettlementContract)
        ensures
            r.wf(),
            r.admin == admin,
            r.asset_a == asset_a,
            r.asset_b == asset_b,
            r.matching_engine is None,
            forall|u: AccountId, a: AssetId| #[trigger] r.bal(u, a) == 0,
            forall|t: Seq<u8>| #[trigger] r.record_of(t) is None,
            forall|u: AccountId| #[trigger] r.history_of(u) == Seq::<TradeId>::empty(),
    {
        SettlementContract {
            admin: admin,
            asset_a: asset_a,
            asset_b: asset_b,
            matching_engine: None,
            balances: Balances::new(),
            records: SettlementRecords::new(),
            history: TradeHistory::new(),
        }
    }

    /// The fee recipient.
    pub fn get_admin(&self) -> (r: AccountId)
        ensures
            r == self.admin,
    {
        self.admin
    }

    /// The first whitelisted asset.
    pub fn get_asset_a(&self) -> (r: AssetId)
        ensures
            r == self.asset_a,
    {
        self.asset_a
    }

    /// The second whitelisted asset.
    pub fn get_asset_b(&self) -> (r: AssetId)
        ensures
            r == self.asset_b,
    {
        self.asset_b
    }

    /// The configured matching engine, if any.
    pub fn get_matching_engine(&self) -> (r: Option<AccountId>)
        ensures
            r == self.matching_engine,
    {
        self.matching_engine
    }

    /// Replace the identity authorized to settle trades.  Admin only:
    /// any other caller is rejected with nothing changed.
    pub fn set_matching_engine(&mut self, caller: AccountId, matching_engine: AccountId) -> (r:
        Result<(), VaultError>)
        requires
            old(self).wf(),
        ensures
            final(self).wf(),
            r is Ok <==> caller == old(self).admin,
            r is Ok ==> final(self).matching_engine == Some(matching_engine),
            r is Ok ==> final(self).admin == old(self).admin
                && final(self).asset_a == old(self).asset_a
                && final(self).asset_b == old(self).asset_b,
            r is Ok ==> final(self).balances == old(self).balances
                && final(self).records == old(self).records
                && final(self).history == old(self).history,
            r is Err ==> r == Result::<(), VaultError>::Err(VaultError::NotAuthorized)
                && *final(self) == *old(self),
    {
        if caller != self.admin {
            return Err(VaultError::NotAuthorized);
        }
        self.matching_engine = Some(matching_engine);
        proof {
            Self::lemma_same_audit_preserves_resolve(*old(self), *self);
        }
        Ok(())
    }

    /// The outcome `deposit` is obliged to return.
    pub open spec fn deposit_outcome(
        self,
        user: AccountId,
        asset: AssetId,
        amount: i128,
    ) -> Result<(), VaultError> {
        if amount <= 0 {
            Err(VaultError::InvalidAmount)
        } else if !self.asset_supported(asset) {
            Err(VaultError::UnsupportedAsset)
        } else if self.bal(user, asset) + amount > i128::MAX {
            Err(VaultError::BalanceOverflow)
        } else {
            Ok(())
        }
    }

    /// Credit `amount` of `asset` to `user`'s vault balance.
    ///
    /// The host must move the real funds into custody first and call
    /// this only after that transfer succeeded; on any error here the
    /// vault state is unchanged.
    pub fn deposit(&mut self, user: AccountId, asset: AssetId, amount: i128) -> (r: Result<
        (),
        VaultError,
    >)
        requires
            old(self).wf(),
        ensures
            final(self).wf(),
            r == old(self).deposit_outcome(user, asset, amount),
            r is Err ==> *final(self) == *old(self),
            r is Ok ==> final(self).bal(user, asset) == old(self).bal(user, asset) + amount,
            r is Ok ==> forall|u2: AccountId, a2: AssetId|
                !(u2 == user && a2 == asset)
                    ==> #[trigger] final(self).bal(u2, a2) == old(self).bal(u2, a2),
            final(self).same_config(*old(self)),
            final(self).records == old(self).records,
            final(self).history == old(self).history,
    {
        if !check_positive_amount(amount) {
            return Err(VaultError::InvalidAmount);
        }
        if !(asset == self.asset_a || asset == self.asset_b) {
            return Err(VaultError::UnsupportedAsset);
        }
        let r = self.balances.add_balance(user, asset, amount);
        proof {
            Self::lemma_same_audit_preserves_resolve(*old(self), *self);
        }
        match r {
            Ok(()) => Ok(()),
            Err(e) => Err(e),
        }
    }

    /// The outcome `withdraw` is obliged to return.
    pub open spec fn withdraw_outcome(
        self,
        user: AccountId,
        asset: AssetId,
        amount: i128,
    ) -> Result<(), VaultError> {
        if amount <= 0 {
            Err(VaultError::InvalidAmount)
        } else if self.bal(user, asset) < amount {
            Err(VaultError::InsufficientBalance)
        } else {
            Ok(())
        }
    }

    /// Debit `amount` of `asset` from `user`'s vault balance.
    ///
    /// The debit comes first; the host pays the user out only after
    /// it succeeded, so a failed payout must be compensated by the
    /// host (the deliberate debit-before-transfer asymmetry versus
    /// `deposit`).
    pub fn withdraw(&mut self, user: AccountId, asset: AssetId, amount: i128) -> (r: Result<
        (),
        VaultError,
    >)
        requires
            old(self).wf(),
        ensures
            final(self).wf(),
            r == old(self).withdraw_outcome(user, asset, amount),
            r is Err ==> *final(self) == *old(self),
            r is Ok ==> final(self).bal(user, asset) == old(self).bal(user, asset) - amount,
            r is Ok ==> forall|u2: AccountId, a2: AssetId|
                !(u2 == user && a2 == asset)
                    ==> #[trigger] final(self).bal(u2, a2) == old(self).bal(u2, a2),
            final(self).same_config(*old(self)),
            final(self).records == old(self).records,
            final(self).history == old(self).history,
    {
        if !check_positive_amount(amount) {
            return Err(VaultError::InvalidAmount);
        }
        let r = self.balances.subtract_balance(user, asset, amount);
        proof {
            Self::lemma_same_audit_preserves_resolve(*old(self), *self);
        }
        match r {
            Ok(()) => Ok(()),
            Err(e) => Err(e),
        }
    }

    /// The stored balance of `user` in `asset`; a pure read.
    pub fn get_balance(&self, user: AccountId, asset: AssetId) -> (r: i128)
        requires
            self.wf(),
        ensures
            r == self.bal(user, asset),
    {
        self.balances.get_balance(user, asset)
    }

    /// Store `amount` as the balance of `user` in `asset` directly,
    /// bypassing the deposit checks; the host uses this to restore a
    /// persisted ledger.
    pub fn set_balance(&mut self, user: AccountId, asset: AssetId, amount: i128)
        requires
            old(self).wf(),
            amount >= 0,
        ensures
            final(self).wf(),
            final(self).bal(user, asset) == amount,
            forall|u2: AccountId, a2: AssetId|
                !(u2 == user && a2 == asset)
                    ==> #[trigger] final(self).bal(u2, a2) == old(self).bal(u2, a2),
            final(self).same_config(*old(self)),
            final(self).records == old(self).records,
            final(self).history == old(self).history,
    {
        self.balances.set_balance(user, asset, amount);
        proof {
            Self::lemma_same_audit_preserves_resolve(*old(self), *self);
        }
    }

    /// Persist the record of `instruction` under its trade identifier
    /// and append the identifier to both parties' histories (once,
    /// when buyer and seller are the same account).
    ///
    /// Duplicate trade identifiers are not rejected: the new record
    /// becomes what the identifier resolves to.
    pub fn record_settlement(&mut self, instruction: &SettlementInstruction)
        requires
            old(self).wf(),
        ensures
            final(self).wf(),
            final(self).same_config(*old(self)),
            final(self).balances == old(self).balances,
            final(self).record_of(instruction.trade_id@) == Some(
                record_of_instruction(*instruction),
            ),
            forall|t: Seq<u8>|
                t != instruction.trade_id@
                    ==> #[trigger] final(self).record_of(t) == old(self).record_of(t),
            final(self).history_of(instruction.buy_user) == old(self).history_of(
                instruction.buy_user,
            ).push(instruction.trade_id),
            instruction.sell_user != instruction.buy_user ==> final(self).history_of(
                instruction.sell_user,
            ) == old(self).history_of(instruction.sell_user).push(instruction.trade_id),
            forall|u: AccountId|
                u != instruction.buy_user && u != instruction.sell_user
                    ==> #[trigger] final(self).history_of(u) == old(self).history_of(u),
    {
        let record = SettlementRecord {
            trade_id: instruction.trade_id,
            buy_user: instruction.buy_user,
            sell_user: instruction.sell_user,
            base_asset: instruction.base_asset,
            quote_asset: instruction.quote_asset,
            base_amount: instruction.base_amount,
            quote_amount: instruction.quote_amount,
            execution_price: None,
            execution_quantity: None,
            timestamp: instruction.timestamp,
        };
        self.records.append(record);
        self.history.append(instruction.buy_user, instruction.trade_id);
        if instruction.sell_user != instruction.buy_user {
            self.history.append(instruction.sell_user, instruction.trade_id);
        }
        proof {
            let a = *old(self);
            let b = *self;
            let tid = instruction.trade_id;
            assert forall|u: AccountId, j: int| 0 <= j < b.history_of(u).len() implies b.record_of(
                (#[trigger] b.history_of(u)[j])@,
            ) is Some by {
                let ids = b.history_of(u);
                let olds = a.history_of(u);
                if u == instruction.buy_user || u == instruction.sell_user {
                    assert(ids == olds.push(tid));
                    if j < olds.len() {
                        assert(ids[j] == olds[j]);
                        assert(a.record_of(olds[j]@) is Some);
                        if olds[j]@ != tid@ {
                            assert(b.record_of(ids[j]@) == a.record_of(olds[j]@));
                        }
                    } else {
                        assert(ids[j] == tid);
                    }
                } else {
                    assert(ids == olds);
                    assert(a.record_of(olds[j]@) is Some);
                    if olds[j]@ != tid@ {
                        assert(b.record_of(ids[j]@) == a.record_of(olds[j]@));
                    }
                }
            }
        }
    }

    /// Atomically settle one trade.
    ///
    /// The caller identity must be the configured matching engine.
    /// Every check runs against a staged copy of the ledger; the
    /// vault is written only once each step of the two-leg transfer
    /// and the fee routing is known to succeed, so any failure leaves
    /// the state byte-for-byte unchanged.
    pub fn settle_trade(&mut self, caller: AccountId, instruction: &SettlementInstruction) -> (r:
        Result<SettlementResult, VaultError>)
        requires
            old(self).wf(),
        ensures
            final(self).wf(),
            r == settle_outcome(*old(self), caller, *instruction),
            r != Ok::<SettlementResult, VaultError>(SettlementResult::Success) ==> *final(self)
                == *old(self),
            r == Ok::<SettlementResult, VaultError>(SettlementResult::Success) ==> {
                &&& forall|u: AccountId, a: AssetId| #[trigger]
                    final(self).bal(u, a) == post_settlement_balance(
                        *old(self),
                        *instruction,
                        u,
                        a,
                    )
                &&& final(self).record_of(instruction.trade_id@) == Some(
                    record_of_instruction(*instruction),
                )
                &&& forall|t: Seq<u8>|
                    t != instruction.trade_id@
                        ==> #[trigger] final(self).record_of(t) == old(self).record_of(t)
                &&& final(self).history_of(instruction.buy_user) == old(self).history_of(
                    instruction.buy_user,
                ).push(instruction.trade_id)
                &&& (instruction.sell_user != instruction.buy_user ==> final(self).history_of(
                    instruction.sell_user,
                ) == old(self).history_of(instruction.sell_user).push(instruction.trade_id))
                &&& forall|u: AccountId|
                    u != instruction.buy_user && u != instruction.sell_user
                        ==> #[trigger] final(self).history_of(u) == old(self).history_of(u)
                &&& final(self).same_config(*old(self))
            },
    {
        if instruction.base_amount < 0 || instruction.quote_amount < 0 || instruction.fee_base < 0
            || instruction.fee_quote < 0 {
            return Err(VaultError::InvalidAmount);
        }
        let base_ok = instruction.base_asset == self.asset_a || instruction.base_asset
            == self.asset_b;
        let quote_ok = instruction.quote_asset == self.asset_a || instruction.quote_asset
            == self.asset_b;
        if !base_ok || !quote_ok {
            return Ok(SettlementResult::InvalidMatchingProof);
        }
        let engine = match self.matching_engine {
            Some(e) => e,
            None => {
                return Err(VaultError::MatchingEngineNotSet);
            },
        };
        if caller != engine {
            return Err(VaultError::NotAuthorized);
        }
        if instruction.quote_amount > i128::MAX - instruction.fee_quote {
            return Err(VaultError::BalanceOverflow);
        }
        if instruction.base_amount > i128::MAX - instruction.fee_base {
            return Err(VaultError::BalanceOverflow);
        }
        let required_quote = instruction.quote_amount + instruction.fee_quote;
        let required_base = instruction.base_amount + instruction.fee_base;
        let ghost v0 = *old(self);
        let mut staged = self.balances.snapshot();
        proof {
            assert(forall|u: AccountId, a: AssetId| #[trigger] staged.bal(u, a) == v0.bal(u, a));
            assert(staged.wf());
        }
        let buyer_debit = staged.subtract_balance(
            instruction.buy_user,
            instruction.quote_asset,
            required_quote,
        );
        if buyer_debit.is_err() {
            return Ok(SettlementResult::InsufficientBalance);
        }
        proof {
            assert(forall|u: AccountId, a: AssetId| #[trigger]
                staged.bal(u, a) == bal_after_buyer_debit(v0, *instruction, u, a));
        }
        let buyer_credit = staged.add_balance(
            instruction.buy_user,
            instruction.base_asset,
            instruction.base_amount,
        );
        if buyer_credit.is_err() {
            return Err(VaultError::BalanceOverflow);
        }
        proof {
            assert(forall|u: AccountId, a: AssetId| #[trigger]
                staged.bal(u, a) == bal_after_buyer_credit(v0, *instruction, u, a));
        }
        let seller_debit = staged.subtract_balance(
            instruction.sell_user,
            instruction.base_asset,
            required_base,
        );
        if seller_debit.is_err() {
            return Ok(SettlementResult::InsufficientBalance);
        }
        proof {
            assert(forall|u: AccountId, a: AssetId| #[trigger]
                staged.bal(u, a) == bal_after_seller_debit(v0, *instruction, u, a));
        }
        let seller_credit = staged.add_balance(
            instruction.sell_user,
            instruction.quote_asset,
            instruction.quote_amount,
        );
        if seller_credit.is_err() {
            return Err(VaultError::BalanceOverflow);
        }
        proof {
            assert(forall|u: AccountId, a: AssetId| #[trigger]
                staged.bal(u, a) == bal_after_seller_credit(v0, *instruction, u, a));
        }
        if instruction.fee_base > 0 {
            let base_fee = staged.add_balance(
                self.admin,
                instruction.base_asset,
                instruction.fee_base,
            );
            if base_fee.is_err() {
                return Err(VaultError::BalanceOverflow);
            }
        }
        proof {
            assert(forall|u: AccountId, a: AssetId| #[trigger]
                staged.bal(u, a) == bal_after_base_fee(v0, *instruction, u, a));
        }
        if instruction.fee_quote > 0 {
            let quote_fee = staged.add_balance(
                self.admin,
                instruction.quote_asset,
                instruction.fee_quote,
            );
            if quote_fee.is_err() {
                return Err(VaultError::BalanceOverflow);
            }
        }
        proof {
            assert(forall|u: AccountId, a: AssetId| #[trigger]
                staged.bal(u, a) == post_settlement_balance(v0, *instruction, u, a));
        }
        self.balances = staged;
        proof {
            Self::lemma_same_audit_preserves_resolve(v0, *self);
        }
        self.record_settlement(instruction);
        Ok(SettlementResult::Success)
    }

    /// Exact-key lookup of a settlement record; absent is `None`, not
    /// an error.  A pure read.
    pub fn get_settlement(&self, trade_id: &TradeId) -> (r: Option<SettlementRecord>)
        ensures
            r == self.record_of(trade_id@),
    {
        self.records.get_settlement(trade_id)
    }

    /// The up-to-`limit` most recent settlement records of `user`, in
    /// chronological order.  A pure read.
    #[verifier::loop_isolation(false)]
    pub fn get_trade_history(&self, user: AccountId, limit: u32) -> (r: Vec<SettlementRecord>)
        ensures
            r@ == self.trade_history_of(user, limit as int),
    {
        let ids = self.history.user_trades(user);
        let len = ids.len();
        let lim = limit as usize;
        let start: usize = if len > lim {
            len - lim
        } else {
            0
        };
        let ghost w = recent_ids(self.history_of(user), limit as int);
        proof {
            assert(w =~= ids@.subrange(start as int, len as int));
        }
        let mut out: Vec<SettlementRecord> = Vec::new();
        let mut j: usize = start;
        while j < len
            invariant
                start <= j <= len,
                out@ == resolve_ids(self.records.log@, w.subrange(0, j as int - start as int)),
            decreases len - j,
        {
            proof {
                assert(w[j as int - start as int] == ids@[j as int]);
                lemma_resolve_prefix_step(self.records.log@, w, j as int - start as int);
            }
            match self.records.get_settlement(&ids[j]) {
                Some(rec) => {
                    out.push(rec);
                },
                None => {},
            }
            j = j + 1;
        }
        proof {
            assert(w.subrange(0, w.len() as int) =~= w);
        }
        out
    }

    /// What `get_trade_history` returns: the trailing window of the
    /// user's history, each identifier resolved to its record.
    pub open spec fn trade_history_of(self, user: AccountId, limit: int) -> Seq<SettlementRecord> {
        resolve_ids(self.records.log@, recent_ids(self.history_of(user), limit))
    }
}

/// The last `limit` identifiers of `ids` — all of them when `limit`
/// covers the whole history.
pub open spec fn recent_ids(ids: Seq<TradeId>, limit: int) -> Seq<TradeId> {
    if ids.len() > limit {
        ids.subrange(ids.len() - limit, ids.len() as int)
    } else {
        ids
    }
}

/// The ledger after the buyer's quote leg is debited by principal
/// plus fee.
pub open spec fn bal_after_buyer_debit(
    v: SettlementContract,
    i: SettlementInstruction,
    u: AccountId,
    a: AssetId,
) -> int {
    if u == i.buy_user && a == i.quote_asset {
        v.bal(u, a) - i.required_quote()
    } else {
        v.bal(u, a) as int
    }
}

/// ... then the buyer's base leg is credited with the principal.
pub open spec fn bal_after_buyer_credit(
    v: SettlementContract,
    i: SettlementInstruction,
    u: AccountId,
    a: AssetId,
) -> int {
    if u == i.buy_user && a == i.base_asset {
        bal_after_buyer_debit(v, i, u, a) + i.base_amount
    } else {
        bal_after_buyer_debit(v, i, u, a)
    }
}

/// ... then the seller's base leg is debited by principal plus fee.
pub open spec fn bal_after_seller_debit(
    v: SettlementContract,
    i: SettlementInstruction,
    u: AccountId,
    a: AssetId,
) -> int {
    if u == i.sell_user && a == i.base_asset {
        bal_after_buyer_credit(v, i, u, a) - i.required_base()
    } else {
        bal_after_buyer_credit(v, i, u, a)
    }
}

/// ... then the seller's quote leg is credited with the principal.
pub open spec fn bal_after_seller_credit(
    v: SettlementContract,
    i: SettlementInstruction,
    u: AccountId,
    a: AssetId,
) -> int {
    if u == i.sell_user && a == i.quote_asset {
        bal_after_seller_debit(v, i, u, a) + i.quote_amount
    } else {
        bal_after_seller_debit(v, i, u, a)
    }
}

/// ... then a positive base fee is routed to the admin.
pub open spec fn bal_after_base_fee(
    v: SettlementContract,
    i: SettlementInstruction,
    u: AccountId,
    a: AssetId,
) -> int {
    if i.fee_base > 0 && u == v.admin && a == i.base_asset {
        bal_after_seller_credit(v, i, u, a) + i.fee_base
    } else {
        bal_after_seller_credit(v, i, u, a)
    }
}

/// The ledger a successful settlement of `i` leaves behind: both
/// legs applied and both positive fees routed to the admin.
pub open spec fn post_settlement_balance(
    v: SettlementContract,
    i: SettlementInstruction,
    u: AccountId,
    a: AssetId,
) -> int {
    if i.fee_quote > 0 && u == v.admin && a == i.quote_asset {
        bal_after_base_fee(v, i, u, a) + i.fee_quote
    } else {
        bal_after_base_fee(v, i, u, a)
    }
}

/// The outcome `settle_trade` is obliged to return, step by step in
/// the order the legs are applied: sign checks, asset whitelisting,
/// authorization, then balance sufficiency and overflow along the
/// two-leg transfer and the fee routing.
pub open spec fn settle_outcome(
    v: SettlementContract,
    caller: AccountId,
    i: SettlementInstruction,
) -> Result<SettlementResult, VaultError> {
    if !i.amounts_valid() {
        Err(VaultError::InvalidAmount)
    } else if !(v.asset_supported(i.base_asset) && v.asset_supported(i.quote_asset)) {
        Ok(SettlementResult::InvalidMatchingProof)
    } else if v.matching_engine is None {
        Err(VaultError::MatchingEngineNotSet)
    } else if v.matching_engine != Some(caller) {
        Err(VaultError::NotAuthorized)
    } else if i.required_quote() > i128::MAX || i.required_base() > i128::MAX {
        Err(VaultError::BalanceOverflow)
    } else if v.bal(i.buy_user, i.quote_asset) < i.required_quote() {
        Ok(SettlementResult::InsufficientBalance)
    } else if bal_after_buyer_debit(v, i, i.buy_user, i.base_asset) + i.base_amount > i128::MAX {
        Err(VaultError::BalanceOverflow)
    } else if bal_after_buyer_credit(v, i, i.sell_user, i.base_asset) < i.required_base() {
        Ok(SettlementResult::InsufficientBalance)
    } else if bal_after_seller_debit(v, i, i.sell_user, i.quote_asset) + i.quote_amount
        > i128::MAX {
        Err(VaultError::BalanceOverflow)
    } else if i.fee_base > 0 && bal_after_seller_credit(v, i, v.admin, i.base_asset) + i.fee_base
        > i128::MAX {
        Err(VaultError::BalanceOverflow)
    } else if i.fee_quote > 0 && bal_after_base_fee(v, i, v.admin, i.quote_asset) + i.fee_quote
        > i128::MAX {
        Err(VaultError::BalanceOverflow)
    } else {
        Ok(SettlementResult::Success)
    }
}

} // verus!
