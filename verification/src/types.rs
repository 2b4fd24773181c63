//! The vocabulary of the settlement vault: identities, trade
//! identifiers, settlement instructions, records, results and errors.
//!
//! Identities (accounts and asset contracts) are opaque to the vault's
//! logic: it only ever compares them for equality.  They are therefore
//! carried as plain 64-bit identifiers; the host that talks to the
//! outside world keeps the mapping to its own address format.

use vstd::prelude::*;

verus! {

/// An account identity: a user, the admin, or the matching engine.
pub type AccountId = u64;

/// An asset identity: one fungible token type.
pub type AssetId = u64;

/// A 32-byte trade identifier, the primary key of a settlement record.
#[derive(Clone, Copy, PartialEq, Eq, Debug)]
pub struct TradeId {
    pub bytes: [u8; 32],
}

impl View for TradeId {
    type V = Seq<u8>;

    open spec fn view(&self) -> Seq<u8> {
        self.bytes@
    }
}

/// Equality of two trade identifiers, byte for byte.
pub fn trade_id_eq(a: &TradeId, b: &TradeId) -> (r: bool)
    ensures
        r == (a@ == b@),
{
    let mut i: usize = 0;
    while i < 32
        invariant
            0 <= i <= 32,
            forall|k: int| 0 <= k < i ==> a.bytes@[k] == b.bytes@[k],
        decreases 32 - i,
    {
        if a.bytes[i] != b.bytes[i] {
            assert(a@ != b@);
            return false;
        }
        i = i + 1;
    }
    assert(a@ =~= b@);
    true
}

/// A pair of asset symbols, as a matching engine labels a market.
#[derive(Clone, PartialEq, Eq, Debug)]
pub struct AssetPair {
    pub base: String,
    pub quote: String,
}

/// One trade to settle, as produced by the matching engine.
///
/// Beyond asset whitelisting, sign checks and balance sufficiency the
/// instruction is trusted as-is: price and quantity consistency is the
/// matching engine's responsibility.
#[derive(Clone, Copy, PartialEq, Eq, Debug)]
pub struct SettlementInstruction {
    pub trade_id: TradeId,
    pub buy_user: AccountId,
    pub sell_user: AccountId,
    pub base_asset: AssetId,
    pub quote_asset: AssetId,
    pub base_amount: i128,
    pub quote_amount: i128,
    pub fee_base: i128,
    pub fee_quote: i128,
    pub timestamp: u64,
}

impl SettlementInstruction {
    /// Principal and fee amounts must all be non-negative; otherwise a
    /// settlement could drive a balance below zero.
    pub open spec fn amounts_valid(self) -> bool {
        &&& self.base_amount >= 0
        &&& self.quote_amount >= 0
        &&& self.fee_base >= 0
        &&& self.fee_quote >= 0
    }

    /// What the buyer must hold of the quote asset: principal plus fee.
    pub open spec fn required_quote(self) -> int {
        self.quote_amount + self.fee_quote
    }

    /// What the seller must hold of the base asset: principal plus fee.
    pub open spec fn required_base(self) -> int {
        self.base_amount + self.fee_base
    }
}

/// The terminal outcome of a settlement call.
///
/// `InvalidSignature` and `TransferFailed` are reserved for future
/// proof-verification and transfer integration; the current logic
/// never returns them.
#[derive(Clone, Copy, PartialEq, Eq, Structural, Debug)]
pub enum SettlementResult {
    Success,
    InvalidSignature,
    InvalidMatchingProof,
    InsufficientBalance,
    TransferFailed,
}

/// A typed rejection of a vault operation.  No state is mutated when
/// one of these is returned.
#[derive(Clone, Copy, PartialEq, Eq, Structural, Debug)]
pub enum VaultError {
    /// A deposit, withdrawal or fee amount is outside its allowed sign.
    InvalidAmount,
    /// The asset is neither of the two whitelisted assets.
    UnsupportedAsset,
    /// The account does not hold enough of the asset.
    InsufficientBalance,
    /// The caller is not the identity the operation demands.
    NotAuthorized,
    /// No matching engine has been configured.
    MatchingEngineNotSet,
    /// Applying the operation would push a balance past `i128::MAX`.
    BalanceOverflow,
}

/// The immutable audit entry for one executed trade.
///
/// Execution price and quantity await real matching-proof integration
/// and are recorded as `None`, an explicit "not computed" marker.
#[derive(Clone, Copy, PartialEq, Eq, Debug)]
pub struct SettlementRecord {
    pub trade_id: TradeId,
    pub buy_user: AccountId,
    pub sell_user: AccountId,
    pub base_asset: AssetId,
    pub quote_asset: AssetId,
    pub base_amount: i128,
    pub quote_amount: i128,
    pub execution_price: Option<i128>,
    pub execution_quantity: Option<i128>,
    pub timestamp: u64,
}

/// The record that a successful settlement of `instruction` persists.
pub open spec fn record_of_instruction(instruction: SettlementInstruction) -> SettlementRecord {
    SettlementRecord {
        trade_id: instruction.trade_id,
        buy_user: instruction.buy_user,
        sell_user: instruction.sell_user,
        base_asset: instruction.base_asset,
        quote_asset: instruction.quote_asset,
        base_amount: instruction.base_amount,
        quote_amount: instruction.quote_amount,
        execution_price: None,
        execution_quantity: None,
        timestamp: instruction.timestamp,
    }
}

} // verus!
