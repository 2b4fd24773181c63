//! Notification payloads.  The vault's logic builds these values;
//! publishing them to observers is the host's job, so the builders
//! return the payload instead of sending it anywhere.

use vstd::prelude::*;

use crate::types::AccountId;
use crate::types::AssetId;
use crate::types::SettlementInstruction;
use crate::types::TradeId;

verus! {

/// The notification of one executed settlement.  Execution price and
/// quantity await matching-proof integration and are reported as
/// `None`, an explicit "not computed" marker.
#[derive(Clone, Copy, PartialEq, Eq, Debug)]
pub struct SettlementEvent {
    pub trade_id: TradeId,
    pub buy_user: AccountId,
    pub sell_user: AccountId,
    pub base_asset: AssetId,
    pub quote_asset: AssetId,
    pub base_amount: i128,
    pub quote_amount: i128,
    pub execution_price: Option<i128>,
    pub execution_quantity: Option<i128>,
    pub timestamp: u64,
}

/// The notification of one deposit.
#[derive(Clone, Copy, PartialEq, Eq, Debug)]
pub struct DepositEvent {
    pub user: AccountId,
    pub token: AssetId,
    pub amount: i128,
}

/// The notification of one withdrawal.
#[derive(Clone, Copy, PartialEq, Eq, Debug)]
pub struct WithdrawEvent {
    pub user: AccountId,
    pub token: AssetId,
    pub amount: i128,
}

/// The settlement notification for `instruction`: identifier, both
/// parties, both assets and both principal amounts, with execution
/// price and quantity marked not computed.
pub fn emit_settlement_event(instruction: &SettlementInstruction) -> (e: SettlementEvent)
    ensures
        e.trade_id == instruction.trade_id,
        e.buy_user == instruction.buy_user,
        e.sell_user == instruction.sell_user,
        e.base_asset == instruction.base_asset,
        e.quote_asset == instruction.quote_asset,
        e.base_amount == instruction.base_amount,
        e.quote_amount == instruction.quote_amount,
        e.execution_price is None,
        e.execution_quantity is None,
        e.timestamp == instruction.timestamp,
{
    SettlementEvent {
        trade_id: instruction.trade_id,
        buy_user: instruction.buy_user,
        sell_user: instruction.sell_user,
        base_asset: instruction.base_asset,
        quote_asset: instruction.quote_asset,
        base_amount: instruction.base_amount,
        quote_amount: instruction.quote_amount,
        execution_price: None,
        execution_quantity: None,
        timestamp: instruction.timestamp,
    }
}

/// The deposit notification: who deposited how much of what.
pub fn emit_deposit_event(user: AccountId, token: AssetId, amount: i128) -> (e: DepositEvent)
    ensures
        e == (DepositEvent { user, token, amount }),
{
    DepositEvent { user: user, token: token, amount: amount }
}

/// The withdrawal notification: who withdrew how much of what.
pub fn emit_withdraw_event(user: AccountId, token: AssetId, amount: i128) -> (e: WithdrawEvent)
    ensures
        e == (WithdrawEvent { user, token, amount }),
{
    WithdrawEvent { user: user, token: token, amount: amount }
}

} // verus!
