// Property scenarios: conservation, non-negativity under random
// operation sequences, idempotent reads, atomicity under failure,
// history windowing, and one input for every error variant.

use settlement::events::emit_deposit_event;
use settlement::events::emit_settlement_event;
use settlement::events::emit_withdraw_event;
use settlement::types::SettlementInstruction;
use settlement::types::SettlementResult;
use settlement::types::TradeId;
use settlement::types::VaultError;
use settlement::types::trade_id_eq;
use settlement::vault::SettlementContract;
use settlement::vault::check_positive_amount;

const ADMIN: u64 = 1;
const TOKEN_A: u64 = 10;
const TOKEN_B: u64 = 20;
const BUYER: u64 = 3;
const SELLER: u64 = 4;
const MATCHING_ENGINE: u64 = 5;

fn test_bytes32(seed: u8) -> TradeId {
    let mut bytes = [0u8; 32];
    bytes[0] = seed;
    TradeId { bytes }
}

fn test_instruction() -> SettlementInstruction {
    SettlementInstruction {
        trade_id: test_bytes32(10),
        buy_user: BUYER,
        sell_user: SELLER,
        base_asset: TOKEN_A,
        quote_asset: TOKEN_B,
        base_amount: 100_000_000i128,
        quote_amount: 150_000_000i128,
        fee_base: 0i128,
        fee_quote: 0i128,
        timestamp: 1234567890u64,
    }
}

fn configured_vault() -> SettlementContract {
    let mut vault = SettlementContract::new(ADMIN, TOKEN_A, TOKEN_B);
    vault
        .set_matching_engine(ADMIN, MATCHING_ENGINE)
        .expect("admin configures the engine");
    vault
}

#[test]
fn conservation_across_settlement_with_fees() {
    let mut vault = configured_vault();
    vault.set_balance(SELLER, TOKEN_A, 300_000_000i128);
    vault.set_balance(BUYER, TOKEN_B, 300_000_000i128);
    vault.set_balance(BUYER, TOKEN_A, 7i128);
    vault.set_balance(SELLER, TOKEN_B, 9i128);

    let parties: [u64; 3] = [BUYER, SELLER, ADMIN];
    let sum_before_base: i128 = parties.iter().map(|p| vault.get_balance(*p, TOKEN_A)).sum();
    let sum_before_quote: i128 = parties.iter().map(|p| vault.get_balance(*p, TOKEN_B)).sum();

    let mut instruction = test_instruction();
    instruction.fee_base = 1_000_000i128;
    instruction.fee_quote = 1_500_000i128;
    let result = vault.settle_trade(MATCHING_ENGINE, &instruction);
    assert_eq!(result, Ok(SettlementResult::Success));

    let sum_after_base: i128 = parties.iter().map(|p| vault.get_balance(*p, TOKEN_A)).sum();
    let sum_after_quote: i128 = parties.iter().map(|p| vault.get_balance(*p, TOKEN_B)).sum();
    assert_eq!(sum_after_base, sum_before_base);
    assert_eq!(sum_after_quote, sum_before_quote);

    // What buyer and seller lose beyond the principal is the fee.
    let buyer_seller_base =
        vault.get_balance(BUYER, TOKEN_A) + vault.get_balance(SELLER, TOKEN_A);
    assert_eq!(buyer_seller_base, 300_000_000i128 + 7 - 1_000_000);
}

#[test]
fn no_balance_goes_negative_under_random_operations() {
    let mut vault = configured_vault();
    let users: [u64; 3] = [BUYER, SELLER, ADMIN];
    let assets: [u64; 2] = [TOKEN_A, TOKEN_B];

    let mut seed: u64 = 0x2545F4914F6CDD1D;
    let mut next = move || {
        seed = seed
            .wrapping_mul(6364136223846793005)
            .wrapping_add(1442695040888963407);
        seed >> 33
    };

    for step in 0..200u32 {
        let op = next() % 3;
        let user = users[(next() % 3) as usize];
        let asset = assets[(next() % 2) as usize];
        let amount = (next() % 50_000_000) as i128;
        match op {
            0 => {
                let _ = vault.deposit(user, asset, amount);
            }
            1 => {
                let _ = vault.withdraw(user, asset, amount);
            }
            _ => {
                let mut instruction = test_instruction();
                instruction.trade_id = test_bytes32((step % 200) as u8);
                instruction.base_amount = amount;
                instruction.quote_amount = (next() % 50_000_000) as i128;
                instruction.fee_base = (next() % 1_000) as i128;
                instruction.fee_quote = (next() % 1_000) as i128;
                let _ = vault.settle_trade(MATCHING_ENGINE, &instruction);
            }
        }
        for u in users.iter() {
            for a in assets.iter() {
                assert!(vault.get_balance(*u, *a) >= 0);
            }
        }
    }
}

#[test]
fn reads_are_idempotent() {
    let mut vault = configured_vault();
    vault.set_balance(SELLER, TOKEN_A, 200_000_000i128);
    vault.set_balance(BUYER, TOKEN_B, 200_000_000i128);
    let instruction = test_instruction();
    let result = vault.settle_trade(MATCHING_ENGINE, &instruction);
    assert_eq!(result, Ok(SettlementResult::Success));

    assert_eq!(
        vault.get_balance(BUYER, TOKEN_B),
        vault.get_balance(BUYER, TOKEN_B)
    );
    assert_eq!(
        vault.get_settlement(&instruction.trade_id),
        vault.get_settlement(&instruction.trade_id)
    );
    assert_eq!(
        vault.get_trade_history(BUYER, 10),
        vault.get_trade_history(BUYER, 10)
    );
}

#[test]
fn failed_settlement_changes_neither_leg() {
    let mut vault = configured_vault();
    // Seller holds 50 of the required 100 base units.
    vault.set_balance(SELLER, TOKEN_A, 50_000_000i128);
    vault.set_balance(BUYER, TOKEN_B, 200_000_000i128);

    let instruction = test_instruction();
    let result = vault.settle_trade(MATCHING_ENGINE, &instruction);
    assert_eq!(result, Ok(SettlementResult::InsufficientBalance));

    assert_eq!(vault.get_balance(BUYER, TOKEN_B), 200_000_000i128);
    assert_eq!(vault.get_balance(BUYER, TOKEN_A), 0);
    assert_eq!(vault.get_balance(SELLER, TOKEN_A), 50_000_000i128);
    assert_eq!(vault.get_balance(SELLER, TOKEN_B), 0);
    assert!(vault.get_settlement(&instruction.trade_id).is_none());
    assert_eq!(vault.get_trade_history(BUYER, 10).len(), 0);
    assert_eq!(vault.get_trade_history(SELLER, 10).len(), 0);
}

#[test]
fn history_returns_most_recent_in_order() {
    let mut vault = configured_vault();
    vault.set_balance(SELLER, TOKEN_A, 1_000_000_000i128);
    vault.set_balance(BUYER, TOKEN_B, 1_000_000_000i128);

    for i in 0..3u64 {
        let mut instruction = test_instruction();
        instruction.trade_id = test_bytes32((40 + i) as u8);
        instruction.timestamp = 1000u64 + i;
        let result = vault.settle_trade(MATCHING_ENGINE, &instruction);
        assert_eq!(result, Ok(SettlementResult::Success));
    }

    // k < N: the k most recent, oldest of the window first.
    let last_two = vault.get_trade_history(BUYER, 2);
    assert_eq!(last_two.len(), 2);
    assert_eq!(last_two[0].timestamp, 1001u64);
    assert_eq!(last_two[1].timestamp, 1002u64);

    // k >= N: all of them, in chronological order.
    let all = vault.get_trade_history(BUYER, 9);
    assert_eq!(all.len(), 3);
    assert_eq!(all[0].timestamp, 1000u64);
    assert_eq!(all[1].timestamp, 1001u64);
    assert_eq!(all[2].timestamp, 1002u64);

    // Limit zero and unknown users read as empty.
    assert_eq!(vault.get_trade_history(BUYER, 0).len(), 0);
    assert_eq!(vault.get_trade_history(77u64, 10).len(), 0);
}

#[test]
fn deposit_then_settle_scenario() {
    let mut vault = configured_vault();
    vault
        .deposit(BUYER, TOKEN_B, 200i128)
        .expect("buyer quote deposit");
    vault
        .deposit(SELLER, TOKEN_A, 200i128)
        .expect("seller base deposit");

    let mut instruction = test_instruction();
    instruction.base_amount = 100i128;
    instruction.quote_amount = 150i128;
    let result = vault.settle_trade(MATCHING_ENGINE, &instruction);
    assert_eq!(result, Ok(SettlementResult::Success));

    assert_eq!(vault.get_balance(BUYER, TOKEN_A), 100i128);
    assert_eq!(vault.get_balance(BUYER, TOKEN_B), 50i128);
    assert_eq!(vault.get_balance(SELLER, TOKEN_A), 100i128);
    assert_eq!(vault.get_balance(SELLER, TOKEN_B), 150i128);
}

#[test]
fn fees_with_exactly_sufficient_balances() {
    let mut vault = configured_vault();
    vault.set_balance(SELLER, TOKEN_A, 101_000_000i128);
    vault.set_balance(BUYER, TOKEN_B, 151_500_000i128);

    let mut instruction = test_instruction();
    instruction.fee_base = 1_000_000i128;
    instruction.fee_quote = 1_500_000i128;
    let result = vault.settle_trade(MATCHING_ENGINE, &instruction);
    assert_eq!(result, Ok(SettlementResult::Success));

    // Fees land with the admin, principals with the parties.
    assert_eq!(vault.get_balance(ADMIN, TOKEN_A), 1_000_000i128);
    assert_eq!(vault.get_balance(ADMIN, TOKEN_B), 1_500_000i128);
    assert_eq!(vault.get_balance(BUYER, TOKEN_A), 100_000_000i128);
    assert_eq!(vault.get_balance(BUYER, TOKEN_B), 0i128);
    assert_eq!(vault.get_balance(SELLER, TOKEN_A), 0i128);
    assert_eq!(vault.get_balance(SELLER, TOKEN_B), 150_000_000i128);
}

#[test]
fn insufficient_seller_base_leaves_buyer_quote() {
    let mut vault = configured_vault();
    vault.set_balance(SELLER, TOKEN_A, 50_000_000i128);
    vault.set_balance(BUYER, TOKEN_B, 200_000_000i128);

    let instruction = test_instruction();
    let result = vault.settle_trade(MATCHING_ENGINE, &instruction);
    assert_eq!(result, Ok(SettlementResult::InsufficientBalance));
    assert_eq!(vault.get_balance(BUYER, TOKEN_B), 200_000_000i128);
}

#[test]
fn unlisted_asset_is_rejected_without_changes() {
    let mut vault = configured_vault();
    vault.set_balance(SELLER, TOKEN_A, 200_000_000i128);
    vault.set_balance(BUYER, TOKEN_B, 200_000_000i128);

    let mut instruction = test_instruction();
    instruction.base_asset = 99u64;
    let result = vault.settle_trade(MATCHING_ENGINE, &instruction);
    assert_eq!(result, Ok(SettlementResult::InvalidMatchingProof));
    assert_eq!(vault.get_balance(SELLER, TOKEN_A), 200_000_000i128);
    assert_eq!(vault.get_balance(BUYER, TOKEN_B), 200_000_000i128);
    assert_eq!(vault.get_balance(BUYER, 99u64), 0i128);
}

#[test]
fn deposit_error_variants() {
    let mut vault = configured_vault();
    assert_eq!(
        vault.deposit(BUYER, TOKEN_A, 0i128),
        Err(VaultError::InvalidAmount)
    );
    assert_eq!(
        vault.deposit(BUYER, TOKEN_A, -5i128),
        Err(VaultError::InvalidAmount)
    );
    assert_eq!(
        vault.deposit(BUYER, 99u64, 5i128),
        Err(VaultError::UnsupportedAsset)
    );
    vault.set_balance(BUYER, TOKEN_A, i128::MAX);
    assert_eq!(
        vault.deposit(BUYER, TOKEN_A, 1i128),
        Err(VaultError::BalanceOverflow)
    );
    assert_eq!(vault.get_balance(BUYER, TOKEN_A), i128::MAX);
}

#[test]
fn withdraw_error_variants() {
    let mut vault = configured_vault();
    vault.set_balance(BUYER, TOKEN_A, 10i128);
    assert_eq!(
        vault.withdraw(BUYER, TOKEN_A, 0i128),
        Err(VaultError::InvalidAmount)
    );
    assert_eq!(
        vault.withdraw(BUYER, TOKEN_A, 11i128),
        Err(VaultError::InsufficientBalance)
    );
    assert_eq!(vault.withdraw(BUYER, TOKEN_A, 10i128), Ok(()));
    assert_eq!(vault.get_balance(BUYER, TOKEN_A), 0i128);
}

#[test]
fn settlement_abort_variants() {
    let mut unconfigured = SettlementContract::new(ADMIN, TOKEN_A, TOKEN_B);
    let instruction = test_instruction();
    assert_eq!(
        unconfigured.settle_trade(MATCHING_ENGINE, &instruction),
        Err(VaultError::MatchingEngineNotSet)
    );

    let mut vault = configured_vault();
    assert_eq!(
        vault.settle_trade(BUYER, &instruction),
        Err(VaultError::NotAuthorized)
    );

    let mut negative_fee = test_instruction();
    negative_fee.fee_quote = -1i128;
    assert_eq!(
        vault.settle_trade(MATCHING_ENGINE, &negative_fee),
        Err(VaultError::InvalidAmount)
    );

    let mut too_large = test_instruction();
    too_large.quote_amount = i128::MAX;
    too_large.fee_quote = 1i128;
    assert_eq!(
        vault.settle_trade(MATCHING_ENGINE, &too_large),
        Err(VaultError::BalanceOverflow)
    );
}

#[test]
fn set_matching_engine_requires_admin() {
    let mut vault = SettlementContract::new(ADMIN, TOKEN_A, TOKEN_B);
    assert_eq!(
        vault.set_matching_engine(BUYER, MATCHING_ENGINE),
        Err(VaultError::NotAuthorized)
    );
    assert_eq!(vault.get_matching_engine(), None);
    assert_eq!(vault.set_matching_engine(ADMIN, MATCHING_ENGINE), Ok(()));
    assert_eq!(vault.get_matching_engine(), Some(MATCHING_ENGINE));
    assert_eq!(vault.get_admin(), ADMIN);
}

#[test]
fn same_account_on_both_sides_is_logged_once() {
    let mut vault = configured_vault();
    vault.set_balance(BUYER, TOKEN_A, 200_000_000i128);
    vault.set_balance(BUYER, TOKEN_B, 200_000_000i128);

    let mut instruction = test_instruction();
    instruction.sell_user = BUYER;
    let result = vault.settle_trade(MATCHING_ENGINE, &instruction);
    assert_eq!(result, Ok(SettlementResult::Success));

    // Both legs cancel out for the single party; the trade shows up
    // once in its history.
    assert_eq!(vault.get_balance(BUYER, TOKEN_A), 200_000_000i128);
    assert_eq!(vault.get_balance(BUYER, TOKEN_B), 200_000_000i128);
    assert_eq!(vault.get_trade_history(BUYER, 10).len(), 1);
}

#[test]
fn duplicate_trade_id_overwrites_the_visible_record() {
    let mut vault = configured_vault();
    vault.set_balance(SELLER, TOKEN_A, 400_000_000i128);
    vault.set_balance(BUYER, TOKEN_B, 400_000_000i128);

    let mut first = test_instruction();
    first.timestamp = 111u64;
    assert_eq!(
        vault.settle_trade(MATCHING_ENGINE, &first),
        Ok(SettlementResult::Success)
    );

    let mut second = test_instruction();
    second.timestamp = 222u64;
    assert_eq!(
        vault.settle_trade(MATCHING_ENGINE, &second),
        Ok(SettlementResult::Success)
    );

    let record = vault.get_settlement(&first.trade_id).unwrap();
    assert_eq!(record.timestamp, 222u64);
    assert_eq!(vault.get_trade_history(BUYER, 10).len(), 2);
}

#[test]
fn settlement_event_carries_the_instruction() {
    let instruction = test_instruction();
    let event = emit_settlement_event(&instruction);
    assert_eq!(event.trade_id, instruction.trade_id);
    assert_eq!(event.buy_user, BUYER);
    assert_eq!(event.sell_user, SELLER);
    assert_eq!(event.base_asset, TOKEN_A);
    assert_eq!(event.quote_asset, TOKEN_B);
    assert_eq!(event.base_amount, 100_000_000i128);
    assert_eq!(event.quote_amount, 150_000_000i128);
    assert_eq!(event.execution_price, None);
    assert_eq!(event.execution_quantity, None);
    assert_eq!(event.timestamp, 1234567890u64);

    let deposit = emit_deposit_event(BUYER, TOKEN_A, 5i128);
    assert_eq!(deposit.user, BUYER);
    assert_eq!(deposit.token, TOKEN_A);
    assert_eq!(deposit.amount, 5i128);

    let withdraw = emit_withdraw_event(SELLER, TOKEN_B, 6i128);
    assert_eq!(withdraw.user, SELLER);
    assert_eq!(withdraw.token, TOKEN_B);
    assert_eq!(withdraw.amount, 6i128);
}

#[test]
fn trade_id_equality_is_by_bytes() {
    let a = test_bytes32(1);
    let b = test_bytes32(1);
    let c = test_bytes32(2);
    assert!(trade_id_eq(&a, &b));
    assert!(!trade_id_eq(&a, &c));
    assert!(check_positive_amount(1i128));
    assert!(!check_positive_amount(0i128));
    assert!(!check_positive_amount(-1i128));
}
