use optimized_trading::{
    batch_process_trades, find_trading_account_address, initialize_trading_account,
    BatchProcessTrades, ErrorCode, InitializeTradingAccount, Ledger, Pubkey, TradeData,
    TradingAccount,
};

fn key(b: u8) -> Pubkey {
    Pubkey::new_from_array([b; 32])
}

fn program() -> Pubkey {
    key(200)
}

fn trades(amounts: &[u64]) -> Vec<TradeData> {
    amounts
        .iter()
        .map(|&amount| TradeData { amount, token_mint: key(9) })
        .collect()
}

/// A ledger with the account of `owner` created at its canonical address.
fn ledger_with(owner: Pubkey) -> (Ledger, Pubkey) {
    let mut ledger = Ledger::new(program());
    let (address, bump) = find_trading_account_address(&program(), &owner).unwrap();
    let ctx = InitializeTradingAccount { trading_account: address, owner };
    assert_eq!(initialize_trading_account(&mut ledger, &ctx, bump), Ok(()));
    (ledger, address)
}

fn account(ledger: &Ledger, address: &Pubkey) -> TradingAccount {
    ledger.get(address).unwrap()
}

fn counters(ledger: &Ledger, address: &Pubkey) -> (u64, u64) {
    let a = account(ledger, address);
    (a.total_trades, a.total_value)
}

fn batch(ledger: &mut Ledger, address: Pubkey, owner: Pubkey, amounts: &[u64]) -> Result<(), ErrorCode> {
    let ctx = BatchProcessTrades { trading_account: address, owner };
    batch_process_trades(ledger, &ctx, trades(amounts))
}

#[test]
fn address_matches_program_derived_address() {
    let owner = key(1);
    let (address, bump) = find_trading_account_address(&program(), &owner).unwrap();
    let pid = anchor_lang::prelude::Pubkey::new_from_array(program().to_bytes());
    let who = anchor_lang::prelude::Pubkey::new_from_array(owner.to_bytes());
    let (expected, expected_bump) =
        anchor_lang::prelude::Pubkey::find_program_address(&[b"trading", who.as_ref()], &pid);
    assert_eq!(address.to_bytes(), expected.to_bytes());
    assert_eq!(bump, expected_bump);
    assert_ne!(address.to_bytes(), owner.to_bytes());
    assert_ne!(address.to_bytes(), program().to_bytes());
}

#[test]
fn addresses_differ_between_owners() {
    let (a, _) = find_trading_account_address(&program(), &key(1)).unwrap();
    let (b, _) = find_trading_account_address(&program(), &key(2)).unwrap();
    assert_ne!(a.to_bytes(), b.to_bytes());
}

#[test]
fn initialize_creates_zeroed_account() {
    let owner = key(1);
    let (ledger, address) = ledger_with(owner);
    let a = account(&ledger, &address);
    assert_eq!(a.owner.to_bytes(), owner.to_bytes());
    assert_eq!(a.total_trades, 0);
    assert_eq!(a.total_value, 0);
    let (_, bump) = find_trading_account_address(&program(), &owner).unwrap();
    assert_eq!(a.bump, bump);
}

#[test]
fn initialize_at_wrong_address_fails() {
    let mut ledger = Ledger::new(program());
    let ctx = InitializeTradingAccount { trading_account: key(3), owner: key(1) };
    assert_eq!(initialize_trading_account(&mut ledger, &ctx, 255), Err(ErrorCode::AccountNotFound));
    assert!(ledger.get(&key(3)).is_none());
}

#[test]
fn reinitialize_fails_and_keeps_counters() {
    let owner = key(1);
    let (mut ledger, address) = ledger_with(owner);
    assert_eq!(batch(&mut ledger, address, owner, &[4, 6]), Ok(()));
    let ctx = InitializeTradingAccount { trading_account: address, owner };
    assert_eq!(initialize_trading_account(&mut ledger, &ctx, 7), Err(ErrorCode::AlreadyInitialized));
    assert_eq!(counters(&ledger, &address), (2, 10));
    assert_eq!(account(&ledger, &address).bump, find_trading_account_address(&program(), &owner).unwrap().1);
}

#[test]
fn sequential_batches_accumulate() {
    let owner = key(1);
    let (mut ledger, address) = ledger_with(owner);
    assert_eq!(batch(&mut ledger, address, owner, &[5, 5]), Ok(()));
    assert_eq!(batch(&mut ledger, address, owner, &[10]), Ok(()));
    assert_eq!(counters(&ledger, &address), (3, 20));
}

#[test]
fn full_batch_adds_length_and_sum() {
    let owner = key(1);
    let (mut ledger, address) = ledger_with(owner);
    assert_eq!(batch(&mut ledger, address, owner, &[1, 2, 3, 4, 5, 6, 7, 8, 9, 10]), Ok(()));
    assert_eq!(counters(&ledger, &address), (10, 55));
}

#[test]
fn empty_batch_is_a_no_op() {
    let owner = key(1);
    let (mut ledger, address) = ledger_with(owner);
    assert_eq!(batch(&mut ledger, address, owner, &[]), Ok(()));
    assert_eq!(counters(&ledger, &address), (0, 0));
}

#[test]
fn batch_of_eleven_is_too_large() {
    let owner = key(1);
    let (mut ledger, address) = ledger_with(owner);
    assert_eq!(batch(&mut ledger, address, owner, &[2]), Ok(()));
    assert_eq!(batch(&mut ledger, address, owner, &[1; 11]), Err(ErrorCode::BatchTooLarge));
    assert_eq!(counters(&ledger, &address), (1, 2));
}

#[test]
fn zero_amount_rejects_whole_batch() {
    let owner = key(1);
    let (mut ledger, address) = ledger_with(owner);
    assert_eq!(batch(&mut ledger, address, owner, &[5, 7, 0]), Err(ErrorCode::InvalidTradeAmount));
    assert_eq!(batch(&mut ledger, address, owner, &[0, 1]), Err(ErrorCode::InvalidTradeAmount));
    assert_eq!(counters(&ledger, &address), (0, 0));
}

#[test]
fn zero_amount_reported_before_overflow() {
    let owner = key(1);
    let (mut ledger, address) = ledger_with(owner);
    assert_eq!(
        batch(&mut ledger, address, owner, &[u64::MAX, u64::MAX, 0]),
        Err(ErrorCode::InvalidTradeAmount)
    );
    assert_eq!(counters(&ledger, &address), (0, 0));
}

#[test]
fn overflow_near_maximum_is_rejected() {
    let owner = key(1);
    let (mut ledger, address) = ledger_with(owner);
    assert_eq!(batch(&mut ledger, address, owner, &[u64::MAX - 5]), Ok(()));
    assert_eq!(batch(&mut ledger, address, owner, &[3, 3]), Err(ErrorCode::ArithmeticOverflow));
    assert_eq!(counters(&ledger, &address), (1, u64::MAX - 5));
    assert_eq!(batch(&mut ledger, address, owner, &[2, 3]), Ok(()));
    assert_eq!(counters(&ledger, &address), (3, u64::MAX));
}

#[test]
fn batch_sum_overflow_is_rejected() {
    let owner = key(1);
    let (mut ledger, address) = ledger_with(owner);
    assert_eq!(batch(&mut ledger, address, owner, &[u64::MAX, 1]), Err(ErrorCode::ArithmeticOverflow));
    assert_eq!(counters(&ledger, &address), (0, 0));
}

#[test]
fn batch_on_missing_account_fails() {
    let owner = key(1);
    let mut ledger = Ledger::new(program());
    let (address, _) = find_trading_account_address(&program(), &owner).unwrap();
    assert_eq!(batch(&mut ledger, address, owner, &[1]), Err(ErrorCode::AccountNotFound));
}

#[test]
fn batch_by_other_owner_fails() {
    let owner = key(1);
    let (mut ledger, address) = ledger_with(owner);
    assert_eq!(batch(&mut ledger, address, key(2), &[1]), Err(ErrorCode::AccountNotFound));
    assert_eq!(counters(&ledger, &address), (0, 0));
}

#[test]
fn initialize_with_non_canonical_bump_fails() {
    let owner = key(1);
    let mut ledger = Ledger::new(program());
    let (address, bump) = find_trading_account_address(&program(), &owner).unwrap();
    let ctx = InitializeTradingAccount { trading_account: address, owner };
    assert_eq!(
        initialize_trading_account(&mut ledger, &ctx, bump.wrapping_sub(1)),
        Err(ErrorCode::AccountNotFound)
    );
    assert!(ledger.get(&address).is_none());
    assert_eq!(initialize_trading_account(&mut ledger, &ctx, bump), Ok(()));
    assert_eq!(batch(&mut ledger, address, owner, &[1]), Ok(()));
    assert_eq!(counters(&ledger, &address), (1, 1));
}

#[test]
fn stored_bump_rebuilds_address() {
    let owner = key(4);
    let (ledger, address) = ledger_with(owner);
    let stored = account(&ledger, &address).bump;
    let pid = anchor_lang::prelude::Pubkey::new_from_array(program().to_bytes());
    let who = anchor_lang::prelude::Pubkey::new_from_array(owner.to_bytes());
    let rebuilt =
        anchor_lang::prelude::Pubkey::create_program_address(&[b"trading", who.as_ref(), &[stored]], &pid)
            .unwrap();
    assert_eq!(rebuilt.to_bytes(), address.to_bytes());
}

#[test]
fn error_messages() {
    assert_eq!(ErrorCode::BatchTooLarge.message(), "Batch size cannot exceed 10 trades");
    assert_eq!(ErrorCode::InvalidTradeAmount.message(), "Invalid trade amount");
    assert_eq!(ErrorCode::ArithmeticOverflow.message(), "Arithmetic overflow");
    assert_eq!(ErrorCode::AlreadyInitialized.message(), "Trading account already initialized");
    assert_eq!(ErrorCode::AccountNotFound.message(), "Trading account not found");
}
