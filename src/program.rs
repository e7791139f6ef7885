//! The two operations of the ledger: creating an owner's account, and folding
//! a batch of trades into it.
use vstd::prelude::*;

use crate::address::{
    bump_search, canonical_address, create_address, find_address, program_address, seeds_fit, seeds_view,
    Pubkey,
};
use crate::state::{Accounts, ErrorCode, Ledger, TradeData, TradingAccount};

verus! {

/// Largest number of trades in one batch.
pub const MAX_BATCH: usize = 10;

/// The accounts that account creation reads: the address supplied for the new
/// account, and the owner who signs.
#[derive(Clone, Copy, Debug)]
pub struct InitializeTradingAccount {
    pub trading_account: Pubkey,
    pub owner: Pubkey,
}

/// The accounts that batch processing reads: the address of the owner's
/// account, and the owner who signs.
#[derive(Clone, Copy, Debug)]
pub struct BatchProcessTrades {
    pub trading_account: Pubkey,
    pub owner: Pubkey,
}

/// The seed that names this program's accounts: the bytes of "trading".
pub open spec fn seed_prefix_view() -> Seq<u8> {
    seq![116u8, 114u8, 97u8, 100u8, 105u8, 110u8, 103u8]
}

/// The seeds of an owner's account, without the bump seed.
pub open spec fn owner_seeds(owner: Seq<u8>) -> Seq<Seq<u8>> {
    seq![seed_prefix_view(), owner]
}

/// The seeds of an owner's account with its bump seed.
pub open spec fn owner_seeds_with_bump(owner: Seq<u8>, bump: u8) -> Seq<Seq<u8>> {
    seq![seed_prefix_view(), owner, seq![bump]]
}

/// The account that creation stores for `owner`.
pub open spec fn fresh_account(owner: Pubkey, bump: u8) -> TradingAccount {
    TradingAccount { owner, total_trades: 0, total_value: 0, bump }
}

/// What creating an account does: the new account with its address, or the error.
pub open spec fn init_outcome(
    accounts: Accounts,
    program_id: Seq<u8>,
    ctx: InitializeTradingAccount,
    bump: u8,
) -> Result<(Seq<u8>, TradingAccount), ErrorCode> {
    match canonical_address(owner_seeds(ctx.owner@), program_id) {
        None => Err(ErrorCode::AccountNotFound),
        Some((a, canonical_bump)) => if a != ctx.trading_account@ {
            Err(ErrorCode::AccountNotFound)
        } else if accounts.contains_key(a) {
            Err(ErrorCode::AlreadyInitialized)
        } else if bump != canonical_bump {
            Err(ErrorCode::AccountNotFound)
        } else {
            Ok((a, fresh_account(ctx.owner, bump)))
        },
    }
}

/// Whether the account at `ctx.trading_account` exists, belongs to the signing
/// owner, and sits at the address that its owner and stored bump seed derive.
pub open spec fn located(accounts: Accounts, program_id: Seq<u8>, ctx: BatchProcessTrades) -> bool {
    let key = ctx.trading_account@;
    &&& accounts.contains_key(key)
    &&& accounts[key].owner@ == ctx.owner@
    &&& program_address(owner_seeds_with_bump(ctx.owner@, accounts[key].bump), program_id)
        == Some(key)
}

/// The sum of the amounts of `trades`.
pub open spec fn amount_sum(trades: Seq<TradeData>) -> nat
    decreases trades.len(),
{
    if trades.len() == 0 {
        0
    } else {
        amount_sum(trades.drop_last()) + trades.last().amount as nat
    }
}

pub open spec fn has_zero_amount(trades: Seq<TradeData>) -> bool {
    exists|i: int| 0 <= i < trades.len() && #[trigger] trades[i].amount == 0
}

/// An account with a batch folded in.
pub open spec fn applied(account: TradingAccount, trades: Seq<TradeData>) -> TradingAccount {
    TradingAccount {
        total_trades: (account.total_trades + trades.len()) as u64,
        total_value: (account.total_value + amount_sum(trades)) as u64,
        ..account
    }
}

/// What processing a batch does: the account's new value, or the error.
pub open spec fn batch_outcome(
    accounts: Accounts,
    program_id: Seq<u8>,
    ctx: BatchProcessTrades,
    trades: Seq<TradeData>,
) -> Result<TradingAccount, ErrorCode> {
    let account = accounts[ctx.trading_account@];
    if !located(accounts, program_id, ctx) {
        Err(ErrorCode::AccountNotFound)
    } else if trades.len() > MAX_BATCH {
        Err(ErrorCode::BatchTooLarge)
    } else if has_zero_amount(trades) {
        Err(ErrorCode::InvalidTradeAmount)
    } else if account.total_value + amount_sum(trades) > u64::MAX
        || account.total_trades + trades.len() > u64::MAX {
        Err(ErrorCode::ArithmeticOverflow)
    } else {
        Ok(applied(account, trades))
    }
}

fn seed_prefix() -> (r: Vec<u8>)
    ensures
        r@ == seed_prefix_view(),
{
    let r: Vec<u8> = vec![116u8, 114u8, 97u8, 100u8, 105u8, 110u8, 103u8];
    assert(r@ =~= seed_prefix_view());
    r
}

/// The address of `owner`'s account under `program_id`, with its canonical
/// bump seed.
pub fn find_trading_account_address(program_id: &Pubkey, owner: &Pubkey) -> (r: Option<(Pubkey, u8)>)
    ensures
        match r {
            Some((a, b)) => canonical_address(owner_seeds(owner@), program_id@) == Some((a@, b)),
            None => canonical_address(owner_seeds(owner@), program_id@).is_none(),
        },
{
    let seeds: Vec<Vec<u8>> = vec![seed_prefix(), owner.as_seed()];
    proof {
        assert(seeds_view(seeds@) =~= owner_seeds(owner@));
        assert(seeds_fit(seeds_view(seeds@))) by {
            assert(owner.bytes@.len() == 32);
        }
    }
    find_address(&seeds, program_id)
}

proof fn lemma_canonical_derives(owner: Seq<u8>, program_id: Seq<u8>)
    requires
        canonical_address(owner_seeds(owner), program_id) is Some,
    ensures
        ({
            let (a, b) = canonical_address(owner_seeds(owner), program_id)->Some_0;
            program_address(owner_seeds_with_bump(owner, b), program_id) == Some(a)
        }),
{
    let (a, b) = canonical_address(owner_seeds(owner), program_id)->Some_0;
    lemma_bump_search_derives(owner_seeds(owner), program_id, 255);
    assert(owner_seeds(owner).push(seq![b]) =~= owner_seeds_with_bump(owner, b));
}

/// Creates the account of `ctx.owner` in `ledger`, at the address that the
/// owner derives, recording `bump` as its bump seed. The bump seed must be the
/// owner's canonical one, so that the stored seed rebuilds the address; any
/// other is refused with `AccountNotFound`.
pub fn initialize_trading_account(
    ledger: &mut Ledger,
    ctx: &InitializeTradingAccount,
    bump: u8,
) -> (r: Result<(), ErrorCode>)
    requires
        old(ledger).wf(),
    ensures
        final(ledger).wf(),
        final(ledger).program() == old(ledger).program(),
        match init_outcome(old(ledger)@, old(ledger).program()@, *ctx, bump) {
            Ok((a, account)) => r is Ok && final(ledger)@ == old(ledger)@.insert(a, account),
            Err(e) => r == Err::<(), ErrorCode>(e) && final(ledger)@ == old(ledger)@,
        },
        r is Ok ==> program_address(owner_seeds_with_bump(ctx.owner@, bump), old(ledger).program()@)
            == Some(ctx.trading_account@),
{
    let program_id = ledger.program_id();
    let derived = find_trading_account_address(&program_id, &ctx.owner);
    match derived {
        None => Err(ErrorCode::AccountNotFound),
        Some((address, canonical_bump)) => {
            if !address.same_key(&ctx.trading_account) {
                return Err(ErrorCode::AccountNotFound);
            }
            if ledger.get(&address).is_some() {
                return Err(ErrorCode::AlreadyInitialized);
            }
            if bump != canonical_bump {
                return Err(ErrorCode::AccountNotFound);
            }
            proof {
                lemma_canonical_derives(ctx.owner@, program_id@);
            }
            let account = TradingAccount {
                owner: ctx.owner,
                total_trades: 0,
                total_value: 0,
                bump,
            };
            ledger.create(&address, account);
            Ok(())
        },
    }
}

proof fn lemma_amount_sum_prefix(trades: Seq<TradeData>, i: int)
    requires
        0 <= i <= trades.len(),
    ensures
        amount_sum(trades.subrange(0, i)) <= amount_sum(trades),
    decreases trades.len() - i,
{
    if i < trades.len() {
        lemma_amount_sum_prefix(trades, i + 1);
        assert(trades.subrange(0, i + 1).drop_last() =~= trades.subrange(0, i));
    } else {
        assert(trades.subrange(0, i) =~= trades);
    }
}

/// Folds the batch `trade_data` into the account at `ctx.trading_account`:
/// all of it, or, where any check fails, nothing.
#[verifier::loop_isolation(false)]
pub fn batch_process_trades(
    ledger: &mut Ledger,
    ctx: &BatchProcessTrades,
    trade_data: Vec<TradeData>,
) -> (r: Result<(), ErrorCode>)
    requires
        old(ledger).wf(),
    ensures
        final(ledger).wf(),
        final(ledger).program() == old(ledger).program(),
        match batch_outcome(old(ledger)@, old(ledger).program()@, *ctx, trade_data@) {
            Ok(account) => r is Ok && final(ledger)@ == old(ledger)@.insert(ctx.trading_account@, account),
            Err(e) => r == Err::<(), ErrorCode>(e) && final(ledger)@ == old(ledger)@,
        },
{
    let program_id = ledger.program_id();
    let key = ctx.trading_account;
    let account = match ledger.get(&key) {
        Some(a) => a,
        None => return Err(ErrorCode::AccountNotFound),
    };
    if !account.owner.same_key(&ctx.owner) {
        return Err(ErrorCode::AccountNotFound);
    }
    let bump_seed: Vec<u8> = vec![account.bump];
    let seeds: Vec<Vec<u8>> = vec![seed_prefix(), ctx.owner.as_seed(), bump_seed];
    proof {
        assert(seeds@[2]@ =~= seq![account.bump]);
        assert(seeds_view(seeds@) =~= owner_seeds_with_bump(ctx.owner@, account.bump));
        assert(seeds_fit(seeds_view(seeds@))) by {
            assert(ctx.owner.bytes@.len() == 32);
        }
    }
    match create_address(&seeds, &program_id) {
        None => return Err(ErrorCode::AccountNotFound),
        Some(derived) => {
            if !derived.same_key(&key) {
                return Err(ErrorCode::AccountNotFound);
            }
        },
    }
    if trade_data.len() > MAX_BATCH {
        return Err(ErrorCode::BatchTooLarge);
    }
    let mut i: usize = 0;
    while i < trade_data.len()
        invariant
            0 <= i <= trade_data@.len(),
            forall|j: int| 0 <= j < i ==> trade_data@[j].amount > 0,
        decreases trade_data@.len() - i,
    {
        if trade_data[i].amount == 0 {
            assert(trade_data@[i as int].amount == 0);
            return Err(ErrorCode::InvalidTradeAmount);
        }
        i = i + 1;
    }
    let mut total_value: u64 = account.total_value;
    let mut i: usize = 0;
    while i < trade_data.len()
        invariant
            0 <= i <= trade_data@.len(),
            total_value == account.total_value + amount_sum(trade_data@.subrange(0, i as int)),
        decreases trade_data@.len() - i,
    {
        proof {
            assert(trade_data@.subrange(0, i + 1).drop_last() =~= trade_data@.subrange(0, i as int));
        }
        match total_value.checked_add(trade_data[i].amount) {
            Some(v) => total_value = v,
            None => {
                proof {
                    lemma_amount_sum_prefix(trade_data@, i + 1);
                }
                return Err(ErrorCode::ArithmeticOverflow);
            },
        }
        i = i + 1;
    }
    proof {
        assert(trade_data@.subrange(0, i as int) =~= trade_data@);
    }
    let total_trades = match account.total_trades.checked_add(trade_data.len() as u64) {
        Some(v) => v,
        None => return Err(ErrorCode::ArithmeticOverflow),
    };
    let updated = TradingAccount { owner: account.owner, total_trades, total_value, bump: account.bump };
    ledger.store(&key, updated);
    Ok(())
}

/// For an account that exists, belongs to the signing owner and sits at its
/// derived address, a batch of one to ten trades, all with a positive amount,
/// that leaves both counters within range, is accepted: the trade count grows by the batch's
/// length and the total value by the sum of its amounts.
pub proof fn lemma_batch_accumulates(
    accounts: Accounts,
    program_id: Seq<u8>,
    ctx: BatchProcessTrades,
    trades: Seq<TradeData>,
)
    requires
        located(accounts, program_id, ctx),
        1 <= trades.len() <= MAX_BATCH,
        forall|i: int| 0 <= i < trades.len() ==> #[trigger] trades[i].amount > 0,
        accounts[ctx.trading_account@].total_value + amount_sum(trades) <= u64::MAX,
        accounts[ctx.trading_account@].total_trades + trades.len() <= u64::MAX,
    ensures
        batch_outcome(accounts, program_id, ctx, trades) is Ok,
        ({
            let before = accounts[ctx.trading_account@];
            let after = batch_outcome(accounts, program_id, ctx, trades)->Ok_0;
            &&& after.total_trades == before.total_trades + trades.len()
            &&& after.total_value == before.total_value + amount_sum(trades)
            &&& after.owner == before.owner
            &&& after.bump == before.bump
        }),
{
}

/// For an account that exists, belongs to the signing owner and sits at its
/// derived address, a batch of more than ten trades is rejected with
/// `BatchTooLarge`, and
/// processing it changes no account.
pub proof fn lemma_batch_too_large(
    accounts: Accounts,
    program_id: Seq<u8>,
    ctx: BatchProcessTrades,
    trades: Seq<TradeData>,
)
    requires
        located(accounts, program_id, ctx),
        trades.len() > MAX_BATCH,
    ensures
        batch_outcome(accounts, program_id, ctx, trades) == Err::<TradingAccount, ErrorCode>(
            ErrorCode::BatchTooLarge,
        ),
{
}

/// For an account that exists, belongs to the signing owner and sits at its
/// derived address, a batch of at most ten trades that holds a trade of amount
/// zero, wherever it stands, is rejected whole with `InvalidTradeAmount`.
pub proof fn lemma_zero_amount_rejected(
    accounts: Accounts,
    program_id: Seq<u8>,
    ctx: BatchProcessTrades,
    trades: Seq<TradeData>,
    i: int,
)
    requires
        located(accounts, program_id, ctx),
        trades.len() <= MAX_BATCH,
        0 <= i < trades.len(),
        trades[i].amount == 0,
    ensures
        batch_outcome(accounts, program_id, ctx, trades) == Err::<TradingAccount, ErrorCode>(
            ErrorCode::InvalidTradeAmount,
        ),
{
}

/// For an account that exists, belongs to the signing owner and sits at its
/// derived address, a valid batch whose sum would carry the total value past
/// the largest `u64` is rejected with `ArithmeticOverflow`; processing it
/// changes no account.
pub proof fn lemma_value_overflow_rejected(
    accounts: Accounts,
    program_id: Seq<u8>,
    ctx: BatchProcessTrades,
    trades: Seq<TradeData>,
)
    requires
        located(accounts, program_id, ctx),
        trades.len() <= MAX_BATCH,
        forall|i: int| 0 <= i < trades.len() ==> #[trigger] trades[i].amount > 0,
        accounts[ctx.trading_account@].total_value + amount_sum(trades) > u64::MAX,
    ensures
        batch_outcome(accounts, program_id, ctx, trades) == Err::<TradingAccount, ErrorCode>(
            ErrorCode::ArithmeticOverflow,
        ),
{
}

/// Where the owner's derived address already holds an account, creating the
/// owner's account there fails with `AlreadyInitialized`, whatever the bump seed.
pub proof fn lemma_initialize_occupied(
    accounts: Accounts,
    program_id: Seq<u8>,
    ctx: InitializeTradingAccount,
    bump: u8,
)
    requires
        canonical_address(owner_seeds(ctx.owner@), program_id) is Some,
        canonical_address(owner_seeds(ctx.owner@), program_id)->Some_0.0 == ctx.trading_account@,
        accounts.contains_key(ctx.trading_account@),
    ensures
        init_outcome(accounts, program_id, ctx, bump) == Err::<(Seq<u8>, TradingAccount), ErrorCode>(
            ErrorCode::AlreadyInitialized,
        ),
{
}

/// Once an owner's account is created, creating it again fails, with
/// `AlreadyInitialized` where the same address is supplied, whatever the
/// bump seed; a failed creation changes no account.
pub proof fn lemma_reinitialize_fails(
    accounts: Accounts,
    program_id: Seq<u8>,
    ctx: InitializeTradingAccount,
    bump: u8,
    again: InitializeTradingAccount,
    bump_again: u8,
)
    requires
        init_outcome(accounts, program_id, ctx, bump) is Ok,
        again.owner@ == ctx.owner@,
    ensures
        ({
            let (a, account) = init_outcome(accounts, program_id, ctx, bump)->Ok_0;
            let later = init_outcome(accounts.insert(a, account), program_id, again, bump_again);
            &&& later is Err
            &&& again.trading_account@ == ctx.trading_account@ ==> later
                == Err::<(Seq<u8>, TradingAccount), ErrorCode>(ErrorCode::AlreadyInitialized)
        }),
{
}

proof fn lemma_bump_search_derives(seeds: Seq<Seq<u8>>, program_id: Seq<u8>, bump: int)
    requires
        bump_search(seeds, program_id, bump) is Some,
    ensures
        ({
            let (a, b) = bump_search(seeds, program_id, bump)->Some_0;
            program_address(seeds.push(seq![b]), program_id) == Some(a)
        }),
    decreases bump,
{
    if bump >= 1 && program_address(seeds.push(seq![bump as u8]), program_id) is None {
        lemma_bump_search_derives(seeds, program_id, bump - 1);
    }
}

/// A created account is found by batch processing for its owner at the same
/// address: its stored bump seed rebuilds the address.
pub proof fn lemma_initialized_is_located(
    accounts: Accounts,
    program_id: Seq<u8>,
    ctx: InitializeTradingAccount,
    bump: u8,
)
    requires
        init_outcome(accounts, program_id, ctx, bump) is Ok,
    ensures
        ({
            let (a, account) = init_outcome(accounts, program_id, ctx, bump)->Ok_0;
            located(
                accounts.insert(a, account),
                program_id,
                BatchProcessTrades { trading_account: ctx.trading_account, owner: ctx.owner },
            )
        }),
{
    lemma_canonical_derives(ctx.owner@, program_id);
}

} // verus!
