//! A per-owner trading ledger: each owner has one account, at an address
//! derived from the owner's key, that counts the trades folded into it and sums
//! their amounts. Batches are applied whole or not at all.
pub mod address;
pub mod program;
pub mod state;

pub use address::Pubkey;
pub use program::{
    batch_process_trades, find_trading_account_address, initialize_trading_account,
    BatchProcessTrades, InitializeTradingAccount, MAX_BATCH,
};
pub use state::{ErrorCode, Ledger, TradeData, TradingAccount};
