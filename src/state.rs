//! Ledger accounts, trade records, errors, and the store that holds accounts
//! by address.
use vstd::prelude::*;

use crate::address::Pubkey;

verus! {

/// Aggregate trading activity of one owner.
#[derive(Clone, Copy, Debug)]
pub struct TradingAccount {
    pub owner: Pubkey,
    pub total_trades: u64,
    pub total_value: u64,
    pub bump: u8,
}

/// One trade of a batch: its amount and the instrument traded.
#[derive(Clone, Copy, Debug)]
pub struct TradeData {
    pub amount: u64,
    pub token_mint: Pubkey,
}

#[derive(Clone, Copy, Debug, PartialEq, Eq, Structural)]
pub enum ErrorCode {
    /// An account already exists at the owner's address.
    AlreadyInitialized,
    /// No account at the given address, or it is not the owner's derived address.
    AccountNotFound,
    /// The batch holds more than ten trades.
    BatchTooLarge,
    /// A trade of the batch has amount zero.
    InvalidTradeAmount,
    /// A counter would exceed the range of `u64`.
    ArithmeticOverflow,
}

/// The message that describes `e`.
pub open spec fn error_message(e: ErrorCode) -> Seq<char> {
    match e {
        ErrorCode::AlreadyInitialized => "Trading account already initialized"@,
        ErrorCode::AccountNotFound => "Trading account not found"@,
        ErrorCode::BatchTooLarge => "Batch size cannot exceed 10 trades"@,
        ErrorCode::InvalidTradeAmount => "Invalid trade amount"@,
        ErrorCode::ArithmeticOverflow => "Arithmetic overflow"@,
    }
}

impl ErrorCode {
    /// The message that describes the error.
    pub fn message(&self) -> (r: String)
        ensures
            r@ == error_message(*self),
    {
        match self {
            ErrorCode::AlreadyInitialized => String::from_str("Trading account already initialized"),
            ErrorCode::AccountNotFound => String::from_str("Trading account not found"),
            ErrorCode::BatchTooLarge => String::from_str("Batch size cannot exceed 10 trades"),
            ErrorCode::InvalidTradeAmount => String::from_str("Invalid trade amount"),
            ErrorCode::ArithmeticOverflow => String::from_str("Arithmetic overflow"),
        }
    }
}

pub type Accounts = Map<Seq<u8>, TradingAccount>;

/// The map that a list of (address, account) entries describes.
pub open spec fn entries_map(s: Seq<(Pubkey, TradingAccount)>) -> Accounts
    decreases s.len(),
{
    if s.len() == 0 {
        Map::empty()
    } else {
        entries_map(s.drop_last()).insert(s.last().0@, s.last().1)
    }
}

pub open spec fn keys_unique(s: Seq<(Pubkey, TradingAccount)>) -> bool {
    forall|i: int, j: int| 0 <= i < j < s.len() ==> s[i].0@ != s[j].0@
}

proof fn lemma_entries_absent(s: Seq<(Pubkey, TradingAccount)>, k: Seq<u8>)
    requires
        forall|i: int| 0 <= i < s.len() ==> s[i].0@ != k,
    ensures
        !entries_map(s).contains_key(k),
    decreases s.len(),
{
    if s.len() > 0 {
        lemma_entries_absent(s.drop_last(), k);
    }
}

proof fn lemma_entries_lookup(s: Seq<(Pubkey, TradingAccount)>, i: int)
    requires
        keys_unique(s),
        0 <= i < s.len(),
    ensures
        entries_map(s).contains_key(s[i].0@),
        entries_map(s)[s[i].0@] == s[i].1,
    decreases s.len(),
{
    if i < s.len() - 1 {
        lemma_entries_lookup(s.drop_last(), i);
    }
}

proof fn lemma_entries_update(s: Seq<(Pubkey, TradingAccount)>, i: int, v: TradingAccount)
    requires
        keys_unique(s),
        0 <= i < s.len(),
    ensures
        entries_map(s.update(i, (s[i].0, v))) == entries_map(s).insert(s[i].0@, v),
    decreases s.len(),
{
    let t = s.update(i, (s[i].0, v));
    if i == s.len() - 1 {
        assert(t.drop_last() =~= s.drop_last());
        lemma_entries_absent(s.drop_last(), s[i].0@);
        assert(entries_map(t) =~= entries_map(s).insert(s[i].0@, v));
    } else {
        assert(t.drop_last() =~= s.drop_last().update(i, (s[i].0, v)));
        lemma_entries_update(s.drop_last(), i, v);
        assert(entries_map(t) =~= entries_map(s).insert(s[i].0@, v));
    }
}

/// The accounts of one program, each at its address.
pub struct Ledger {
    program_id: Pubkey,
    entries: Vec<(Pubkey, TradingAccount)>,
}

impl Ledger {
    /// The accounts, by address.
    pub closed spec fn view(&self) -> Accounts {
        entries_map(self.entries@)
    }

    /// The program whose accounts these are.
    pub closed spec fn program(&self) -> Pubkey {
        self.program_id
    }

    pub closed spec fn wf(&self) -> bool {
        keys_unique(self.entries@)
    }

    pub fn new(program_id: Pubkey) -> (r: Ledger)
        ensures
            r.wf(),
            r@ == Map::<Seq<u8>, TradingAccount>::empty(),
            r.program() == program_id,
    {
        Ledger { program_id, entries: Vec::new() }
    }

    pub fn program_id(&self) -> (r: Pubkey)
        ensures
            r == self.program(),
    {
        self.program_id
    }

    fn position(&self, key: &Pubkey) -> (r: Option<usize>)
        requires
            self.wf(),
        ensures
            match r {
                Some(i) => i < self.entries@.len() && self.entries@[i as int].0@ == key@,
                None => !self@.contains_key(key@),
            },
    {
        let mut i: usize = 0;
        while i < self.entries.len()
            invariant
                0 <= i <= self.entries@.len(),
                forall|j: int| 0 <= j < i ==> self.entries@[j].0@ != key@,
            decreases self.entries@.len() - i,
        {
            if self.entries[i].0.same_key(key) {
                return Some(i);
            }
            i = i + 1;
        }
        proof {
            lemma_entries_absent(self.entries@, key@);
        }
        None
    }

    /// The account at `key`, if there is one.
    pub fn get(&self, key: &Pubkey) -> (r: Option<TradingAccount>)
        requires
            self.wf(),
        ensures
            r == (if self@.contains_key(key@) { Some(self@[key@]) } else { None::<TradingAccount> }),
    {
        match self.position(key) {
            Some(i) => {
                proof {
                    lemma_entries_lookup(self.entries@, i as int);
                }
                Some(self.entries[i].1)
            },
            None => None,
        }
    }

    /// Stores `account` at `key`, which holds no account yet.
    pub(crate) fn create(&mut self, key: &Pubkey, account: TradingAccount)
        requires
            old(self).wf(),
            !old(self)@.contains_key(key@),
        ensures
            final(self).wf(),
            final(self)@ == old(self)@.insert(key@, account),
            final(self).program() == old(self).program(),
    {
        proof {
            assert forall|i: int| 0 <= i < self.entries@.len() implies self.entries@[i].0@ != key@ by {
                if self.entries@[i].0@ == key@ {
                    lemma_entries_lookup(self.entries@, i);
                }
            }
        }
        self.entries.push((*key, account));
        proof {
            assert(self.entries@.drop_last() =~= old(self).entries@);
        }
    }

    /// Replaces the account at `key`, which holds one.
    pub(crate) fn store(&mut self, key: &Pubkey, account: TradingAccount)
        requires
            old(self).wf(),
            old(self)@.contains_key(key@),
        ensures
            final(self).wf(),
            final(self)@ == old(self)@.insert(key@, account),
            final(self).program() == old(self).program(),
    {
        match self.position(key) {
            Some(i) => {
                let k = self.entries[i].0;
                proof {
                    lemma_entries_update(self.entries@, i as int, account);
                }
                self.entries.set(i, (k, account));
            },
            None => {},
        }
    }
}

} // verus!
