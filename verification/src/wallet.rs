//! Wallets: an address and the transactions filed under it.

use vstd::prelude::*;
use crate::transaction::{views, Transaction, TransactionView};

verus! {

/// The address that every new wallet gets.
pub open spec fn default_address() -> Seq<char> {
    seq!['a', 'b', 'c', 'd', 'e', 'f', 'g']
}

/// What a [`Wallet`] is, as plain values.
pub struct WalletView {
    pub address: Seq<char>,
    pub transactions: Seq<TransactionView>,
}

/// An address with a list of transactions, oldest first.
#[derive(Debug)]
pub struct Wallet {
    address: String,
    transactions: Vec<Transaction>,
}

impl View for Wallet {
    type V = WalletView;

    closed spec fn view(&self) -> WalletView {
        WalletView { address: self.address@, transactions: views(self.transactions@) }
    }
}

impl Wallet {
    /// A wallet with the default address and no transactions.
    pub fn new() -> (wallet: Wallet)
        ensures
            wallet@ == (WalletView { address: default_address(), transactions: Seq::empty() }),
    {
        proof {
            reveal_strlit("abcdefg");
        }
        let wallet = Wallet { address: String::from_str("abcdefg"), transactions: Vec::new() };
        assert(wallet@.address =~= default_address());
        assert(wallet@.transactions =~= Seq::empty());
        wallet
    }

    /// Files `transaction` under this wallet, after those already there.
    pub fn create_transaction(&mut self, transaction: Transaction)
        ensures
            final(self)@ == (WalletView {
                address: old(self)@.address,
                transactions: old(self)@.transactions.push(transaction@),
            }),
    {
        self.transactions.push(transaction);
        assert(self@.transactions =~= old(self)@.transactions.push(transaction@));
    }

    /// The wallet's address.
    pub fn address(&self) -> (address: &String)
        ensures
            address@ == self@.address,
    {
        &self.address
    }

    /// The transactions filed under this wallet, oldest first.
    pub fn transactions(&self) -> (transactions: &Vec<Transaction>)
        ensures
            views(transactions@) == self@.transactions,
    {
        &self.transactions
    }
}

} // verus!
