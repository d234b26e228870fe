//! An account as the program sees it for the time of one instruction.

use crate::address::Address;
use vstd::prelude::*;

verus! {

/// An account of the ledger, lent to the program for one instruction.
#[derive(Clone, Debug, PartialEq, Eq)]
pub struct Account {
    /// The address of the account.
    pub key: Address,
    /// The program that owns the account.
    pub owner: Address,
    /// Whether the holder of the account's key signed the instruction.
    pub is_signer: bool,
    /// The balance of the account.
    pub lamports: u64,
    /// The bytes that the account stores.
    pub data: Vec<u8>,
}

/// An account as a value of mathematics.
pub ghost struct AccountView {
    pub key: Seq<u8>,
    pub owner: Seq<u8>,
    pub is_signer: bool,
    pub lamports: u64,
    pub data: Seq<u8>,
}

impl View for Account {
    type V = AccountView;

    open spec fn view(&self) -> AccountView {
        AccountView {
            key: self.key@,
            owner: self.owner@,
            is_signer: self.is_signer,
            lamports: self.lamports,
            data: self.data@,
        }
    }
}

impl AccountView {
    /// This account with other bytes stored in it.
    pub open spec fn with_data(self, data: Seq<u8>) -> AccountView {
        AccountView { data, ..self }
    }
}

/// The accounts of a list, each as a value of mathematics.
pub open spec fn views(accounts: Seq<Account>) -> Seq<AccountView> {
    Seq::new(accounts.len(), |i: int| accounts[i]@)
}

impl Account {
    /// The account with the fields given.
    pub fn new(key: Address, owner: Address, is_signer: bool, lamports: u64, data: Vec<u8>) -> (account:
        Account)
        ensures
            account@ == (AccountView {
                key: key@,
                owner: owner@,
                is_signer,
                lamports,
                data: data@,
            }),
    {
        Account { key, owner, is_signer, lamports, data }
    }
}

} // verus!
