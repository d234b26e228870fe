//! The token holding that pays for a write into a vending buffer.
//!
//! The program reads a holding, decides whether it can pay, and names the
//! units to destroy. It destroys nothing itself: that is the work of the token
//! program, which the host runs on the program's request.

use crate::address::Address;
use crate::error::{EchoError, Rejection};
use solana_program::program_error::ProgramError;
use solana_program::program_pack::Pack;
use spl_token::state::Account as TokenAccount;
use vstd::prelude::*;

verus! {

/// What the program reads of a token holding.
#[derive(Clone, Copy, Debug, PartialEq, Eq)]
pub struct TokenHolding {
    /// The mint whose units the holding counts.
    pub mint: Address,
    /// Who may spend from the holding.
    pub owner: Address,
    /// The units held.
    pub amount: u64,
}

/// The request to destroy units of a holding, signed by its owner.
#[derive(Clone, Copy, Debug, PartialEq, Eq)]
pub struct Burn {
    /// The address of the account with the holding.
    pub holding: Address,
    /// The mint of the units.
    pub mint: Address,
    /// The owner of the holding, who signs.
    pub authority: Address,
    /// The units to destroy.
    pub amount: u64,
}

/// A token holding as a value of mathematics.
pub ghost struct HoldingView {
    pub mint: Seq<u8>,
    pub owner: Seq<u8>,
    pub amount: u64,
}

/// A request to destroy units as a value of mathematics.
pub ghost struct BurnView {
    pub holding: Seq<u8>,
    pub mint: Seq<u8>,
    pub authority: Seq<u8>,
    pub amount: u64,
}

impl View for TokenHolding {
    type V = HoldingView;

    open spec fn view(&self) -> HoldingView {
        HoldingView { mint: self.mint@, owner: self.owner@, amount: self.amount }
    }
}

impl View for Burn {
    type V = BurnView;

    open spec fn view(&self) -> BurnView {
        BurnView {
            holding: self.holding@,
            mint: self.mint@,
            authority: self.authority@,
            amount: self.amount,
        }
    }
}

impl HoldingView {
    /// The holding once the token program has destroyed `amount` of its units.
    pub open spec fn after_burn(self, amount: u64) -> HoldingView
        recommends
            amount <= self.amount,
    {
        HoldingView { amount: (self.amount - amount) as u64, ..self }
    }
}

/// The mint, the owner and the amount of the token holding that the bytes of
/// an account spell, or `None` where they spell none.
pub uninterp spec fn spec_unpack_token_account(data: Seq<u8>) -> Option<(Seq<u8>, Seq<u8>, u64)>;

/// The failure of a ledger program, as the ledger's own library reports it.
#[verifier::external_type_specification]
#[verifier::external_body]
pub struct ExProgramError(ProgramError);

/// `Pack::unpack` of the token program's `Account`: reads an account of the
/// token program from the bytes that hold it, and fails on bytes that hold no
/// initialized one. Its result depends on the bytes alone; the contract names
/// the three fields of it that this program reads and says no more of them.
#[verifier::external_body]
fn unpack_token_account(data: &[u8]) -> (r: Result<TokenHolding, ProgramError>)
    ensures
        match r {
            Ok(holding) => spec_unpack_token_account(data@) == Some(
                (holding.mint@, holding.owner@, holding.amount),
            ),
            Err(_) => spec_unpack_token_account(data@) is None,
        },
{
    match TokenAccount::unpack(data) {
        Ok(account) => Ok(
            TokenHolding {
                mint: Address { bytes: account.mint.to_bytes() },
                owner: Address { bytes: account.owner.to_bytes() },
                amount: account.amount,
            },
        ),
        Err(failure) => Err(failure),
    }
}

/// The token holding that the bytes of an account spell, if they spell one.
pub open spec fn holding_in(data: Seq<u8>) -> Option<HoldingView> {
    match spec_unpack_token_account(data) {
        Some((mint, owner, amount)) => Some(HoldingView { mint, owner, amount }),
        None => None,
    }
}

/// Whether a holding can pay `price` units of `mint` for `user`, or why not.
/// The mint is looked at first, then the owner, then the amount.
pub open spec fn payment_outcome(holding: HoldingView, mint: Seq<u8>, user: Seq<u8>, price: u64) -> Result<
    (),
    EchoError,
> {
    if holding.mint != mint {
        Err(EchoError::MintMismatch)
    } else if holding.owner != user {
        Err(EchoError::OwnerMismatch)
    } else if holding.amount < price {
        Err(EchoError::InsufficientBalance)
    } else {
        Ok(())
    }
}

impl TokenHolding {
    /// Reads the holding from the bytes of its account. Bytes that hold no
    /// initialized holding are rejected with `InvalidAccountData`.
    pub fn unpack(data: &[u8]) -> (r: Result<TokenHolding, Rejection>)
        ensures
            match r {
                Ok(holding) => holding_in(data@) == Some(holding@),
                Err(rejection) => holding_in(data@) is None && rejection.reports(
                    EchoError::InvalidAccountData,
                ),
            },
    {
        match unpack_token_account(data) {
            Ok(holding) => Ok(holding),
            Err(_) => Err(Rejection::new(EchoError::InvalidAccountData)),
        }
    }

    /// Decides whether this holding can pay `price` units of `mint` for
    /// `user`. It is rejected with `MintMismatch` where it is of another mint,
    /// else with `OwnerMismatch` where it is not the user's, else with
    /// `InsufficientBalance` where it holds less than the price.
    pub fn check_payment(&self, mint: &Address, user: &Address, price: u64) -> (r: Result<
        (),
        Rejection,
    >)
        ensures
            match payment_outcome(self@, mint@, user@, price) {
                Ok(_) => r is Ok,
                Err(kind) => r is Err && r->Err_0.reports(kind),
            },
    {
        if self.mint != *mint {
            return Err(Rejection::new(EchoError::MintMismatch));
        }
        if self.owner != *user {
            return Err(Rejection::new(EchoError::OwnerMismatch));
        }
        if self.amount < price {
            return Err(Rejection::new(EchoError::InsufficientBalance));
        }
        Ok(())
    }
}

/// A holding with less than the price is turned down for that, where it is of
/// the right mint and owner, and with less than the price no holding can pay.
pub proof fn lemma_short_holding_cannot_pay(
    holding: HoldingView,
    mint: Seq<u8>,
    user: Seq<u8>,
    price: u64,
)
    requires
        holding.amount < price,
    ensures
        payment_outcome(holding, mint, user, price) is Err,
        holding.mint == mint && holding.owner == user ==> payment_outcome(
            holding,
            mint,
            user,
            price,
        ) == Err::<(), EchoError>(EchoError::InsufficientBalance),
{
}

/// A holding that can pay loses just the price when the price is destroyed.
pub proof fn lemma_payment_takes_price(
    holding: HoldingView,
    mint: Seq<u8>,
    user: Seq<u8>,
    price: u64,
)
    requires
        payment_outcome(holding, mint, user, price) is Ok,
    ensures
        price <= holding.amount,
        holding.after_burn(price).amount == holding.amount - price,
        holding.after_burn(price).mint == holding.mint,
        holding.after_burn(price).owner == holding.owner,
{
}

} // verus!
