//! Echo: an instruction processor for a ledger program that writes caller
//! supplied bytes into account buffers.
//!
//! Three families of buffer exist. A plain buffer is written once while it is
//! still all zero. An authorized buffer lives at an address derived from its
//! authority and a seed, and only that authority may overwrite it. A vending
//! buffer lives at an address derived from a mint and a price, and anybody who
//! has `price` units of that mint destroyed may overwrite it.
//!
//! The processor never talks to the ledger itself. Where an instruction needs
//! work that only the host can do (create an account, destroy tokens) it
//! returns a [`processor::Step`] that names the work, and is resumed once the
//! host has done it. No instruction changes anything before all its checks
//! have passed, so that an instruction that fails leaves every account as it
//! was.
//!
//! - [`codec`]: numbers as bytes, lowest byte first.
//! - [`error`]: the kinds of failure and their texts.
//! - [`address`]: addresses, and the search and the check of derived ones.
//! - [`instruction`]: the instructions and their wire form.
//! - [`state`]: headers, and the two ways of writing a payload.
//! - [`token`]: the token holding that pays for a write.
//! - [`account`]: an account as lent to the program.
//! - [`guard`]: the checks before a buffer is created or written.
//! - [`processor`]: the instructions carried out.

pub mod account;
pub mod address;
pub mod codec;
pub mod error;
pub mod guard;
pub mod instruction;
pub mod processor;
pub mod state;
pub mod token;
