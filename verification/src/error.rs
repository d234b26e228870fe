//! Why an instruction was turned down.

use vstd::prelude::*;

verus! {

/// The kinds of failure. Every one of them aborts the whole instruction: no
/// account is changed when any of them is returned.
///
/// `AddressMismatch` stands for three situations that cannot be told apart
/// from the outside: the wrong authority (or mint), the wrong seed (or price),
/// and a header that no longer derives the address of its account.
///
/// The ledger reports failures by code and has no code for most of these
/// kinds: see [`EchoError::reported_as`] for the kinds that it cannot tell
/// apart.
#[derive(Clone, Copy, Debug, PartialEq, Eq, Hash, Structural)]
pub enum EchoError {
    /// The instruction bytes are no instruction of this program.
    InvalidInstructionData,
    /// A plain buffer holds a byte that is not zero.
    NonEmptyBuffer,
    /// A plain buffer has no room at all, or a managed buffer has no room for
    /// its header.
    NotInitialized,
    /// The address that the seeds derive is not the address of the account.
    AddressMismatch,
    /// An account that has to sign did not.
    MissingSigner,
    /// The token holding is of another mint than the vending buffer asks for.
    MintMismatch,
    /// The token holding does not belong to the user.
    OwnerMismatch,
    /// The token holding holds less than the price.
    InsufficientBalance,
    /// The instruction came with fewer accounts than it names.
    NotEnoughAccountKeys,
    /// The account given as token holding does not hold one.
    InvalidAccountData,
}

/// A failure as the ledger reports it to whoever sent the instruction.
#[derive(Clone, Copy, Debug, PartialEq, Eq, Hash, Structural)]
pub enum HostError {
    /// The instruction bytes were not understood.
    InvalidInstructionData,
    /// A signature that the instruction needs is missing.
    MissingRequiredSignature,
    /// The instruction came with too few accounts.
    NotEnoughAccountKeys,
    /// An account does not hold what the instruction needs.
    InvalidAccountData,
    /// A failure that only this program knows, by its number.
    Custom(u32),
}

/// The number under which a write into a plain buffer that holds data is reported.
pub const NON_EMPTY_BUFFER: u32 = 1;

impl EchoError {
    /// How the ledger reports this kind of failure. Every failure of an
    /// authorization is reported as a missing signature, whichever it is: the
    /// signer that did not sign, the address that does not match, the buffer
    /// that holds no header, the holding of the wrong mint or owner, and the
    /// holding that cannot pay.
    pub open spec fn host_error(self) -> HostError {
        match self {
            EchoError::InvalidInstructionData => HostError::InvalidInstructionData,
            EchoError::NonEmptyBuffer => HostError::Custom(NON_EMPTY_BUFFER),
            EchoError::NotEnoughAccountKeys => HostError::NotEnoughAccountKeys,
            EchoError::InvalidAccountData => HostError::InvalidAccountData,
            EchoError::NotInitialized
            | EchoError::AddressMismatch
            | EchoError::MissingSigner
            | EchoError::MintMismatch
            | EchoError::OwnerMismatch
            | EchoError::InsufficientBalance => HostError::MissingRequiredSignature,
        }
    }

    /// How the ledger reports this kind of failure.
    pub fn reported_as(&self) -> (reported: HostError)
        ensures
            reported == self.host_error(),
    {
        match self {
            EchoError::InvalidInstructionData => HostError::InvalidInstructionData,
            EchoError::NonEmptyBuffer => HostError::Custom(NON_EMPTY_BUFFER),
            EchoError::NotEnoughAccountKeys => HostError::NotEnoughAccountKeys,
            EchoError::InvalidAccountData => HostError::InvalidAccountData,
            EchoError::NotInitialized
            | EchoError::AddressMismatch
            | EchoError::MissingSigner
            | EchoError::MintMismatch
            | EchoError::OwnerMismatch
            | EchoError::InsufficientBalance => HostError::MissingRequiredSignature,
        }
    }

    /// The text that explains this kind of failure to a person.
    pub open spec fn diagnostic(self) -> Seq<char> {
        match self {
            EchoError::InvalidInstructionData => "instruction data is malformed"@,
            EchoError::NonEmptyBuffer => "echo buffer already holds data"@,
            EchoError::NotInitialized => "echo buffer is not initialized"@,
            EchoError::AddressMismatch => "account address does not match the derived address"@,
            EchoError::MissingSigner => "required signer did not sign"@,
            EchoError::MintMismatch => "token holding belongs to another mint"@,
            EchoError::OwnerMismatch => "token holding is not owned by the user"@,
            EchoError::InsufficientBalance => "token holding cannot cover the price"@,
            EchoError::NotEnoughAccountKeys => "instruction needs more accounts"@,
            EchoError::InvalidAccountData => "token holding cannot be read"@,
        }
    }

    /// The text that explains this kind of failure to a person.
    pub fn message(&self) -> (text: &'static str)
        ensures
            text@ == self.diagnostic(),
    {
        match self {
            EchoError::InvalidInstructionData => "instruction data is malformed",
            EchoError::NonEmptyBuffer => "echo buffer already holds data",
            EchoError::NotInitialized => "echo buffer is not initialized",
            EchoError::AddressMismatch => "account address does not match the derived address",
            EchoError::MissingSigner => "required signer did not sign",
            EchoError::MintMismatch => "token holding belongs to another mint",
            EchoError::OwnerMismatch => "token holding is not owned by the user",
            EchoError::InsufficientBalance => "token holding cannot cover the price",
            EchoError::NotEnoughAccountKeys => "instruction needs more accounts",
            EchoError::InvalidAccountData => "token holding cannot be read",
        }
    }
}

/// A failure as the caller receives it: the kind, and a text for people.
#[derive(Clone, Copy, Debug, PartialEq, Eq)]
pub struct Rejection {
    pub kind: EchoError,
    pub message: &'static str,
}

impl Rejection {
    /// This rejection is of the given kind and carries that kind's own text.
    pub open spec fn reports(self, kind: EchoError) -> bool {
        self.kind == kind && self.message@ == kind.diagnostic()
    }

    /// The rejection of the given kind, with the text of that kind.
    pub fn new(kind: EchoError) -> (rejection: Rejection)
        ensures
            rejection.reports(kind),
    {
        Rejection { kind, message: kind.message() }
    }
}

} // verus!
