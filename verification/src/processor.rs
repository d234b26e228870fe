//! The processor: it reads an instruction, checks it against the accounts it
//! came with, and writes into the first of them.
//!
//! Two instructions cannot be finished by the program alone. To create a
//! buffer the host has to allocate its account, and to sell a write the token
//! program has to destroy the price. For these the processor checks first,
//! changes nothing, and answers with the [`Step`] that names what the host
//! must do. Once the host has done it, [`Processor::resume`] writes.

use crate::account::{views, Account, AccountView};
use crate::address::{parts_of, Address, Family};
use crate::error::{EchoError, Rejection};
use crate::guard::{creation_guard, guard_creation, guard_write, require_signer, write_guard};
use crate::guard::lemma_created_may_be_written;
use crate::instruction::{lemma_parse_wire_format, parse, wire_format};
use crate::instruction::{EchoInstruction, InstructionView};
use crate::state::{all_zero, capped, header_of, overwritten, with_header, written_once};
use crate::state::{lemma_header_round_trip, lemma_overwrite_forgets};
use crate::state::{lemma_overwrite_keeps_header, lemma_write_once};
use crate::state::{overwrite, write_header, write_once};
use crate::state::{overwrite_outcome, write_header_outcome, write_once_outcome};
use crate::state::{AuthorizedBufferHeader, VendingMachineBufferHeader, HEADER_LEN};
use crate::token::{holding_in, payment_outcome, Burn, BurnView, TokenHolding};
use vstd::prelude::*;

verus! {

/// Passes when `statement` holds, and rejects with `err` and the text `msg`
/// when it does not.
pub fn assert_with_msg(statement: bool, err: EchoError, msg: &'static str) -> (r: Result<
    (),
    Rejection,
>)
    ensures
        statement <==> r is Ok,
        !statement ==> r->Err_0.kind == err && r->Err_0.message@ == msg@,
{
    if !statement {
        Err(Rejection { kind: err, message: msg })
    } else {
        Ok(())
    }
}

/// The request to create the account of a managed buffer.
///
/// The account is to be created at `buffer`, with `space` bytes, all zero,
/// with the least balance that keeps an account of that size, paid by `payer`,
/// and owned by the program at `owner`. The address has no key that could
/// sign for it: the program vouches for it with the seeds that derive it.
#[derive(Clone, Copy, Debug, PartialEq, Eq)]
pub struct Allocation {
    /// The family of the buffer.
    pub family: Family,
    /// Who pays for the account.
    pub payer: Address,
    /// The address of the account.
    pub buffer: Address,
    /// The program that is to own the account.
    pub owner: Address,
    /// The address that the buffer is keyed by: its authority, or its mint.
    pub key: Address,
    /// The number that the buffer is keyed by: its seed, or its price.
    pub number: u64,
    /// The bump with which the seeds derive `buffer`.
    pub bump: u8,
    /// The size of the account: the header and the room for the payload.
    pub space: u64,
}

/// A request to create an account as a value of mathematics.
pub ghost struct AllocationView {
    pub family: Family,
    pub payer: Seq<u8>,
    pub buffer: Seq<u8>,
    pub owner: Seq<u8>,
    pub key: Seq<u8>,
    pub number: u64,
    pub bump: u8,
    pub space: u64,
}

impl View for Allocation {
    type V = AllocationView;

    open spec fn view(&self) -> AllocationView {
        AllocationView {
            family: self.family,
            payer: self.payer@,
            buffer: self.buffer@,
            owner: self.owner@,
            key: self.key@,
            number: self.number,
            bump: self.bump,
            space: self.space,
        }
    }
}

impl AllocationView {
    /// The seeds that vouch for the address of the buffer: its seed parts,
    /// closed by its bump.
    pub open spec fn signer_parts(self) -> Seq<Seq<u8>> {
        self.family.parts(self.key, self.number).push(seq![self.bump])
    }
}

impl Allocation {
    /// The seeds that the host needs to create the account in the program's name.
    pub fn signer_seeds(&self) -> (seeds: Vec<Vec<u8>>)
        ensures
            parts_of(&seeds) == self@.signer_parts(),
    {
        let mut seeds = self.family.seeds(&self.key, self.number);
        let mut last: Vec<u8> = Vec::new();
        last.push(self.bump);
        seeds.push(last);
        seeds
    }
}

/// Where an instruction stands after the processor has looked at it.
#[derive(Clone, Debug, PartialEq, Eq)]
pub enum Step {
    /// The instruction is done: what it writes is written.
    Done,
    /// The host has to create the account named, and then to resume.
    CreateAccount(Allocation),
    /// The host has to have the units named destroyed, and then to resume.
    /// `buffer` is the address of the vending buffer and `payload` what will
    /// be written into it.
    Burn { burn: Burn, buffer: Address, payload: Vec<u8> },
}

/// A step as a value of mathematics.
pub ghost enum StepView {
    Done,
    CreateAccount(AllocationView),
    Burn { burn: BurnView, buffer: Seq<u8>, payload: Seq<u8> },
}

impl View for Step {
    type V = StepView;

    open spec fn view(&self) -> StepView {
        match self {
            Step::Done => StepView::Done,
            Step::CreateAccount(allocation) => StepView::CreateAccount(allocation@),
            Step::Burn { burn, buffer, payload } => StepView::Burn {
                burn: burn@,
                buffer: buffer@,
                payload: payload@,
            },
        }
    }
}

impl StepView {
    /// The places, in the list of accounts of the instruction, of the
    /// accounts that the host hands on with the work of this step, in the
    /// order in which that work takes them: for a creation the payer, the
    /// buffer and the program that allocates; for a sale the token holding,
    /// the mint and the user.
    pub open spec fn host_accounts(self) -> Seq<usize> {
        match self {
            StepView::Done => seq![],
            StepView::CreateAccount(allocation) => match allocation.family {
                Family::Authorized => seq![1usize, 0usize, 2usize],
                Family::Vending => seq![2usize, 0usize, 3usize],
            },
            StepView::Burn { .. } => seq![2usize, 3usize, 1usize],
        }
    }
}

impl Step {
    /// The places of the accounts that the host hands on with the work of
    /// this step.
    pub fn host_accounts(&self) -> (places: Vec<usize>)
        ensures
            places@ == self@.host_accounts(),
    {
        let places = match self {
            Step::Done => Vec::new(),
            Step::CreateAccount(allocation) => match allocation.family {
                Family::Authorized => vec![1, 0, 2],
                Family::Vending => vec![2, 0, 3],
            },
            Step::Burn { .. } => vec![2, 3, 1],
        };
        assert(places@ =~= self@.host_accounts());
        places
    }
}

/// The account holds a managed buffer of `family` that is keyed by `key`: it
/// stores a header, and the seeds of the family, the key and the number of
/// the header, closed by the bump of the header, derive the address of the
/// account. This is what a creation sets up and what every write asks for.
pub open spec fn is_managed(
    family: Family,
    program_id: Seq<u8>,
    buffer: AccountView,
    key: Seq<u8>,
) -> bool {
    match header_of(buffer.data) {
        Some((bump, number)) => write_guard(family, program_id, buffer.key, key, bump, number),
        None => false,
    }
}

/// The request to create a managed buffer of `family` at the address of
/// `buffer`, or why it may not be created there.
pub open spec fn creation_outcome(
    family: Family,
    program_id: Seq<u8>,
    buffer: AccountView,
    key: Seq<u8>,
    payer: Seq<u8>,
    number: u64,
    buffer_size: u32,
) -> Result<AllocationView, EchoError> {
    match creation_guard(family, program_id, buffer.key, key, number) {
        Ok(bump) => Ok(
            AllocationView {
                family,
                payer,
                buffer: buffer.key,
                owner: program_id,
                key,
                number,
                bump,
                space: (HEADER_LEN + buffer_size) as u64,
            },
        ),
        Err(kind) => Err(kind),
    }
}

/// What writing a payload into a plain buffer comes to.
pub open spec fn echo_outcome(buffer: AccountView, payload: Seq<u8>) -> Result<
    Seq<u8>,
    EchoError,
> {
    write_once_outcome(buffer.data, payload)
}

/// What the creation of an authorized buffer comes to. The authority has to
/// have signed, and its address and the seed have to derive the address of
/// the buffer.
pub open spec fn initialize_authorized_echo_outcome(
    program_id: Seq<u8>,
    buffer: AccountView,
    authority: AccountView,
    buffer_seed: u64,
    buffer_size: u32,
) -> Result<AllocationView, EchoError> {
    if !authority.is_signer {
        Err(EchoError::MissingSigner)
    } else {
        creation_outcome(
            Family::Authorized,
            program_id,
            buffer,
            authority.key,
            authority.key,
            buffer_seed,
            buffer_size,
        )
    }
}

/// What a write into an authorized buffer comes to. The account has to have
/// room for a header, the authority has to have signed, and the account has
/// to hold the authorized buffer of that authority.
pub open spec fn authorized_echo_outcome(
    program_id: Seq<u8>,
    buffer: AccountView,
    authority: AccountView,
    payload: Seq<u8>,
) -> Result<Seq<u8>, EchoError> {
    if header_of(buffer.data) is None {
        Err(EchoError::NotInitialized)
    } else if !authority.is_signer {
        Err(EchoError::MissingSigner)
    } else if !is_managed(Family::Authorized, program_id, buffer, authority.key) {
        Err(EchoError::AddressMismatch)
    } else {
        Ok(overwritten(buffer.data, payload))
    }
}

/// What the creation of a vending buffer comes to. The address of the mint
/// and the price have to derive the address of the buffer; nobody has to sign
/// for it, and whoever is named as payer pays.
pub open spec fn initialize_vending_machine_echo_outcome(
    program_id: Seq<u8>,
    buffer: AccountView,
    mint: AccountView,
    payer: AccountView,
    price: u64,
    buffer_size: u32,
) -> Result<AllocationView, EchoError> {
    creation_outcome(Family::Vending, program_id, buffer, mint.key, payer.key, price, buffer_size)
}

/// What the sale of a write into a vending buffer comes to: the request to
/// destroy the price, or why there is no sale. The account of the holding has
/// to hold one, the account of the buffer has to have room for a header, the
/// holding has to be of the mint, to belong to the user and to hold the price
/// that the header names, and the account of the buffer has to hold the
/// vending buffer of that mint.
pub open spec fn vending_machine_echo_outcome(
    program_id: Seq<u8>,
    buffer: AccountView,
    user: AccountView,
    user_token_account: AccountView,
    mint: AccountView,
) -> Result<BurnView, EchoError> {
    match (holding_in(user_token_account.data), header_of(buffer.data)) {
        (None, _) => Err(EchoError::InvalidAccountData),
        (Some(_), None) => Err(EchoError::NotInitialized),
        (Some(holding), Some((_, price))) => match payment_outcome(
            holding,
            mint.key,
            user.key,
            price,
        ) {
            Err(kind) => Err(kind),
            Ok(_) => if !is_managed(Family::Vending, program_id, buffer, mint.key) {
                Err(EchoError::AddressMismatch)
            } else {
                Ok(
                    BurnView {
                        holding: user_token_account.key,
                        mint: mint.key,
                        authority: user.key,
                        amount: price,
                    },
                )
            },
        },
    }
}

/// A handler that was to write into `before` kept to `outcome`: it either
/// succeeded and changed the stored bytes to what the outcome holds, or it
/// was rejected for the outcome's reason and changed nothing. Either way it
/// left the rest of the account alone.
pub open spec fn wrote(
    outcome: Result<Seq<u8>, EchoError>,
    r: Result<(), Rejection>,
    before: AccountView,
    after: AccountView,
) -> bool {
    match outcome {
        Ok(written) => r is Ok && after == before.with_data(written),
        Err(kind) => r is Err && r->Err_0.reports(kind) && after == before,
    }
}

/// The accounts after a write of `written` into the first of them.
pub open spec fn first_written(accounts: Seq<AccountView>, written: Seq<u8>) -> Seq<AccountView> {
    accounts.update(0, accounts[0].with_data(written))
}

/// The step that an instruction leads to and the accounts as it leaves them,
/// or why it is turned down.
///
/// The accounts stand in the order that each instruction fixes: the buffer
/// first; behind it the authority (and, for a creation, the program that
/// allocates), or the mint and the payer (and that program), or the user, the
/// user's token holding, the mint and the token program. An instruction that
/// comes with fewer accounts than it names is turned down before anything
/// else is looked at.
pub open spec fn operation_outcome(
    program_id: Seq<u8>,
    accounts: Seq<AccountView>,
    instruction: InstructionView,
) -> Result<(StepView, Seq<AccountView>), EchoError> {
    match instruction {
        InstructionView::Echo { data } => if accounts.len() < 1 {
            Err(EchoError::NotEnoughAccountKeys)
        } else {
            match echo_outcome(accounts[0], data) {
                Ok(written) => Ok((StepView::Done, first_written(accounts, written))),
                Err(kind) => Err(kind),
            }
        },
        InstructionView::InitializeAuthorizedEcho { buffer_seed, buffer_size } => if accounts.len()
            < 3 {
            Err(EchoError::NotEnoughAccountKeys)
        } else {
            match initialize_authorized_echo_outcome(
                program_id,
                accounts[0],
                accounts[1],
                buffer_seed,
                buffer_size,
            ) {
                Ok(allocation) => Ok((StepView::CreateAccount(allocation), accounts)),
                Err(kind) => Err(kind),
            }
        },
        InstructionView::AuthorizedEcho { data } => if accounts.len() < 2 {
            Err(EchoError::NotEnoughAccountKeys)
        } else {
            match authorized_echo_outcome(program_id, accounts[0], accounts[1], data) {
                Ok(written) => Ok((StepView::Done, first_written(accounts, written))),
                Err(kind) => Err(kind),
            }
        },
        InstructionView::InitializeVendingMachineEcho { price, buffer_size } => if accounts.len()
            < 4 {
            Err(EchoError::NotEnoughAccountKeys)
        } else {
            match initialize_vending_machine_echo_outcome(
                program_id,
                accounts[0],
                accounts[1],
                accounts[2],
                price,
                buffer_size,
            ) {
                Ok(allocation) => Ok((StepView::CreateAccount(allocation), accounts)),
                Err(kind) => Err(kind),
            }
        },
        InstructionView::VendingMachineEcho { data } => if accounts.len() < 5 {
            Err(EchoError::NotEnoughAccountKeys)
        } else {
            match vending_machine_echo_outcome(
                program_id,
                accounts[0],
                accounts[1],
                accounts[2],
                accounts[3],
            ) {
                Ok(burn) => Ok(
                    (StepView::Burn { burn, buffer: accounts[0].key, payload: data }, accounts),
                ),
                Err(kind) => Err(kind),
            }
        },
    }
}

/// What the bytes of an instruction lead to: what the instruction that they
/// are the wire form of leads to, and `InvalidInstructionData` where they are
/// the wire form of none.
pub open spec fn instruction_outcome(
    program_id: Seq<u8>,
    accounts: Seq<AccountView>,
    input: Seq<u8>,
) -> Result<(StepView, Seq<AccountView>), EchoError> {
    match parse(input) {
        Some(instruction) => operation_outcome(program_id, accounts, instruction),
        None => Err(EchoError::InvalidInstructionData),
    }
}

/// What is written into the buffer when a step is resumed, or why nothing is.
/// A step that is done writes nothing more. The others write into the first
/// account, which has to be the buffer that the step names: the header of a
/// buffer that was created, or the payload of a write that was paid for.
pub open spec fn resume_outcome(step: StepView, accounts: Seq<AccountView>) -> Result<
    Seq<AccountView>,
    EchoError,
> {
    match step {
        StepView::Done => Ok(accounts),
        StepView::CreateAccount(allocation) => if accounts.len() < 1 {
            Err(EchoError::NotEnoughAccountKeys)
        } else if accounts[0].key != allocation.buffer {
            Err(EchoError::AddressMismatch)
        } else {
            match write_header_outcome(accounts[0].data, allocation.bump, allocation.number) {
                Ok(written) => Ok(first_written(accounts, written)),
                Err(kind) => Err(kind),
            }
        },
        StepView::Burn { burn, buffer, payload } => if accounts.len() < 1 {
            Err(EchoError::NotEnoughAccountKeys)
        } else if accounts[0].key != buffer {
            Err(EchoError::AddressMismatch)
        } else {
            match overwrite_outcome(accounts[0].data, payload) {
                Ok(written) => Ok(first_written(accounts, written)),
                Err(kind) => Err(kind),
            }
        },
    }
}

/// The instruction processor.
pub struct Processor {}

impl Processor {
    /// Writes a payload into a plain buffer that nothing was written to yet.
    pub fn process_echo(buffer: &mut Account, data: &[u8]) -> (r: Result<(), Rejection>)
        ensures
            wrote(echo_outcome(old(buffer)@, data@), r, old(buffer)@, final(buffer)@),
    {
        write_once(&mut buffer.data, data)
    }

    /// Checks the creation of an authorized buffer and names the account to create.
    pub fn process_initialize_authorized_echo(
        program_id: &Address,
        buffer: &Account,
        authority: &Account,
        buffer_seed: u64,
        buffer_size: u32,
    ) -> (r: Result<Allocation, Rejection>)
        ensures
            match initialize_authorized_echo_outcome(
                program_id@,
                buffer@,
                authority@,
                buffer_seed,
                buffer_size,
            ) {
                Ok(allocation) => r is Ok && r->Ok_0@ == allocation,
                Err(kind) => r is Err && r->Err_0.reports(kind),
            },
    {
        require_signer(authority.is_signer)?;
        Self::plan_creation(
            Family::Authorized,
            program_id,
            buffer,
            &authority.key,
            &authority.key,
            buffer_seed,
            buffer_size,
        )
    }

    /// Writes a payload into an authorized buffer, over what it held.
    pub fn process_authorized_echo(
        program_id: &Address,
        buffer: &mut Account,
        authority: &Account,
        data: &[u8],
    ) -> (r: Result<(), Rejection>)
        ensures
            wrote(
                authorized_echo_outcome(program_id@, old(buffer)@, authority@, data@),
                r,
                old(buffer)@,
                final(buffer)@,
            ),
    {
        let header = match AuthorizedBufferHeader::unpack(buffer.data.as_slice()) {
            Some(header) => header,
            None => {
                return Err(Rejection::new(EchoError::NotInitialized));
            },
        };
        require_signer(authority.is_signer)?;
        guard_write(
            Family::Authorized,
            program_id,
            &buffer.key,
            &authority.key,
            header.bump,
            header.buffer_seed,
        )?;
        overwrite(&mut buffer.data, data)
    }

    /// Checks the creation of a vending buffer and names the account to create.
    pub fn process_initialize_vending_machine_echo(
        program_id: &Address,
        buffer: &Account,
        mint: &Account,
        payer: &Account,
        price: u64,
        buffer_size: u32,
    ) -> (r: Result<Allocation, Rejection>)
        ensures
            match initialize_vending_machine_echo_outcome(
                program_id@,
                buffer@,
                mint@,
                payer@,
                price,
                buffer_size,
            ) {
                Ok(allocation) => r is Ok && r->Ok_0@ == allocation,
                Err(kind) => r is Err && r->Err_0.reports(kind),
            },
    {
        Self::plan_creation(
            Family::Vending,
            program_id,
            buffer,
            &mint.key,
            &payer.key,
            price,
            buffer_size,
        )
    }

    /// Checks the sale of a write into a vending buffer and names the units to destroy.
    pub fn process_vending_machine_echo(
        program_id: &Address,
        buffer: &Account,
        user: &Account,
        user_token_account: &Account,
        mint: &Account,
    ) -> (r: Result<Burn, Rejection>)
        ensures
            match vending_machine_echo_outcome(
                program_id@,
                buffer@,
                user@,
                user_token_account@,
                mint@,
            ) {
                Ok(burn) => r is Ok && r->Ok_0@ == burn,
                Err(kind) => r is Err && r->Err_0.reports(kind),
            },
    {
        let holding = TokenHolding::unpack(user_token_account.data.as_slice())?;
        let header = match VendingMachineBufferHeader::unpack(buffer.data.as_slice()) {
            Some(header) => header,
            None => {
                return Err(Rejection::new(EchoError::NotInitialized));
            },
        };
        holding.check_payment(&mint.key, &user.key, header.price)?;
        guard_write(
            Family::Vending,
            program_id,
            &buffer.key,
            &mint.key,
            header.bump,
            header.price,
        )?;
        Ok(
            Burn {
                holding: user_token_account.key,
                mint: mint.key,
                authority: user.key,
                amount: header.price,
            },
        )
    }

    /// Checks that the seeds of a new managed buffer derive the address of
    /// `buffer`, and names the account to create there.
    fn plan_creation(
        family: Family,
        program_id: &Address,
        buffer: &Account,
        key: &Address,
        payer: &Address,
        number: u64,
        buffer_size: u32,
    ) -> (r: Result<Allocation, Rejection>)
        ensures
            match creation_outcome(
                family,
                program_id@,
                buffer@,
                key@,
                payer@,
                number,
                buffer_size,
            ) {
                Ok(allocation) => r is Ok && r->Ok_0@ == allocation,
                Err(kind) => r is Err && r->Err_0.reports(kind),
            },
    {
        let bump = guard_creation(family, program_id, &buffer.key, key, number)?;
        Ok(
            Allocation {
                family,
                payer: *payer,
                buffer: buffer.key,
                owner: *program_id,
                key: *key,
                number,
                bump,
                space: HEADER_LEN as u64 + buffer_size as u64,
            },
        )
    }

    /// Processes an instruction up to the point where the host has to act.
    ///
    /// On `Ok(Step::Done)` the instruction is finished and the buffer, the
    /// first account, holds what it writes. On another step nothing is
    /// changed yet: the host does what the step names and resumes. On `Err`
    /// nothing is changed at all.
    pub fn process_instruction(
        program_id: &Address,
        accounts: &mut [Account],
        instruction_data: &[u8],
    ) -> (r: Result<Step, Rejection>)
        ensures
            match instruction_outcome(program_id@, views(old(accounts)@), instruction_data@) {
                Ok((step, after)) => r is Ok && r->Ok_0@ == step && views(final(accounts)@)
                    == after,
                Err(kind) => r is Err && r->Err_0.reports(kind) && views(final(accounts)@)
                    == views(old(accounts)@),
            },
    {
        let instruction = EchoInstruction::unpack(instruction_data)?;
        match instruction {
            EchoInstruction::Echo { data } => {
                if accounts.len() < 1 {
                    return Err(Rejection::new(EchoError::NotEnoughAccountKeys));
                }
                Self::process_echo(&mut accounts[0], data.as_slice())?;
                Ok(Step::Done)
            },
            EchoInstruction::InitializeAuthorizedEcho { buffer_seed, buffer_size } => {
                if accounts.len() < 3 {
                    return Err(Rejection::new(EchoError::NotEnoughAccountKeys));
                }
                let allocation = Self::process_initialize_authorized_echo(
                    program_id,
                    &accounts[0],
                    &accounts[1],
                    buffer_seed,
                    buffer_size,
                )?;
                Ok(Step::CreateAccount(allocation))
            },
            EchoInstruction::AuthorizedEcho { data } => {
                if accounts.len() < 2 {
                    return Err(Rejection::new(EchoError::NotEnoughAccountKeys));
                }
                let (head, rest) = accounts.split_at_mut(1);
                Self::process_authorized_echo(
                    program_id,
                    &mut head[0],
                    &rest[0],
                    data.as_slice(),
                )?;
                Ok(Step::Done)
            },
            EchoInstruction::InitializeVendingMachineEcho { price, buffer_size } => {
                if accounts.len() < 4 {
                    return Err(Rejection::new(EchoError::NotEnoughAccountKeys));
                }
                let allocation = Self::process_initialize_vending_machine_echo(
                    program_id,
                    &accounts[0],
                    &accounts[1],
                    &accounts[2],
                    price,
                    buffer_size,
                )?;
                Ok(Step::CreateAccount(allocation))
            },
            EchoInstruction::VendingMachineEcho { data } => {
                if accounts.len() < 5 {
                    return Err(Rejection::new(EchoError::NotEnoughAccountKeys));
                }
                let burn = Self::process_vending_machine_echo(
                    program_id,
                    &accounts[0],
                    &accounts[1],
                    &accounts[2],
                    &accounts[3],
                )?;
                Ok(Step::Burn { burn, buffer: accounts[0].key, payload: data })
            },
        }
    }

    /// Finishes an instruction once the host has done what `step` names.
    ///
    /// After a creation the header is set in the new account; after a sale
    /// the payload is written. The first account has to be the buffer that
    /// the step names, as the host holds it now. On `Err` nothing is changed.
    pub fn resume(step: &Step, accounts: &mut [Account]) -> (r: Result<(), Rejection>)
        ensures
            match resume_outcome(step@, views(old(accounts)@)) {
                Ok(after) => r is Ok && views(final(accounts)@) == after,
                Err(kind) => r is Err && r->Err_0.reports(kind) && views(final(accounts)@)
                    == views(old(accounts)@),
            },
    {
        match step {
            Step::Done => Ok(()),
            Step::CreateAccount(allocation) => {
                if accounts.len() < 1 {
                    return Err(Rejection::new(EchoError::NotEnoughAccountKeys));
                }
                if accounts[0].key != allocation.buffer {
                    return Err(Rejection::new(EchoError::AddressMismatch));
                }
                write_header(&mut accounts[0].data, allocation.bump, allocation.number)
            },
            Step::Burn { burn, buffer, payload } => {
                if accounts.len() < 1 {
                    return Err(Rejection::new(EchoError::NotEnoughAccountKeys));
                }
                if accounts[0].key != *buffer {
                    return Err(Rejection::new(EchoError::AddressMismatch));
                }
                overwrite(&mut accounts[0].data, payload.as_slice())
            },
        }
    }
}

/// A plain buffer of zeros takes the start of the payload and keeps its
/// other zeros, and a buffer that holds a byte other than zero takes nothing.
pub proof fn lemma_echo_writes_once(buffer: AccountView, payload: Seq<u8>, later: Seq<u8>)
    requires
        all_zero(buffer.data),
    ensures
        echo_outcome(buffer, payload) == if buffer.data.len() > 0 {
            Ok::<Seq<u8>, EchoError>(written_once(buffer.data, payload))
        } else {
            Err::<Seq<u8>, EchoError>(EchoError::NotInitialized)
        },
        ({
            let after = written_once(buffer.data, payload);
            let size = if buffer.data.len() < payload.len() {
                buffer.data.len() as int
            } else {
                payload.len() as int
            };
            &&& after.len() == buffer.data.len()
            &&& after.subrange(0, size) == payload.subrange(0, size)
            &&& after.subrange(size, after.len() as int) == buffer.data.subrange(
                size,
                buffer.data.len() as int,
            )
            &&& all_zero(after.subrange(size, after.len() as int))
            &&& !all_zero(after) ==> echo_outcome(buffer.with_data(after), later) == Err::<
                Seq<u8>,
                EchoError,
            >(EchoError::NonEmptyBuffer)
        }),
{
    lemma_write_once(buffer.data, payload, later);
}

/// An authorized buffer forgets what was written before: a second write is
/// accepted just where it would have been accepted in place of the first, and
/// leaves what it would have left then. Behind the header stands the second
/// payload, cut or filled with zeros to the room there.
pub proof fn lemma_authorized_echo_forgets(
    program_id: Seq<u8>,
    buffer: AccountView,
    authority: AccountView,
    first: Seq<u8>,
    second: Seq<u8>,
)
    requires
        authorized_echo_outcome(program_id, buffer, authority, first) is Ok,
    ensures
        ({
            let once = buffer.with_data(
                authorized_echo_outcome(program_id, buffer, authority, first)->Ok_0,
            );
            let twice = authorized_echo_outcome(program_id, once, authority, second);
            &&& twice == authorized_echo_outcome(program_id, buffer, authority, second)
            &&& twice is Ok
            &&& twice->Ok_0.len() == buffer.data.len()
            &&& twice->Ok_0.skip(HEADER_LEN as int) == capped(
                second,
                (buffer.data.len() - HEADER_LEN) as nat,
            )
        }),
{
    lemma_overwrite_keeps_header(buffer.data, first);
    lemma_overwrite_forgets(buffer.data, first, second);
    lemma_overwrite_keeps_header(buffer.data, second);
}

/// No write is sold to a holding with less than the price. Where the holding
/// is of the mint and belongs to the user, the reason given is
/// `InsufficientBalance`.
pub proof fn lemma_vending_needs_the_price(
    program_id: Seq<u8>,
    buffer: AccountView,
    user: AccountView,
    user_token_account: AccountView,
    mint: AccountView,
)
    requires
        holding_in(user_token_account.data) is Some,
        header_of(buffer.data) is Some,
        holding_in(user_token_account.data)->Some_0.amount < header_of(buffer.data)->Some_0.1,
    ensures
        vending_machine_echo_outcome(program_id, buffer, user, user_token_account, mint) is Err,
        ({
            let holding = holding_in(user_token_account.data)->Some_0;
            holding.mint == mint.key && holding.owner == user.key
                ==> vending_machine_echo_outcome(
                program_id,
                buffer,
                user,
                user_token_account,
                mint,
            ) == Err::<BurnView, EchoError>(EchoError::InsufficientBalance)
        }),
{
}

/// A sale asks for the price in the header and for nothing else: the units to
/// destroy are the price, of the user's own holding, which holds that much,
/// so that the holding is left with what it held less the price. Resumed, the
/// sale writes the payload as a write into an authorized buffer would.
pub proof fn lemma_vending_sells_for_the_price(
    program_id: Seq<u8>,
    accounts: Seq<AccountView>,
    payload: Seq<u8>,
)
    requires
        accounts.len() >= 5,
        vending_machine_echo_outcome(
            program_id,
            accounts[0],
            accounts[1],
            accounts[2],
            accounts[3],
        ) is Ok,
    ensures
        ({
            let burn = vending_machine_echo_outcome(
                program_id,
                accounts[0],
                accounts[1],
                accounts[2],
                accounts[3],
            )->Ok_0;
            let holding = holding_in(accounts[2].data)->Some_0;
            let step = StepView::Burn { burn, buffer: accounts[0].key, payload };
            &&& header_of(accounts[0].data) is Some
            &&& burn.amount == header_of(accounts[0].data)->Some_0.1
            &&& burn.holding == accounts[2].key
            &&& burn.mint == accounts[3].key
            &&& burn.authority == accounts[1].key
            &&& holding.mint == burn.mint
            &&& holding.owner == burn.authority
            &&& burn.amount <= holding.amount
            &&& holding.after_burn(burn.amount).amount == holding.amount - burn.amount
            &&& resume_outcome(step, accounts) == Ok::<Seq<AccountView>, EchoError>(
                first_written(accounts, overwritten(accounts[0].data, payload)),
            )
            &&& overwritten(accounts[0].data, payload).skip(HEADER_LEN as int) == capped(
                payload,
                (accounts[0].data.len() - HEADER_LEN) as nat,
            )
        }),
{
    lemma_overwrite_forgets(accounts[0].data, payload, payload);
}

/// A creation that is resumed leaves a managed buffer: once the account
/// stands with room for a header and the header of the request is set in it,
/// the account holds the buffer of the family and the key of the request.
pub proof fn lemma_creation_sets_up_buffer(
    family: Family,
    program_id: Seq<u8>,
    buffer: AccountView,
    key: Seq<u8>,
    payer: Seq<u8>,
    number: u64,
    buffer_size: u32,
    created: Seq<u8>,
)
    requires
        creation_outcome(family, program_id, buffer, key, payer, number, buffer_size) is Ok,
        created.len() >= HEADER_LEN,
    ensures
        ({
            let allocation = creation_outcome(
                family,
                program_id,
                buffer,
                key,
                payer,
                number,
                buffer_size,
            )->Ok_0;
            let set = with_header(created, allocation.bump, allocation.number);
            &&& allocation.family == family
            &&& allocation.buffer == buffer.key
            &&& allocation.owner == program_id
            &&& allocation.payer == payer
            &&& allocation.number == number
            &&& allocation.space == HEADER_LEN + buffer_size
            &&& write_header_outcome(created, allocation.bump, allocation.number) == Ok::<
                Seq<u8>,
                EchoError,
            >(set)
            &&& set.len() == created.len()
            &&& header_of(set) == Some((allocation.bump, number))
            &&& is_managed(family, program_id, buffer.with_data(set), key)
        }),
{
    let allocation = creation_outcome(
        family,
        program_id,
        buffer,
        key,
        payer,
        number,
        buffer_size,
    )->Ok_0;
    lemma_created_may_be_written(family, program_id, buffer.key, key, number);
    lemma_header_round_trip(created, allocation.bump, allocation.number);
}

/// A write leaves a managed buffer a managed buffer, of the same family, key
/// and length.
pub proof fn lemma_write_keeps_buffer(
    family: Family,
    program_id: Seq<u8>,
    buffer: AccountView,
    key: Seq<u8>,
    payload: Seq<u8>,
)
    requires
        is_managed(family, program_id, buffer, key),
    ensures
        is_managed(
            family,
            program_id,
            buffer.with_data(overwritten(buffer.data, payload)),
            key,
        ),
        overwritten(buffer.data, payload).len() == buffer.data.len(),
{
    lemma_overwrite_keeps_header(buffer.data, payload);
}

/// A buffer that was created takes the writes of its authority: once the
/// creation is resumed, every write that the authority signs is accepted.
pub proof fn lemma_created_buffer_obeys_authority(
    program_id: Seq<u8>,
    buffer: AccountView,
    authority: AccountView,
    buffer_seed: u64,
    buffer_size: u32,
    created: Seq<u8>,
    payload: Seq<u8>,
)
    requires
        initialize_authorized_echo_outcome(
            program_id,
            buffer,
            authority,
            buffer_seed,
            buffer_size,
        ) is Ok,
        created.len() >= HEADER_LEN,
    ensures
        ({
            let allocation = initialize_authorized_echo_outcome(
                program_id,
                buffer,
                authority,
                buffer_seed,
                buffer_size,
            )->Ok_0;
            let set = with_header(created, allocation.bump, allocation.number);
            authorized_echo_outcome(program_id, buffer.with_data(set), authority, payload)
                == Ok::<Seq<u8>, EchoError>(overwritten(set, payload))
        }),
{
    lemma_creation_sets_up_buffer(
        Family::Authorized,
        program_id,
        buffer,
        authority.key,
        authority.key,
        buffer_seed,
        buffer_size,
        created,
    );
}

/// A vending buffer that was created sells at its price: once the creation
/// is resumed, a write is sold to every user whose holding of the mint holds
/// the price, and the units to destroy are the price.
pub proof fn lemma_created_buffer_sells(
    program_id: Seq<u8>,
    buffer: AccountView,
    mint: AccountView,
    payer: AccountView,
    price: u64,
    buffer_size: u32,
    created: Seq<u8>,
    user: AccountView,
    user_token_account: AccountView,
)
    requires
        initialize_vending_machine_echo_outcome(
            program_id,
            buffer,
            mint,
            payer,
            price,
            buffer_size,
        ) is Ok,
        created.len() >= HEADER_LEN,
        holding_in(user_token_account.data) is Some,
        payment_outcome(
            holding_in(user_token_account.data)->Some_0,
            mint.key,
            user.key,
            price,
        ) is Ok,
    ensures
        ({
            let allocation = initialize_vending_machine_echo_outcome(
                program_id,
                buffer,
                mint,
                payer,
                price,
                buffer_size,
            )->Ok_0;
            let set = with_header(created, allocation.bump, allocation.number);
            vending_machine_echo_outcome(
                program_id,
                buffer.with_data(set),
                user,
                user_token_account,
                mint,
            ) == Ok::<BurnView, EchoError>(
                BurnView {
                    holding: user_token_account.key,
                    mint: mint.key,
                    authority: user.key,
                    amount: price,
                },
            )
        }),
{
    lemma_creation_sets_up_buffer(
        Family::Vending,
        program_id,
        buffer,
        mint.key,
        payer.key,
        price,
        buffer_size,
        created,
    );
}

/// The work that a step asks of the host is on accounts of the instruction:
/// each place that the step names is a place in the list, and the accounts
/// there are the ones that the request names by address.
pub proof fn lemma_step_names_its_accounts(
    program_id: Seq<u8>,
    accounts: Seq<AccountView>,
    input: Seq<u8>,
)
    requires
        instruction_outcome(program_id, accounts, input) is Ok,
    ensures
        ({
            let step = instruction_outcome(program_id, accounts, input)->Ok_0.0;
            let places = step.host_accounts();
            &&& forall|i: int| 0 <= i < places.len() ==> places[i] < accounts.len()
            &&& step matches StepView::CreateAccount(allocation) ==> {
                &&& accounts[places[0] as int].key == allocation.payer
                &&& accounts[places[1] as int].key == allocation.buffer
            }
            &&& step matches StepView::Burn { burn, buffer, .. } ==> {
                &&& accounts[places[0] as int].key == burn.holding
                &&& accounts[places[1] as int].key == burn.mint
                &&& accounts[places[2] as int].key == burn.authority
                &&& accounts[0].key == buffer
            }
        }),
{
}

/// To resume a step a second time changes nothing more: what the first time
/// wrote is what the second time writes.
pub proof fn lemma_resume_twice_is_once(step: StepView, accounts: Seq<AccountView>)
    requires
        resume_outcome(step, accounts) is Ok,
    ensures
        resume_outcome(step, resume_outcome(step, accounts)->Ok_0) == resume_outcome(
            step,
            accounts,
        ),
{
    let once = resume_outcome(step, accounts)->Ok_0;
    match step {
        StepView::Done => {},
        StepView::CreateAccount(allocation) => {
            let data = accounts[0].data;
            let set = with_header(data, allocation.bump, allocation.number);
            lemma_header_round_trip(data, allocation.bump, allocation.number);
            assert(with_header(set, allocation.bump, allocation.number) =~= set);
            assert(first_written(once, set) =~= once);
        },
        StepView::Burn { burn, buffer, payload } => {
            lemma_overwrite_forgets(accounts[0].data, payload, payload);
            lemma_overwrite_keeps_header(accounts[0].data, payload);
            assert(first_written(once, overwritten(accounts[0].data, payload)) =~= once);
        },
    }
}

/// An instruction in its wire form leads to what the instruction leads to.
pub proof fn lemma_wire_form_is_processed(
    program_id: Seq<u8>,
    accounts: Seq<AccountView>,
    instruction: InstructionView,
)
    requires
        instruction.fits(),
    ensures
        instruction_outcome(program_id, accounts, wire_format(instruction)) == operation_outcome(
            program_id,
            accounts,
            instruction,
        ),
{
    lemma_parse_wire_format(instruction);
}

/// An instruction changes the first account at most, and of the first account
/// the stored bytes at most, and these only where it is done at once: where
/// the host has to act first, nothing is changed yet.
pub proof fn lemma_instruction_writes_the_buffer_only(
    program_id: Seq<u8>,
    accounts: Seq<AccountView>,
    input: Seq<u8>,
)
    requires
        instruction_outcome(program_id, accounts, input) is Ok,
    ensures
        ({
            let (step, after) = instruction_outcome(program_id, accounts, input)->Ok_0;
            &&& accounts.len() > 0
            &&& after.len() == accounts.len()
            &&& after[0] == accounts[0].with_data(after[0].data)
            &&& forall|i: int| 1 <= i < accounts.len() ==> after[i] == accounts[i]
            &&& step != StepView::Done ==> after == accounts
        }),
{
}

} // verus!
