//! The five instructions and how they stand on the wire.
//!
//! An instruction is one byte that says which it is, then its fields: a
//! number of eight bytes and a capacity of four for the two that create a
//! buffer, and a payload behind its length in four bytes for the three that
//! write one. All numbers stand lowest byte first, and nothing may follow the
//! last field.

use crate::codec::{le_bytes, le_value, read_u32, read_u64, u32_bytes, u64_bytes};
use crate::codec::{lemma_bytes_of_value, lemma_le_bytes_len, lemma_le_value_bound};
use crate::codec::{lemma_radix_values, lemma_value_of_bytes};
use crate::error::{EchoError, Rejection};
use vstd::prelude::*;
use vstd::slice::slice_to_vec;

verus! {

/// An instruction of the program.
#[derive(Clone, Debug, PartialEq, Eq)]
pub enum EchoInstruction {
    /// Write `data` into a plain buffer that is still all zero.
    Echo { data: Vec<u8> },
    /// Create the authorized buffer of the signing authority and
    /// `buffer_seed`, with room for `buffer_size` bytes of payload.
    InitializeAuthorizedEcho { buffer_seed: u64, buffer_size: u32 },
    /// Write `data` into an authorized buffer, as its authority.
    AuthorizedEcho { data: Vec<u8> },
    /// Create the vending buffer of a mint and `price`, with room for
    /// `buffer_size` bytes of payload.
    InitializeVendingMachineEcho { price: u64, buffer_size: u32 },
    /// Write `data` into a vending buffer, for its price.
    VendingMachineEcho { data: Vec<u8> },
}

/// An instruction as a value of mathematics.
pub ghost enum InstructionView {
    Echo { data: Seq<u8> },
    InitializeAuthorizedEcho { buffer_seed: u64, buffer_size: u32 },
    AuthorizedEcho { data: Seq<u8> },
    InitializeVendingMachineEcho { price: u64, buffer_size: u32 },
    VendingMachineEcho { data: Seq<u8> },
}

impl View for EchoInstruction {
    type V = InstructionView;

    open spec fn view(&self) -> InstructionView {
        match self {
            EchoInstruction::Echo { data } => InstructionView::Echo { data: data@ },
            EchoInstruction::InitializeAuthorizedEcho { buffer_seed, buffer_size } => {
                InstructionView::InitializeAuthorizedEcho {
                    buffer_seed: *buffer_seed,
                    buffer_size: *buffer_size,
                }
            },
            EchoInstruction::AuthorizedEcho { data } => InstructionView::AuthorizedEcho {
                data: data@,
            },
            EchoInstruction::InitializeVendingMachineEcho { price, buffer_size } => {
                InstructionView::InitializeVendingMachineEcho {
                    price: *price,
                    buffer_size: *buffer_size,
                }
            },
            EchoInstruction::VendingMachineEcho { data } => InstructionView::VendingMachineEcho {
                data: data@,
            },
        }
    }
}

impl InstructionView {
    /// The payload, if any, is short enough for its length to stand in four bytes.
    pub open spec fn fits(self) -> bool {
        match self {
            InstructionView::Echo { data } => data.len() <= u32::MAX,
            InstructionView::AuthorizedEcho { data } => data.len() <= u32::MAX,
            InstructionView::VendingMachineEcho { data } => data.len() <= u32::MAX,
            _ => true,
        }
    }
}

/// A payload on the wire: its length in four bytes, then its bytes.
pub open spec fn payload_format(data: Seq<u8>) -> Seq<u8> {
    le_bytes(data.len(), 4) + data
}

/// The fields of a creation on the wire: the number, then the capacity.
pub open spec fn creation_format(number: u64, buffer_size: u32) -> Seq<u8> {
    le_bytes(number as nat, 8) + le_bytes(buffer_size as nat, 4)
}

/// An instruction on the wire.
pub open spec fn wire_format(instruction: InstructionView) -> Seq<u8> {
    match instruction {
        InstructionView::Echo { data } => seq![0u8] + payload_format(data),
        InstructionView::InitializeAuthorizedEcho { buffer_seed, buffer_size } => seq![1u8]
            + creation_format(buffer_seed, buffer_size),
        InstructionView::AuthorizedEcho { data } => seq![2u8] + payload_format(data),
        InstructionView::InitializeVendingMachineEcho { price, buffer_size } => seq![3u8]
            + creation_format(price, buffer_size),
        InstructionView::VendingMachineEcho { data } => seq![4u8] + payload_format(data),
    }
}

/// The payload that `bytes` hold behind their first byte, where the four
/// bytes of its length are there and just so many bytes follow them.
pub open spec fn parse_payload(bytes: Seq<u8>) -> Option<Seq<u8>> {
    if bytes.len() >= 5 && le_value(bytes.subrange(1, 5)) == bytes.len() - 5 {
        Some(bytes.skip(5))
    } else {
        None
    }
}

/// The number and the capacity that `bytes` hold behind their first byte,
/// where they hold just these.
pub open spec fn parse_creation(bytes: Seq<u8>) -> Option<(u64, u32)> {
    if bytes.len() == 13 {
        Some((le_value(bytes.subrange(1, 9)) as u64, le_value(bytes.subrange(9, 13)) as u32))
    } else {
        None
    }
}

/// The instruction that `bytes` are the wire form of, if they are that of any.
pub open spec fn parse(bytes: Seq<u8>) -> Option<InstructionView> {
    if bytes.len() == 0 {
        None
    } else if bytes[0] == 0 {
        match parse_payload(bytes) {
            Some(data) => Some(InstructionView::Echo { data }),
            None => None,
        }
    } else if bytes[0] == 1 {
        match parse_creation(bytes) {
            Some((buffer_seed, buffer_size)) => Some(
                InstructionView::InitializeAuthorizedEcho { buffer_seed, buffer_size },
            ),
            None => None,
        }
    } else if bytes[0] == 2 {
        match parse_payload(bytes) {
            Some(data) => Some(InstructionView::AuthorizedEcho { data }),
            None => None,
        }
    } else if bytes[0] == 3 {
        match parse_creation(bytes) {
            Some((price, buffer_size)) => Some(
                InstructionView::InitializeVendingMachineEcho { price, buffer_size },
            ),
            None => None,
        }
    } else if bytes[0] == 4 {
        match parse_payload(bytes) {
            Some(data) => Some(InstructionView::VendingMachineEcho { data }),
            None => None,
        }
    } else {
        None
    }
}

/// Reads the payload behind the first byte of `input`.
fn unpack_payload(input: &[u8]) -> (data: Option<Vec<u8>>)
    ensures
        match data {
            Some(data) => parse_payload(input@) == Some(data@),
            None => parse_payload(input@) is None,
        },
{
    match read_u32(input, 1) {
        Some(length) => {
            if length as u64 == (input.len() - 5) as u64 {
                Some(slice_to_vec(&input[5..input.len()]))
            } else {
                None
            }
        },
        None => None,
    }
}

/// Reads the number and the capacity behind the first byte of `input`.
fn unpack_creation(input: &[u8]) -> (fields: Option<(u64, u32)>)
    ensures
        fields == parse_creation(input@),
{
    if input.len() != 13 {
        return None;
    }
    match (read_u64(input, 1), read_u32(input, 9)) {
        (Some(number), Some(buffer_size)) => {
            proof {
                lemma_le_value_bound(input@.subrange(1, 9));
                lemma_le_value_bound(input@.subrange(9, 13));
                lemma_radix_values();
            }
            Some((number, buffer_size))
        },
        _ => None,
    }
}

/// Appends `bytes` to `out`.
fn append(out: &mut Vec<u8>, bytes: &[u8])
    ensures
        final(out)@ == old(out)@ + bytes@,
{
    let mut at: usize = 0;
    while at < bytes.len()
        invariant
            at <= bytes.len(),
            out@ == old(out)@ + bytes@.subrange(0, at as int),
        decreases bytes.len() - at,
    {
        out.push(bytes[at]);
        at += 1;
    }
}

/// Writes a payload behind the byte `which`.
fn pack_payload(which: u8, data: &Vec<u8>) -> (r: Result<Vec<u8>, Rejection>)
    ensures
        match r {
            Ok(bytes) => data@.len() <= u32::MAX && bytes@ == seq![which] + payload_format(data@),
            Err(rejection) => data@.len() > u32::MAX && rejection.reports(
                EchoError::InvalidInstructionData,
            ),
        },
{
    if data.len() > u32::MAX as usize {
        return Err(Rejection::new(EchoError::InvalidInstructionData));
    }
    let mut bytes: Vec<u8> = Vec::new();
    bytes.push(which);
    append(&mut bytes, u32_bytes(data.len() as u32).as_slice());
    append(&mut bytes, data.as_slice());
    Ok(bytes)
}

/// Writes a number and a capacity behind the byte `which`.
fn pack_creation(which: u8, number: u64, buffer_size: u32) -> (bytes: Vec<u8>)
    ensures
        bytes@ == seq![which] + creation_format(number, buffer_size),
{
    let mut bytes: Vec<u8> = Vec::new();
    bytes.push(which);
    append(&mut bytes, u64_bytes(number).as_slice());
    append(&mut bytes, u32_bytes(buffer_size).as_slice());
    bytes
}

impl EchoInstruction {
    /// Reads an instruction from its wire form. Bytes that are the wire form
    /// of no instruction are rejected with `InvalidInstructionData`.
    pub fn unpack(input: &[u8]) -> (r: Result<EchoInstruction, Rejection>)
        ensures
            match r {
                Ok(instruction) => parse(input@) == Some(instruction@),
                Err(rejection) => parse(input@) is None && rejection.reports(
                    EchoError::InvalidInstructionData,
                ),
            },
    {
        if input.len() == 0 {
            return Err(Rejection::new(EchoError::InvalidInstructionData));
        }
        let which = input[0];
        let read = if which == 0 {
            match unpack_payload(input) {
                Some(data) => Some(EchoInstruction::Echo { data }),
                None => None,
            }
        } else if which == 1 {
            match unpack_creation(input) {
                Some((buffer_seed, buffer_size)) => Some(
                    EchoInstruction::InitializeAuthorizedEcho { buffer_seed, buffer_size },
                ),
                None => None,
            }
        } else if which == 2 {
            match unpack_payload(input) {
                Some(data) => Some(EchoInstruction::AuthorizedEcho { data }),
                None => None,
            }
        } else if which == 3 {
            match unpack_creation(input) {
                Some((price, buffer_size)) => Some(
                    EchoInstruction::InitializeVendingMachineEcho { price, buffer_size },
                ),
                None => None,
            }
        } else if which == 4 {
            match unpack_payload(input) {
                Some(data) => Some(EchoInstruction::VendingMachineEcho { data }),
                None => None,
            }
        } else {
            None
        };
        match read {
            Some(instruction) => Ok(instruction),
            None => Err(Rejection::new(EchoError::InvalidInstructionData)),
        }
    }

    /// Writes the instruction in its wire form. A payload too long for its
    /// length to stand in four bytes is rejected with `InvalidInstructionData`.
    pub fn pack(&self) -> (r: Result<Vec<u8>, Rejection>)
        ensures
            match r {
                Ok(bytes) => self@.fits() && bytes@ == wire_format(self@),
                Err(rejection) => !self@.fits() && rejection.reports(
                    EchoError::InvalidInstructionData,
                ),
            },
    {
        match self {
            EchoInstruction::Echo { data } => pack_payload(0, data),
            EchoInstruction::InitializeAuthorizedEcho { buffer_seed, buffer_size } => Ok(
                pack_creation(1, *buffer_seed, *buffer_size),
            ),
            EchoInstruction::AuthorizedEcho { data } => pack_payload(2, data),
            EchoInstruction::InitializeVendingMachineEcho { price, buffer_size } => Ok(
                pack_creation(3, *price, *buffer_size),
            ),
            EchoInstruction::VendingMachineEcho { data } => pack_payload(4, data),
        }
    }
}

/// What was written as a payload is read as that payload.
proof fn lemma_payload_round_trip(which: u8, data: Seq<u8>)
    requires
        data.len() <= u32::MAX,
    ensures
        parse_payload(seq![which] + payload_format(data)) == Some(data),
{
    let bytes = seq![which] + payload_format(data);
    lemma_le_bytes_len(data.len(), 4);
    lemma_radix_values();
    lemma_value_of_bytes(data.len(), 4);
    assert(bytes.subrange(1, 5) =~= le_bytes(data.len(), 4));
}

/// What was written as the fields of a creation is read as these fields.
proof fn lemma_creation_round_trip(which: u8, number: u64, buffer_size: u32)
    ensures
        parse_creation(seq![which] + creation_format(number, buffer_size)) == Some(
            (number, buffer_size),
        ),
{
    let bytes = seq![which] + creation_format(number, buffer_size);
    lemma_le_bytes_len(number as nat, 8);
    lemma_le_bytes_len(buffer_size as nat, 4);
    lemma_radix_values();
    lemma_value_of_bytes(number as nat, 8);
    lemma_value_of_bytes(buffer_size as nat, 4);
    assert(bytes.subrange(1, 9) =~= le_bytes(number as nat, 8));
    assert(bytes.subrange(9, 13) =~= le_bytes(buffer_size as nat, 4));
}

/// Bytes that are read as a payload are that payload's wire form.
proof fn lemma_payload_is_canonical(bytes: Seq<u8>)
    requires
        parse_payload(bytes) is Some,
    ensures
        parse_payload(bytes)->Some_0.len() <= u32::MAX,
        bytes == seq![bytes[0]] + payload_format(parse_payload(bytes)->Some_0),
{
    let data = bytes.skip(5);
    let digits = bytes.subrange(1, 5);
    lemma_le_value_bound(digits);
    lemma_radix_values();
    lemma_bytes_of_value(digits);
    assert(bytes =~= seq![bytes[0]] + (digits + data));
}

/// Bytes that are read as the fields of a creation are these fields' wire form.
proof fn lemma_creation_is_canonical(bytes: Seq<u8>)
    requires
        parse_creation(bytes) is Some,
    ensures
        bytes == seq![bytes[0]] + creation_format(
            parse_creation(bytes)->Some_0.0,
            parse_creation(bytes)->Some_0.1,
        ),
{
    let number = bytes.subrange(1, 9);
    let size = bytes.subrange(9, 13);
    lemma_le_value_bound(number);
    lemma_le_value_bound(size);
    lemma_radix_values();
    lemma_bytes_of_value(number);
    lemma_bytes_of_value(size);
    assert(bytes =~= seq![bytes[0]] + (number + size));
}

/// An instruction that was written is read as itself.
pub proof fn lemma_parse_wire_format(instruction: InstructionView)
    requires
        instruction.fits(),
    ensures
        parse(wire_format(instruction)) == Some(instruction),
{
    match instruction {
        InstructionView::Echo { data } => lemma_payload_round_trip(0, data),
        InstructionView::InitializeAuthorizedEcho { buffer_seed, buffer_size } => {
            lemma_creation_round_trip(1, buffer_seed, buffer_size)
        },
        InstructionView::AuthorizedEcho { data } => lemma_payload_round_trip(2, data),
        InstructionView::InitializeVendingMachineEcho { price, buffer_size } => {
            lemma_creation_round_trip(3, price, buffer_size)
        },
        InstructionView::VendingMachineEcho { data } => lemma_payload_round_trip(4, data),
    }
}

/// Bytes are read as an instruction only where they are its wire form: no
/// instruction has two wire forms, and none is read from bytes with anything
/// missing or left over.
pub proof fn lemma_wire_format_parse(bytes: Seq<u8>)
    requires
        parse(bytes) is Some,
    ensures
        parse(bytes)->Some_0.fits(),
        wire_format(parse(bytes)->Some_0) == bytes,
{
    if bytes[0] == 0 || bytes[0] == 2 || bytes[0] == 4 {
        lemma_payload_is_canonical(bytes);
    } else {
        lemma_creation_is_canonical(bytes);
    }
}

} // verus!
