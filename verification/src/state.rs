//! What stands in a buffer, and the two ways of writing a payload into one.
//!
//! A plain buffer is all payload. A managed buffer opens with a header of nine
//! bytes (the bump of its address, then a number of eight bytes, lowest
//! first) and holds its payload behind it.

use crate::codec::{le_bytes, le_value, read_u64, u64_bytes};
use crate::codec::{lemma_le_bytes_len, lemma_le_value_bound};
use crate::codec::{lemma_radix_values, lemma_value_of_bytes};
use crate::error::{EchoError, Rejection};
use vstd::prelude::*;

verus! {

/// The length of the header of a managed buffer.
pub const HEADER_LEN: usize = 9;

/// The header of an authorized buffer.
#[derive(Clone, Copy, Debug, PartialEq, Eq, Hash, Structural)]
pub struct AuthorizedBufferHeader {
    /// The bump of the buffer's address.
    pub bump: u8,
    /// The seed that the authority chose for this buffer.
    pub buffer_seed: u64,
}

/// The header of a vending buffer.
#[derive(Clone, Copy, Debug, PartialEq, Eq, Hash, Structural)]
pub struct VendingMachineBufferHeader {
    /// The bump of the buffer's address.
    pub bump: u8,
    /// What one write into this buffer costs, in units of its mint.
    pub price: u64,
}

/// The nine bytes of a header.
pub open spec fn header_bytes(bump: u8, number: u64) -> Seq<u8> {
    seq![bump] + le_bytes(number as nat, 8)
}

/// The bump and the number in the header of `buffer`, where it has room for one.
pub open spec fn header_of(buffer: Seq<u8>) -> Option<(u8, u64)> {
    if buffer.len() < HEADER_LEN {
        None
    } else {
        Some((buffer[0], le_value(buffer.subrange(1, HEADER_LEN as int)) as u64))
    }
}

/// `buffer` with its first nine bytes replaced by the header given.
pub open spec fn with_header(buffer: Seq<u8>, bump: u8, number: u64) -> Seq<u8> {
    header_bytes(bump, number) + buffer.skip(HEADER_LEN as int)
}

/// Every byte of `buffer` is zero.
pub open spec fn all_zero(buffer: Seq<u8>) -> bool {
    forall|i: int| 0 <= i < buffer.len() ==> buffer[i] == 0
}

/// `payload` cut or filled with zeros to `room` bytes.
pub open spec fn capped(payload: Seq<u8>, room: nat) -> Seq<u8> {
    Seq::new(
        room,
        |i: int|
            if i < payload.len() {
                payload[i]
            } else {
                0u8
            },
    )
}

/// A plain buffer after a write: as much of `payload` as fits, and behind it
/// what stood there before.
pub open spec fn written_once(buffer: Seq<u8>, payload: Seq<u8>) -> Seq<u8> {
    Seq::new(
        buffer.len(),
        |i: int|
            if i < payload.len() {
                payload[i]
            } else {
                buffer[i]
            },
    )
}

/// A managed buffer after a write: its header as before, then `payload` cut
/// or filled with zeros to the room behind the header.
pub open spec fn overwritten(buffer: Seq<u8>, payload: Seq<u8>) -> Seq<u8> {
    buffer.subrange(0, HEADER_LEN as int) + capped(
        payload,
        (buffer.len() - HEADER_LEN) as nat,
    )
}

/// What a write into a plain buffer comes to: the buffer after it, or why
/// nothing was written.
pub open spec fn write_once_outcome(buffer: Seq<u8>, payload: Seq<u8>) -> Result<
    Seq<u8>,
    EchoError,
> {
    if !all_zero(buffer) {
        Err(EchoError::NonEmptyBuffer)
    } else if buffer.len() == 0 {
        Err(EchoError::NotInitialized)
    } else {
        Ok(written_once(buffer, payload))
    }
}

/// What a write into a managed buffer comes to.
pub open spec fn overwrite_outcome(buffer: Seq<u8>, payload: Seq<u8>) -> Result<
    Seq<u8>,
    EchoError,
> {
    if buffer.len() < HEADER_LEN {
        Err(EchoError::NotInitialized)
    } else {
        Ok(overwritten(buffer, payload))
    }
}

/// What setting the header of a managed buffer comes to.
pub open spec fn write_header_outcome(buffer: Seq<u8>, bump: u8, number: u64) -> Result<
    Seq<u8>,
    EchoError,
> {
    if buffer.len() < HEADER_LEN {
        Err(EchoError::NotInitialized)
    } else {
        Ok(with_header(buffer, bump, number))
    }
}

/// A call that was to change `before` into `after` kept to `outcome`: it
/// either succeeded and left what the outcome holds, or it was rejected for
/// the outcome's reason and changed nothing.
pub open spec fn kept_to(
    outcome: Result<Seq<u8>, EchoError>,
    r: Result<(), Rejection>,
    before: Seq<u8>,
    after: Seq<u8>,
) -> bool {
    match outcome {
        Ok(written) => r is Ok && after == written,
        Err(kind) => r is Err && r->Err_0.reports(kind) && after == before,
    }
}

/// Says whether every byte of `buffer` is zero.
pub fn is_all_zero(buffer: &[u8]) -> (zero: bool)
    ensures
        zero == all_zero(buffer@),
{
    let mut at: usize = 0;
    while at < buffer.len()
        invariant
            at <= buffer.len(),
            forall|i: int| 0 <= i < at ==> buffer@[i] == 0,
        decreases buffer.len() - at,
    {
        if buffer[at] != 0 {
            return false;
        }
        at += 1;
    }
    true
}

/// Reads the bump and the number from the header of `buffer`.
pub fn read_header(buffer: &[u8]) -> (header: Option<(u8, u64)>)
    ensures
        header == header_of(buffer@),
{
    match read_u64(buffer, 1) {
        Some(number) => {
            proof {
                lemma_le_value_bound(buffer@.subrange(1, 9));
                lemma_radix_values();
            }
            Some((buffer[0], number))
        },
        None => None,
    }
}

/// Sets the header of `buffer` and leaves the bytes behind it as they are.
/// Rejects a buffer without room for a header with `NotInitialized`.
pub fn write_header(buffer: &mut Vec<u8>, bump: u8, number: u64) -> (r: Result<(), Rejection>)
    ensures
        kept_to(
            write_header_outcome(old(buffer)@, bump, number),
            r,
            old(buffer)@,
            final(buffer)@,
        ),
{
    if buffer.len() < HEADER_LEN {
        return Err(Rejection::new(EchoError::NotInitialized));
    }
    let digits = u64_bytes(number);
    buffer[0] = bump;
    let mut at: usize = 0;
    while at < 8
        invariant
            at <= 8,
            digits@ == le_bytes(number as nat, 8),
            digits@.len() == 8,
            buffer@.len() == old(buffer)@.len(),
            buffer@.len() >= HEADER_LEN,
            buffer@[0] == bump,
            forall|i: int| 0 <= i < at ==> buffer@[1 + i] == digits@[i],
            forall|i: int| HEADER_LEN <= i < buffer@.len() ==> buffer@[i] == old(buffer)@[i],
        decreases 8 - at,
    {
        buffer[1 + at] = digits[at];
        at += 1;
    }
    assert(buffer@ =~= with_header(old(buffer)@, bump, number));
    Ok(())
}

/// Writes `payload` into a plain buffer that nothing was written to yet.
///
/// Rejects a buffer that holds a byte other than zero with `NonEmptyBuffer`,
/// and a buffer of no bytes with `NotInitialized`. Otherwise the buffer takes
/// as much of the payload as it has room for, from its start, and keeps the
/// rest of its bytes.
pub fn write_once(buffer: &mut Vec<u8>, payload: &[u8]) -> (r: Result<(), Rejection>)
    ensures
        kept_to(write_once_outcome(old(buffer)@, payload@), r, old(buffer)@, final(buffer)@),
{
    if !is_all_zero(buffer.as_slice()) {
        return Err(Rejection::new(EchoError::NonEmptyBuffer));
    }
    if buffer.len() == 0 {
        return Err(Rejection::new(EchoError::NotInitialized));
    }
    let room = buffer.len();
    let size = if room < payload.len() {
        room
    } else {
        payload.len()
    };
    let mut at: usize = 0;
    while at < size
        invariant
            at <= size,
            size <= payload@.len(),
            size <= buffer@.len(),
            buffer@.len() == old(buffer)@.len(),
            forall|i: int| 0 <= i < at ==> buffer@[i] == payload@[i],
            forall|i: int| at <= i < buffer@.len() ==> buffer@[i] == old(buffer)@[i],
        decreases size - at,
    {
        buffer[at] = payload[at];
        at += 1;
    }
    assert(buffer@ =~= written_once(old(buffer)@, payload@));
    Ok(())
}

/// Writes `payload` into a managed buffer, over whatever was written before.
///
/// Rejects a buffer without room for a header with `NotInitialized`.
/// Otherwise the header stays, the room behind it takes as much of the
/// payload as fits, and what room is left is filled with zeros.
pub fn overwrite(buffer: &mut Vec<u8>, payload: &[u8]) -> (r: Result<(), Rejection>)
    ensures
        kept_to(overwrite_outcome(old(buffer)@, payload@), r, old(buffer)@, final(buffer)@),
{
    if buffer.len() < HEADER_LEN {
        return Err(Rejection::new(EchoError::NotInitialized));
    }
    let room = buffer.len() - HEADER_LEN;
    let size = if room < payload.len() {
        room
    } else {
        payload.len()
    };
    let mut at: usize = 0;
    while at < size
        invariant
            at <= size <= room,
            size <= payload@.len(),
            buffer.len() >= HEADER_LEN,
            room == buffer.len() - HEADER_LEN,
            buffer@.len() == old(buffer)@.len(),
            forall|i: int| 0 <= i < HEADER_LEN ==> buffer@[i] == old(buffer)@[i],
            forall|i: int| 0 <= i < at ==> buffer@[HEADER_LEN + i] == payload@[i],
        decreases size - at,
    {
        buffer[HEADER_LEN + at] = payload[at];
        at += 1;
    }
    while at < room
        invariant
            size <= at <= room,
            size == if room < payload@.len() {
                room as int
            } else {
                payload@.len() as int
            },
            buffer.len() >= HEADER_LEN,
            room == buffer.len() - HEADER_LEN,
            buffer@.len() == old(buffer)@.len(),
            forall|i: int| 0 <= i < HEADER_LEN ==> buffer@[i] == old(buffer)@[i],
            forall|i: int| 0 <= i < size ==> buffer@[HEADER_LEN + i] == payload@[i],
            forall|i: int| HEADER_LEN + size <= i < HEADER_LEN + at ==> buffer@[i] == 0,
        decreases room - at,
    {
        buffer[HEADER_LEN + at] = 0;
        at += 1;
    }
    assert(buffer@ =~= overwritten(old(buffer)@, payload@));
    Ok(())
}

impl AuthorizedBufferHeader {
    /// The header that opens `buffer`, where it has room for one.
    pub fn unpack(buffer: &[u8]) -> (header: Option<AuthorizedBufferHeader>)
        ensures
            match header {
                Some(header) => header_of(buffer@) == Some((header.bump, header.buffer_seed)),
                None => header_of(buffer@) is None,
            },
    {
        match read_header(buffer) {
            Some((bump, buffer_seed)) => Some(AuthorizedBufferHeader { bump, buffer_seed }),
            None => None,
        }
    }

    /// Sets this header at the start of `buffer`.
    pub fn pack(&self, buffer: &mut Vec<u8>) -> (r: Result<(), Rejection>)
        ensures
            kept_to(
                write_header_outcome(old(buffer)@, self.bump, self.buffer_seed),
                r,
                old(buffer)@,
                final(buffer)@,
            ),
    {
        write_header(buffer, self.bump, self.buffer_seed)
    }
}

impl VendingMachineBufferHeader {
    /// The header that opens `buffer`, where it has room for one.
    pub fn unpack(buffer: &[u8]) -> (header: Option<VendingMachineBufferHeader>)
        ensures
            match header {
                Some(header) => header_of(buffer@) == Some((header.bump, header.price)),
                None => header_of(buffer@) is None,
            },
    {
        match read_header(buffer) {
            Some((bump, price)) => Some(VendingMachineBufferHeader { bump, price }),
            None => None,
        }
    }

    /// Sets this header at the start of `buffer`.
    pub fn pack(&self, buffer: &mut Vec<u8>) -> (r: Result<(), Rejection>)
        ensures
            kept_to(
                write_header_outcome(old(buffer)@, self.bump, self.price),
                r,
                old(buffer)@,
                final(buffer)@,
            ),
    {
        write_header(buffer, self.bump, self.price)
    }
}

/// A header that was set is the header that is read, and setting it changes
/// neither the length of the buffer nor what stands behind the header.
pub proof fn lemma_header_round_trip(buffer: Seq<u8>, bump: u8, number: u64)
    requires
        buffer.len() >= HEADER_LEN,
    ensures
        with_header(buffer, bump, number).len() == buffer.len(),
        header_of(with_header(buffer, bump, number)) == Some((bump, number)),
        with_header(buffer, bump, number).skip(HEADER_LEN as int) == buffer.skip(
            HEADER_LEN as int,
        ),
{
    let digits = le_bytes(number as nat, 8);
    let set = with_header(buffer, bump, number);
    lemma_le_bytes_len(number as nat, 8);
    lemma_radix_values();
    lemma_value_of_bytes(number as nat, 8);
    assert(set.subrange(1, HEADER_LEN as int) =~= digits);
}

/// A write into a managed buffer keeps its length and its header.
pub proof fn lemma_overwrite_keeps_header(buffer: Seq<u8>, payload: Seq<u8>)
    requires
        buffer.len() >= HEADER_LEN,
    ensures
        overwritten(buffer, payload).len() == buffer.len(),
        overwritten(buffer, payload).subrange(0, HEADER_LEN as int) == buffer.subrange(
            0,
            HEADER_LEN as int,
        ),
        header_of(overwritten(buffer, payload)) == header_of(buffer),
{
    let after = overwritten(buffer, payload);
    assert(after.subrange(1, HEADER_LEN as int) =~= buffer.subrange(1, HEADER_LEN as int));
}

/// A plain buffer of zeros takes the start of the payload and keeps the rest
/// of its zeros (a buffer of no bytes is turned down, and has nothing to
/// keep); once it holds a byte that is not zero, no further write is accepted.
pub proof fn lemma_write_once(buffer: Seq<u8>, payload: Seq<u8>, later: Seq<u8>)
    requires
        all_zero(buffer),
    ensures
        write_once_outcome(buffer, payload) == if buffer.len() > 0 {
            Ok::<Seq<u8>, EchoError>(written_once(buffer, payload))
        } else {
            Err::<Seq<u8>, EchoError>(EchoError::NotInitialized)
        },
        ({
            let after = written_once(buffer, payload);
            let size = if buffer.len() < payload.len() {
                buffer.len() as int
            } else {
                payload.len() as int
            };
            &&& after.len() == buffer.len()
            &&& after.subrange(0, size) == payload.subrange(0, size)
            &&& after.subrange(size, after.len() as int) == buffer.subrange(
                size,
                buffer.len() as int,
            )
            &&& all_zero(after.subrange(size, after.len() as int))
            &&& !all_zero(after) ==> write_once_outcome(after, later) == Err::<
                Seq<u8>,
                EchoError,
            >(EchoError::NonEmptyBuffer)
        }),
{
}

/// What a managed buffer holds after two writes is what it holds after the
/// second alone: behind its header stands the second payload, cut or filled
/// with zeros to the room there, whatever the first payload was.
pub proof fn lemma_overwrite_forgets(buffer: Seq<u8>, first: Seq<u8>, second: Seq<u8>)
    requires
        buffer.len() >= HEADER_LEN,
    ensures
        overwritten(overwritten(buffer, first), second) == overwritten(buffer, second),
        overwritten(overwritten(buffer, first), second).skip(HEADER_LEN as int) == capped(
            second,
            (buffer.len() - HEADER_LEN) as nat,
        ),
        overwrite_outcome(overwritten(buffer, first), second) == overwrite_outcome(
            buffer,
            second,
        ),
{
    lemma_overwrite_keeps_header(buffer, first);
}

} // verus!
