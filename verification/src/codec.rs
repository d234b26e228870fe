//! Little-endian integers of a fixed width, as they stand in instruction
//! data, in buffer headers and in the seeds of derived addresses.

use vstd::prelude::*;

verus! {

/// The number that `bytes` spell, lowest byte first.
pub open spec fn le_value(bytes: Seq<u8>) -> nat
    decreases bytes.len(),
{
    if bytes.len() == 0 {
        0
    } else {
        bytes[0] as nat + 256 * le_value(bytes.drop_first())
    }
}

/// The `width` lowest bytes of `value`, lowest byte first.
pub open spec fn le_bytes(value: nat, width: nat) -> Seq<u8>
    decreases width,
{
    if width == 0 {
        Seq::empty()
    } else {
        seq![(value % 256) as u8] + le_bytes(value / 256, (width - 1) as nat)
    }
}

/// 256 to the power of `width`: the count of numbers that `width` bytes can spell.
pub open spec fn radix(width: nat) -> nat
    decreases width,
{
    if width == 0 {
        1
    } else {
        256 * radix((width - 1) as nat)
    }
}

/// The count of numbers that up to eight bytes can spell.
pub proof fn lemma_radix_values()
    ensures
        radix(0) == 1,
        radix(1) == 0x100,
        radix(2) == 0x1_0000,
        radix(3) == 0x100_0000,
        radix(4) == 0x1_0000_0000,
        radix(5) == 0x100_0000_0000,
        radix(6) == 0x1_0000_0000_0000,
        radix(7) == 0x100_0000_0000_0000,
        radix(8) == 0x1_0000_0000_0000_0000,
{
    reveal_with_fuel(radix, 10);
}

/// A number written in `width` bytes takes `width` bytes.
pub proof fn lemma_le_bytes_len(value: nat, width: nat)
    ensures
        le_bytes(value, width).len() == width,
    decreases width,
{
    if width > 0 {
        lemma_le_bytes_len(value / 256, (width - 1) as nat);
    }
}

/// What `bytes` spell is below the count of numbers that so many bytes can spell.
pub proof fn lemma_le_value_bound(bytes: Seq<u8>)
    ensures
        le_value(bytes) < radix(bytes.len()),
    decreases bytes.len(),
{
    if bytes.len() > 0 {
        lemma_le_value_bound(bytes.drop_first());
    }
}

/// Writing a number that fits and reading it again gives the number.
pub proof fn lemma_value_of_bytes(value: nat, width: nat)
    requires
        value < radix(width),
    ensures
        le_value(le_bytes(value, width)) == value,
    decreases width,
{
    if width > 0 {
        let rest = le_bytes(value / 256, (width - 1) as nat);
        let all = le_bytes(value, width);
        lemma_le_bytes_len(value / 256, (width - 1) as nat);
        assert(all.drop_first() =~= rest);
        lemma_value_of_bytes(value / 256, (width - 1) as nat);
    }
}

/// Reading bytes and writing the number again in the same width gives the bytes.
pub proof fn lemma_bytes_of_value(bytes: Seq<u8>)
    ensures
        le_bytes(le_value(bytes), bytes.len()) == bytes,
    decreases bytes.len(),
{
    if bytes.len() > 0 {
        lemma_bytes_of_value(bytes.drop_first());
    }
}

/// Two numbers that fit and are written alike are the same number.
pub proof fn lemma_le_bytes_injective(a: nat, b: nat, width: nat)
    requires
        a < radix(width),
        b < radix(width),
        le_bytes(a, width) == le_bytes(b, width),
    ensures
        a == b,
{
    lemma_value_of_bytes(a, width);
    lemma_value_of_bytes(b, width);
}

/// Reads the `width` bytes of `bytes` that start at `at`.
fn read_le(bytes: &[u8], at: usize, width: usize) -> (value: u64)
    requires
        width <= 8,
        at + width <= bytes.len(),
    ensures
        value == le_value(bytes@.subrange(at as int, at + width)),
{
    let mut value: u64 = 0;
    let mut left: usize = width;
    while left > 0
        invariant
            left <= width <= 8,
            at + width <= bytes.len(),
            value == le_value(bytes@.subrange(at + left, at + width)),
        decreases left,
    {
        let ghost tail = bytes@.subrange(at + left, at + width);
        left -= 1;
        let ghost span = bytes@.subrange(at + left, at + width);
        proof {
            lemma_le_value_bound(tail);
            reveal_with_fuel(radix, 9);
            assert(span.drop_first() =~= tail);
        }
        value = value * 256 + bytes[at + left] as u64;
    }
    value
}

/// Writes the `width` lowest bytes of `value`.
fn write_le(value: u64, width: usize) -> (bytes: Vec<u8>)
    requires
        width <= 8,
    ensures
        bytes@ == le_bytes(value as nat, width as nat),
{
    let mut bytes: Vec<u8> = Vec::new();
    let mut rest: u64 = value;
    let mut done: usize = 0;
    while done < width
        invariant
            done <= width,
            bytes@.len() == done,
            bytes@ + le_bytes(rest as nat, (width - done) as nat) == le_bytes(
                value as nat,
                width as nat,
            ),
        decreases width - done,
    {
        bytes.push((rest % 256) as u8);
        rest = rest / 256;
        done += 1;
    }
    bytes
}

/// The eight bytes at `at`, read as a number, where `bytes` holds them.
pub fn read_u64(bytes: &[u8], at: usize) -> (value: Option<u64>)
    ensures
        value is Some <==> at + 8 <= bytes.len(),
        value matches Some(v) ==> v == le_value(bytes@.subrange(at as int, at + 8)),
{
    if bytes.len() < 8 || at > bytes.len() - 8 {
        None
    } else {
        Some(read_le(bytes, at, 8))
    }
}

/// The four bytes at `at`, read as a number, where `bytes` holds them.
pub fn read_u32(bytes: &[u8], at: usize) -> (value: Option<u32>)
    ensures
        value is Some <==> at + 4 <= bytes.len(),
        value matches Some(v) ==> v == le_value(bytes@.subrange(at as int, at + 4)),
{
    if bytes.len() < 4 || at > bytes.len() - 4 {
        None
    } else {
        proof {
            lemma_le_value_bound(bytes@.subrange(at as int, at + 4));
            lemma_radix_values();
        }
        Some(read_le(bytes, at, 4) as u32)
    }
}

/// The eight bytes that spell `value`.
pub fn u64_bytes(value: u64) -> (bytes: Vec<u8>)
    ensures
        bytes@ == le_bytes(value as nat, 8),
        bytes@.len() == 8,
{
    proof {
        lemma_le_bytes_len(value as nat, 8);
    }
    write_le(value, 8)
}

/// The four bytes that spell `value`.
pub fn u32_bytes(value: u32) -> (bytes: Vec<u8>)
    ensures
        bytes@ == le_bytes(value as nat, 4),
        bytes@.len() == 4,
{
    proof {
        lemma_le_bytes_len(value as nat, 4);
    }
    write_le(value as u64, 4)
}

} // verus!
