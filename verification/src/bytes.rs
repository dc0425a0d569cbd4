//! Big-endian numbers inside a byte slice.

use vstd::prelude::*;

verus! {

/// The number a run of bytes spells, most significant byte first.
pub open spec fn be_value(bytes: Seq<u8>) -> nat
    decreases bytes.len(),
{
    if bytes.len() == 0 {
        0
    } else {
        be_value(bytes.drop_last()) * 256 + bytes.last() as nat
    }
}

/// The `width` byte number at `at`, or nothing when the data ends before it does.
pub open spec fn be_at(data: Seq<u8>, at: int, width: int) -> Option<nat> {
    if 0 <= at && at + width <= data.len() {
        Some(be_value(data.subrange(at, at + width)))
    } else {
        None
    }
}

/// The big-endian `u16` at `at`.
pub open spec fn u16_at(data: Seq<u8>, at: int) -> Option<u16> {
    match be_at(data, at, 2) {
        Some(value) => Some(value as u16),
        None => None,
    }
}

/// The big-endian `u32` at `at`.
pub open spec fn u32_at(data: Seq<u8>, at: int) -> Option<u32> {
    match be_at(data, at, 4) {
        Some(value) => Some(value as u32),
        None => None,
    }
}

/// The big-endian `u64` at `at`.
pub open spec fn u64_at(data: Seq<u8>, at: int) -> Option<u64> {
    match be_at(data, at, 8) {
        Some(value) => Some(value as u64),
        None => None,
    }
}

/// The four bytes that spell `value`, most significant first.
pub open spec fn u32_bytes(value: u32) -> Seq<u8> {
    seq![
        (value / 0x100_0000) as u8,
        (value / 0x1_0000 % 0x100) as u8,
        (value / 0x100 % 0x100) as u8,
        (value % 0x100) as u8,
    ]
}

/// Two bytes spell a number that fits a `u16`.
pub proof fn lemma_be_value_2(bytes: Seq<u8>)
    requires
        bytes.len() == 2,
    ensures
        be_value(bytes) == bytes[0] * 0x100 + bytes[1],
{
    reveal_with_fuel(be_value, 3);
}

/// Four bytes spell a number that fits a `u32`.
pub proof fn lemma_be_value_4(bytes: Seq<u8>)
    requires
        bytes.len() == 4,
    ensures
        be_value(bytes) == bytes[0] * 0x100_0000 + bytes[1] * 0x1_0000 + bytes[2] * 0x100
            + bytes[3],
{
    reveal_with_fuel(be_value, 5);
}

/// Eight bytes spell the number their two halves do, the first one the high half.
pub proof fn lemma_be_value_8(bytes: Seq<u8>)
    requires
        bytes.len() == 8,
    ensures
        be_value(bytes) == be_value(bytes.subrange(0, 4)) * 0x1_0000_0000 + be_value(
            bytes.subrange(4, 8),
        ),
        be_value(bytes) <= u64::MAX,
{
    lemma_be_value_4(bytes.subrange(0, 4));
    lemma_be_value_4(bytes.subrange(4, 8));
    reveal_with_fuel(be_value, 9);
}

/// Writing a `u32` out and reading it back gives the same number.
pub proof fn u32_survives_its_bytes(value: u32)
    ensures
        u32_at(u32_bytes(value), 0) == Some(value),
{
    let bytes = u32_bytes(value);
    lemma_be_value_4(bytes);
    assert(bytes.subrange(0, 4) =~= bytes);
}

/// The big-endian `u16` at `at`, if the data reaches that far.
pub fn be16(data: &[u8], at: usize) -> (out: Option<u16>)
    ensures
        out == u16_at(data@, at as int),
{
    if data.len() < 2 || at > data.len() - 2 {
        return None;
    }
    proof {
        lemma_be_value_2(data@.subrange(at as int, at + 2));
    }
    Some(data[at] as u16 * 0x100 + data[at + 1] as u16)
}

/// The big-endian `u32` at `at`, if the data reaches that far.
pub fn be32(data: &[u8], at: usize) -> (out: Option<u32>)
    ensures
        out == u32_at(data@, at as int),
{
    if data.len() < 4 || at > data.len() - 4 {
        return None;
    }
    proof {
        lemma_be_value_4(data@.subrange(at as int, at + 4));
    }
    Some(
        data[at] as u32 * 0x100_0000 + data[at + 1] as u32 * 0x1_0000 + data[at + 2] as u32 * 0x100
            + data[at + 3] as u32,
    )
}

/// The big-endian `u64` at `at`, if the data reaches that far.
pub fn be64(data: &[u8], at: usize) -> (out: Option<u64>)
    ensures
        out == u64_at(data@, at as int),
{
    if data.len() < 8 || at > data.len() - 8 {
        return None;
    }
    proof {
        let bytes = data@.subrange(at as int, at + 8);
        lemma_be_value_8(bytes);
        lemma_be_value_4(bytes.subrange(0, 4));
        lemma_be_value_4(bytes.subrange(4, 8));
    }
    let high: u64 = data[at] as u64 * 0x100_0000 + data[at + 1] as u64 * 0x1_0000 + data[at
        + 2] as u64 * 0x100 + data[at + 3] as u64;
    let low: u64 = data[at + 4] as u64 * 0x100_0000 + data[at + 5] as u64 * 0x1_0000 + data[at
        + 6] as u64 * 0x100 + data[at + 7] as u64;
    Some(high * 0x1_0000_0000 + low)
}

/// Appends a `u32`, most significant byte first.
pub fn push_be32(out: &mut Vec<u8>, value: u32)
    ensures
        final(out)@ == old(out)@ + u32_bytes(value),
{
    out.push((value / 0x100_0000) as u8);
    out.push((value / 0x1_0000 % 0x100) as u8);
    out.push((value / 0x100 % 0x100) as u8);
    out.push((value % 0x100) as u8);
}

} // verus!
