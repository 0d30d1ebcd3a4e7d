//! Arrays of 32-bit numbers as they come over the wire.

use vstd::prelude::*;

verus! {

/// The order of the bytes of a number in memory.
#[derive(Clone, Copy, Debug, PartialEq, Eq, Structural)]
pub enum ByteOrder {
    LittleEndian,
    BigEndian,
}

/// The number that four bytes stand for.
pub open spec fn u32_of(bytes: Seq<u8>, order: ByteOrder) -> u32 {
    match order {
        ByteOrder::LittleEndian => (bytes[0] + 0x100 * bytes[1] + 0x1_0000 * bytes[2] + 0x100_0000
            * bytes[3]) as u32,
        ByteOrder::BigEndian => (bytes[3] + 0x100 * bytes[2] + 0x1_0000 * bytes[1] + 0x100_0000
            * bytes[0]) as u32,
    }
}

/// The numbers that some bytes stand for, four bytes each. What is left over
/// at the end does not count.
pub open spec fn decoded_u32s(bytes: Seq<u8>, order: ByteOrder) -> Seq<u32> {
    Seq::new(bytes.len() / 4, |i: int| u32_of(bytes.subrange(4 * i, 4 * i + 4), order))
}

/// Reads the numbers out of a packed array.
pub fn decode_u32s(bytes: &[u8], order: ByteOrder) -> (values: Vec<u32>)
    ensures
        values@ == decoded_u32s(bytes@, order),
{
    let len: usize = bytes.len();
    let count: usize = len / 4;
    let mut values: Vec<u32> = Vec::new();
    let mut i: usize = 0;
    while i < count
        invariant
            len == bytes@.len(),
            count == len / 4,
            i <= count,
            values@ == decoded_u32s(bytes@, order).take(i as int),
        decreases count - i,
    {
        let b0: u32 = bytes[4 * i] as u32;
        let b1: u32 = bytes[4 * i + 1] as u32;
        let b2: u32 = bytes[4 * i + 2] as u32;
        let b3: u32 = bytes[4 * i + 3] as u32;
        let value: u32 = match order {
            ByteOrder::LittleEndian => b0 + 0x100 * b1 + 0x1_0000 * b2 + 0x100_0000 * b3,
            ByteOrder::BigEndian => b3 + 0x100 * b2 + 0x1_0000 * b1 + 0x100_0000 * b0,
        };
        assert(value == decoded_u32s(bytes@, order)[i as int]);
        values.push(value);
        i = i + 1;
        assert(values@ =~= decoded_u32s(bytes@, order).take(i as int));
    }
    assert(decoded_u32s(bytes@, order).take(count as int) =~= decoded_u32s(bytes@, order));
    values
}

/// The four bytes that stand for a number.
pub open spec fn bytes_of(value: u32, order: ByteOrder) -> Seq<u8> {
    let b0 = (value % 0x100) as u8;
    let b1 = (value / 0x100 % 0x100) as u8;
    let b2 = (value / 0x1_0000 % 0x100) as u8;
    let b3 = (value / 0x100_0000) as u8;
    match order {
        ByteOrder::LittleEndian => seq![b0, b1, b2, b3],
        ByteOrder::BigEndian => seq![b3, b2, b1, b0],
    }
}

/// Some numbers as a packed array.
pub open spec fn encoded_u32s(values: Seq<u32>, order: ByteOrder) -> Seq<u8> {
    Seq::new(4 * values.len(), |k: int| bytes_of(values[k / 4], order)[k % 4])
}

/// Writes numbers as a packed array.
pub fn encode_u32s(values: &Vec<u32>, order: ByteOrder) -> (bytes: Vec<u8>)
    ensures
        bytes@ == encoded_u32s(values@, order),
{
    let mut bytes: Vec<u8> = Vec::new();
    let mut i: usize = 0;
    while i < values.len()
        invariant
            i <= values@.len(),
            bytes@ == encoded_u32s(values@.take(i as int), order),
        decreases values@.len() - i,
    {
        let value: u32 = values[i];
        let ghost before = bytes@;
        let b0: u8 = (value % 0x100) as u8;
        let b1: u8 = (value / 0x100 % 0x100) as u8;
        let b2: u8 = (value / 0x1_0000 % 0x100) as u8;
        let b3: u8 = (value / 0x100_0000) as u8;
        match order {
            ByteOrder::LittleEndian => {
                bytes.push(b0);
                bytes.push(b1);
                bytes.push(b2);
                bytes.push(b3);
            },
            ByteOrder::BigEndian => {
                bytes.push(b3);
                bytes.push(b2);
                bytes.push(b1);
                bytes.push(b0);
            },
        }
        i = i + 1;
        assert(bytes@ =~= encoded_u32s(values@.take(i as int), order)) by {
            let next = encoded_u32s(values@.take(i as int), order);
            assert(bytes@.len() == next.len());
            assert forall|k: int| 0 <= k < next.len() implies bytes@[k] == next[k] by {
                if k < before.len() {
                    assert(bytes@[k] == before[k]);
                }
            }
        }
    }
    assert(values@.take(i as int) =~= values@);
    bytes
}

proof fn lemma_u32_of_bytes_of(value: u32, order: ByteOrder)
    ensures
        u32_of(bytes_of(value, order), order) == value,
{
    let b0 = value % 0x100;
    let b1 = value / 0x100 % 0x100;
    let b2 = value / 0x1_0000 % 0x100;
    let b3 = value / 0x100_0000;
    assert(b0 + 0x100 * b1 + 0x1_0000 * b2 + 0x100_0000 * b3 == value);
    assert(b3 < 0x100);
}

proof fn lemma_encoded_group(values: Seq<u32>, order: ByteOrder, i: int)
    requires
        0 <= i < values.len(),
    ensures
        encoded_u32s(values, order).subrange(4 * i, 4 * i + 4) == bytes_of(values[i], order),
{
    let group = encoded_u32s(values, order).subrange(4 * i, 4 * i + 4);
    let bytes = bytes_of(values[i], order);
    assert forall|k: int| 0 <= k < 4 implies group[k] == bytes[k] by {
        assert((4 * i + k) / 4 == i);
        assert((4 * i + k) % 4 == k);
    }
    assert(group =~= bytes);
}

/// Numbers that were written as a packed array are read from it again.
pub proof fn law_decode_gives_back_encoded(values: Seq<u32>, order: ByteOrder)
    ensures
        decoded_u32s(encoded_u32s(values, order), order) == values,
{
    let decoded = decoded_u32s(encoded_u32s(values, order), order);
    assert forall|i: int| 0 <= i < values.len() implies decoded[i] == values[i] by {
        lemma_encoded_group(values, order, i);
        lemma_u32_of_bytes_of(values[i], order);
    }
    assert(decoded =~= values);
}

proof fn lemma_bytes_of_u32_of(bytes: Seq<u8>, order: ByteOrder)
    requires
        bytes.len() == 4,
    ensures
        bytes_of(u32_of(bytes, order), order) == bytes,
{
    let (c0, c1, c2, c3) = match order {
        ByteOrder::LittleEndian => (bytes[0], bytes[1], bytes[2], bytes[3]),
        ByteOrder::BigEndian => (bytes[3], bytes[2], bytes[1], bytes[0]),
    };
    let value = u32_of(bytes, order);
    assert(value == c0 + 0x100 * c1 + 0x1_0000 * c2 + 0x100_0000 * c3);
    assert(value % 0x100 == c0);
    assert(value / 0x100 % 0x100 == c1);
    assert(value / 0x1_0000 % 0x100 == c2);
    assert(value / 0x100_0000 == c3);
    assert(bytes_of(value, order) =~= bytes);
}

/// A packed array that was read is written as the same bytes again, if nothing is
/// left over at its end.
pub proof fn law_encode_gives_back_decoded(bytes: Seq<u8>, order: ByteOrder)
    requires
        bytes.len() % 4 == 0,
    ensures
        encoded_u32s(decoded_u32s(bytes, order), order) == bytes,
{
    let encoded = encoded_u32s(decoded_u32s(bytes, order), order);
    assert forall|k: int| 0 <= k < bytes.len() implies encoded[k] == bytes[k] by {
        let group = bytes.subrange(4 * (k / 4), 4 * (k / 4) + 4);
        lemma_bytes_of_u32_of(group, order);
        assert(group[k % 4] == bytes[k]);
    }
    assert(encoded =~= bytes);
}

/// Whether `wanted` is among some numbers.
pub fn contains_u32(values: &Vec<u32>, wanted: u32) -> (found: bool)
    ensures
        found == values@.contains(wanted),
{
    let mut i: usize = 0;
    while i < values.len()
        invariant
            i <= values@.len(),
            forall|j: int| 0 <= j < i ==> values@[j] != wanted,
        decreases values@.len() - i,
    {
        if values[i] == wanted {
            return true;
        }
        i = i + 1;
    }
    false
}

/// A packed array holds one number for every four bytes, made of these bytes with
/// the lowest first or the highest first.
pub proof fn law_numbers_are_made_of_their_bytes(bytes: Seq<u8>, i: int)
    requires
        0 <= i,
        4 * i + 4 <= bytes.len(),
    ensures
        decoded_u32s(bytes, ByteOrder::LittleEndian).len() == bytes.len() / 4,
        decoded_u32s(bytes, ByteOrder::BigEndian).len() == bytes.len() / 4,
        decoded_u32s(bytes, ByteOrder::LittleEndian)[i] == bytes[4 * i] + 0x100 * bytes[4 * i + 1]
            + 0x1_0000 * bytes[4 * i + 2] + 0x100_0000 * bytes[4 * i + 3],
        decoded_u32s(bytes, ByteOrder::BigEndian)[i] == 0x100_0000 * bytes[4 * i] + 0x1_0000
            * bytes[4 * i + 1] + 0x100 * bytes[4 * i + 2] + bytes[4 * i + 3],
{
}

} // verus!
