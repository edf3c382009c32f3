//! Little-endian integers and runs of bytes, as every message here is made
//! of them.
use vstd::prelude::*;

verus! {

/// `value` as two bytes, the low one first.
pub open spec fn le16(value: u16) -> Seq<u8> {
    seq![(value % 256) as u8, (value / 256) as u8]
}

/// `value` as four bytes, the lowest first.
pub open spec fn le32(value: u32) -> Seq<u8> {
    seq![
        (value % 256) as u8,
        (value / 0x100 % 256) as u8,
        (value / 0x1_0000 % 256) as u8,
        (value / 0x100_0000) as u8,
    ]
}

/// The sixteen-bit integer whose bytes are at `at` and behind it.
pub open spec fn word_at(bytes: Seq<u8>, at: int) -> u16 {
    (bytes[at] + 0x100 * bytes[at + 1]) as u16
}

/// The thirty-two-bit integer whose bytes are at `at` and behind it.
pub open spec fn long_at(bytes: Seq<u8>, at: int) -> u32 {
    (bytes[at] + 0x100 * bytes[at + 1] + 0x1_0000 * bytes[at + 2] + 0x100_0000 * bytes[at
        + 3]) as u32
}

/// Two bytes written as [`le16`] writes them read back as what was written.
pub proof fn law_word_round_trip(value: u16, bytes: Seq<u8>, at: int)
    requires
        0 <= at,
        at + 2 <= bytes.len(),
        bytes.subrange(at, at + 2) == le16(value),
    ensures
        word_at(bytes, at) == value,
{
    assert(bytes[at] == bytes.subrange(at, at + 2)[0]);
    assert(bytes[at + 1] == bytes.subrange(at, at + 2)[1]);
}

/// Four bytes written as [`le32`] writes them read back as what was written.
pub proof fn law_long_round_trip(value: u32, bytes: Seq<u8>, at: int)
    requires
        0 <= at,
        at + 4 <= bytes.len(),
        bytes.subrange(at, at + 4) == le32(value),
    ensures
        long_at(bytes, at) == value,
{
    assert(bytes[at] == bytes.subrange(at, at + 4)[0]);
    assert(bytes[at + 1] == bytes.subrange(at, at + 4)[1]);
    assert(bytes[at + 2] == bytes.subrange(at, at + 4)[2]);
    assert(bytes[at + 3] == bytes.subrange(at, at + 4)[3]);
}

/// Two bytes read as an integer are the bytes that integer is written as.
pub proof fn law_word_is_its_bytes(bytes: Seq<u8>, at: int)
    requires
        0 <= at,
        at + 2 <= bytes.len(),
    ensures
        le16(word_at(bytes, at)) == bytes.subrange(at, at + 2),
{
    assert(le16(word_at(bytes, at)) =~= bytes.subrange(at, at + 2));
}

/// Four bytes read as an integer are the bytes that integer is written as.
pub proof fn law_long_is_its_bytes(bytes: Seq<u8>, at: int)
    requires
        0 <= at,
        at + 4 <= bytes.len(),
    ensures
        le32(long_at(bytes, at)) == bytes.subrange(at, at + 4),
{
    let value = long_at(bytes, at);
    assert(value / 0x100 == bytes[at + 1] + 0x100 * bytes[at + 2] + 0x1_0000 * bytes[at + 3]);
    assert(value / 0x1_0000 == bytes[at + 2] + 0x100 * bytes[at + 3]);
    assert(value / 0x100_0000 == bytes[at + 3]);
    let written = le32(value);
    assert(written[0] == bytes[at]);
    assert(written[1] == bytes[at + 1]);
    assert(written[2] == bytes[at + 2]);
    assert(written[3] == bytes[at + 3]);
    assert(written =~= bytes.subrange(at, at + 4));
}

/// Write `value` behind `out`.
pub fn push_word(out: &mut Vec<u8>, value: u16)
    ensures
        final(out)@ == old(out)@ + le16(value),
{
    out.push((value % 256) as u8);
    out.push((value / 256) as u8);
}

/// Write `value` behind `out`.
pub fn push_long(out: &mut Vec<u8>, value: u32)
    ensures
        final(out)@ == old(out)@ + le32(value),
{
    out.push((value % 256) as u8);
    out.push((value / 0x100 % 256) as u8);
    out.push((value / 0x1_0000 % 256) as u8);
    out.push((value / 0x100_0000) as u8);
}

/// Write `bytes` behind `out`.
pub fn push_bytes(out: &mut Vec<u8>, bytes: &[u8])
    ensures
        final(out)@ == old(out)@ + bytes@,
{
    out.extend_from_slice(bytes);
    assert(out@ =~= old(out)@ + bytes@);
}

/// The sixteen-bit integer at `at`.
pub fn word(bytes: &[u8], at: usize) -> (value: u16)
    requires
        at + 2 <= bytes@.len(),
    ensures
        value == word_at(bytes@, at as int),
{
    bytes[at] as u16 + 0x100 * (bytes[at + 1] as u16)
}

/// The thirty-two-bit integer at `at`.
pub fn long(bytes: &[u8], at: usize) -> (value: u32)
    requires
        at + 4 <= bytes@.len(),
    ensures
        value == long_at(bytes@, at as int),
{
    bytes[at] as u32 + 0x100 * (bytes[at + 1] as u32) + 0x1_0000 * (bytes[at + 2] as u32)
        + 0x100_0000 * (bytes[at + 3] as u32)
}

/// A sixteen-bit integer is two bytes, and the second counts 256 times what
/// the first does.
pub proof fn law_a_word_is_low_byte_first(value: u16)
    ensures
        le16(value).len() == 2,
        le16(value)[0] + 0x100 * le16(value)[1] == value,
{
}

/// A thirty-two-bit integer is four bytes, each counting 256 times what the
/// one before it does.
pub proof fn law_a_long_is_low_byte_first(value: u32)
    ensures
        le32(value).len() == 4,
        le32(value)[0] + 0x100 * le32(value)[1] + 0x1_0000 * le32(value)[2] + 0x100_0000 * le32(
            value,
        )[3] == value,
{
    assert(value / 0x100 % 256 == value / 0x100 - 256 * (value / 0x1_0000));
    assert(value / 0x1_0000 % 256 == value / 0x1_0000 - 256 * (value / 0x100_0000));
}

/// What is read counts as it is written: the low byte comes first.
pub proof fn law_what_is_read_is_low_byte_first(bytes: Seq<u8>, at: int)
    requires
        0 <= at,
        at + 2 <= bytes.len(),
    ensures
        word_at(bytes, at) == bytes[at] + 0x100 * bytes[at + 1],
        at + 4 <= bytes.len() ==> long_at(bytes, at) == bytes[at] + 0x100 * bytes[at + 1]
            + 0x1_0000 * bytes[at + 2] + 0x100_0000 * bytes[at + 3],
{
}

} // verus!
