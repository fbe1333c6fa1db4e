//! Four-character codes: four bytes packed big-endian into a 32-bit word.

use vstd::prelude::*;

verus! {

/// The word that four bytes spell when read big-endian.
pub open spec fn pack(b: Seq<u8>) -> int {
    b[0] as int * 0x100_0000 + b[1] as int * 0x1_0000 + b[2] as int * 0x100 + b[3] as int
}

/// The four bytes of a word, most significant first.
pub open spec fn unpack(v: u32) -> Seq<u8> {
    seq![
        (v as int / 0x100_0000) as u8,
        (v as int / 0x1_0000 % 0x100) as u8,
        (v as int / 0x100 % 0x100) as u8,
        (v as int % 0x100) as u8,
    ]
}

/// Packs the first four bytes of `bytes` into a word.
pub fn encode(bytes: &[u8]) -> (v: u32)
    requires
        bytes@.len() == 4,
    ensures
        v as int == pack(bytes@),
{
    let b0: u32 = bytes[0] as u32;
    let b1: u32 = bytes[1] as u32;
    let b2: u32 = bytes[2] as u32;
    let b3: u32 = bytes[3] as u32;
    b0 * 0x100_0000 + b1 * 0x1_0000 + b2 * 0x100 + b3
}

/// Spells a word out as its four bytes, most significant first.
pub fn decode(v: u32) -> (bytes: Vec<u8>)
    ensures
        bytes@ == unpack(v),
{
    let mut bytes: Vec<u8> = Vec::new();
    bytes.push((v / 0x100_0000) as u8);
    bytes.push((v / 0x1_0000 % 0x100) as u8);
    bytes.push((v / 0x100 % 0x100) as u8);
    bytes.push((v % 0x100) as u8);
    assert(bytes@ =~= unpack(v));
    bytes
}

/// Packing four bytes and spelling the word out again gives the bytes back.
pub proof fn lemma_unpack_pack(b: Seq<u8>)
    requires
        b.len() == 4,
    ensures
        0 <= pack(b) <= u32::MAX,
        unpack(pack(b) as u32) == b,
{
    let b0 = b[0] as int;
    let b1 = b[1] as int;
    let b2 = b[2] as int;
    let b3 = b[3] as int;
    let v = pack(b);
    assert(v == b0 * 0x100_0000 + (b1 * 0x1_0000 + b2 * 0x100 + b3));
    assert(v / 0x100_0000 == b0);
    assert(v == (b0 * 0x100 + b1) * 0x1_0000 + (b2 * 0x100 + b3));
    assert(v / 0x1_0000 == b0 * 0x100 + b1);
    assert(v == (b0 * 0x1_0000 + b1 * 0x100 + b2) * 0x100 + b3);
    assert(v / 0x100 == b0 * 0x1_0000 + b1 * 0x100 + b2);
    assert(v % 0x100 == b3);
    assert(unpack(v as u32) =~= b);
}

/// Spelling a word out and packing the bytes gives the word back.
pub proof fn lemma_pack_unpack(v: u32)
    ensures
        unpack(v).len() == 4,
        pack(unpack(v)) == v,
{
}

} // verus!
