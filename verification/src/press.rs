//! The length field of compressed files: a number as four bytes, most
//! significant byte first.

use vstd::prelude::*;

verus! {

/// The four bytes of a number, most significant first.
pub open spec fn be_bytes(i: u32) -> Seq<u8> {
    seq![
        ((i >> 24) & 0xff) as u8,
        ((i >> 16) & 0xff) as u8,
        ((i >> 8) & 0xff) as u8,
        (i & 0xff) as u8,
    ]
}

/// The number that four bytes stand for, the first being the most significant.
pub open spec fn be_number(b0: u8, b1: u8, b2: u8, b3: u8) -> u32 {
    ((b0 as u32) << 24) | ((b1 as u32) << 16) | ((b2 as u32) << 8) | (b3 as u32)
}

/// A number as four bytes, most significant first.
pub fn u32_to_u8s(i: u32) -> (bytes: Vec<u8>)
    ensures
        bytes@ == be_bytes(i),
{
    let b0 = ((i >> 24) & 0xff) as u8;
    let b1 = ((i >> 16) & 0xff) as u8;
    let b2 = ((i >> 8) & 0xff) as u8;
    let b3 = (i & 0xff) as u8;
    let mut bytes: Vec<u8> = Vec::new();
    bytes.push(b0);
    bytes.push(b1);
    bytes.push(b2);
    bytes.push(b3);
    assert(bytes@ =~= be_bytes(i));
    bytes
}

/// The number that the first four bytes stand for.
pub fn u8s_to_u32(us: &Vec<u8>) -> (number: u32)
    requires
        us.len() >= 4,
    ensures
        number == be_number(us[0], us[1], us[2], us[3]),
{
    let b0: u8 = us[0];
    let b1: u8 = us[1];
    let b2: u8 = us[2];
    let b3: u8 = us[3];
    let mut out: u32 = 0;
    out |= (b0 as u32) << 24;
    out |= (b1 as u32) << 16;
    out |= (b2 as u32) << 8;
    out |= b3 as u32;
    assert(out == ((b0 as u32) << 24) | ((b1 as u32) << 16) | ((b2 as u32) << 8) | (b3 as u32))
        by (bit_vector)
        requires
            out == (((0u32 | ((b0 as u32) << 24)) | ((b1 as u32) << 16)) | ((b2 as u32) << 8)) | (
            b3 as u32),
    ;
    out
}

/// The four bytes of a number stand for that number.
pub proof fn lemma_be_round_trip(i: u32)
    ensures
        be_number(be_bytes(i)[0], be_bytes(i)[1], be_bytes(i)[2], be_bytes(i)[3]) == i,
{
    let b0 = ((i >> 24) & 0xff) as u8;
    let b1 = ((i >> 16) & 0xff) as u8;
    let b2 = ((i >> 8) & 0xff) as u8;
    let b3 = (i & 0xff) as u8;
    assert(((b0 as u32) << 24) | ((b1 as u32) << 16) | ((b2 as u32) << 8) | (b3 as u32) == i)
        by (bit_vector)
        requires
            b0 == ((i >> 24) & 0xff) as u8,
            b1 == ((i >> 16) & 0xff) as u8,
            b2 == ((i >> 8) & 0xff) as u8,
            b3 == (i & 0xff) as u8,
    ;
}

} // verus!
