//! Big-endian byte order for the fixed-width integers of the wire format.
//!
//! Every multi-byte field on the wire is network byte order. The spec
//! functions below are the mathematical meaning of those fields; the
//! executable readers and writers are proved against them.

use vstd::prelude::*;

verus! {

/// The two bytes of `x` in network byte order.
pub open spec fn u16_be_bytes(x: u16) -> Seq<u8> {
    seq![(x >> 8) as u8, x as u8]
}

/// The four bytes of `x` in network byte order.
pub open spec fn u32_be_bytes(x: u32) -> Seq<u8> {
    seq![(x >> 24) as u8, (x >> 16) as u8, (x >> 8) as u8, x as u8]
}

/// The eight bytes of `x` in network byte order.
pub open spec fn u64_be_bytes(x: u64) -> Seq<u8> {
    seq![
        (x >> 56) as u8,
        (x >> 48) as u8,
        (x >> 40) as u8,
        (x >> 32) as u8,
        (x >> 24) as u8,
        (x >> 16) as u8,
        (x >> 8) as u8,
        x as u8,
    ]
}

/// The value of two network-byte-order bytes.
pub open spec fn u16_of_be(s: Seq<u8>) -> u16
    recommends
        s.len() == 2,
{
    ((s[0] as u16) << 8) | (s[1] as u16)
}

/// The value of four network-byte-order bytes.
pub open spec fn u32_of_be(s: Seq<u8>) -> u32
    recommends
        s.len() == 4,
{
    ((s[0] as u32) << 24) | ((s[1] as u32) << 16) | ((s[2] as u32) << 8) | (s[3] as u32)
}

/// The value of eight network-byte-order bytes.
pub open spec fn u64_of_be(s: Seq<u8>) -> u64
    recommends
        s.len() == 8,
{
    ((s[0] as u64) << 56) | ((s[1] as u64) << 48) | ((s[2] as u64) << 40) | ((s[3] as u64) << 32)
        | ((s[4] as u64) << 24) | ((s[5] as u64) << 16) | ((s[6] as u64) << 8) | (s[7] as u64)
}

pub fn push_u16_be(v: &mut Vec<u8>, x: u16)
    ensures
        final(v)@ == old(v)@ + u16_be_bytes(x),
{
    let b0: u8 = #[verifier::truncate] ((x >> 8) as u8);
    let b1: u8 = #[verifier::truncate] (x as u8);
    v.push(b0);
    v.push(b1);
    proof {
        assert(v@ =~= old(v)@ + u16_be_bytes(x));
    }
}

pub fn push_u32_be(v: &mut Vec<u8>, x: u32)
    ensures
        final(v)@ == old(v)@ + u32_be_bytes(x),
{
    let b0: u8 = #[verifier::truncate] ((x >> 24) as u8);
    let b1: u8 = #[verifier::truncate] ((x >> 16) as u8);
    let b2: u8 = #[verifier::truncate] ((x >> 8) as u8);
    let b3: u8 = #[verifier::truncate] (x as u8);
    v.push(b0);
    v.push(b1);
    v.push(b2);
    v.push(b3);
    proof {
        assert(v@ =~= old(v)@ + u32_be_bytes(x));
    }
}

pub fn push_u64_be(v: &mut Vec<u8>, x: u64)
    ensures
        final(v)@ == old(v)@ + u64_be_bytes(x),
{
    let b0: u8 = #[verifier::truncate] ((x >> 56) as u8);
    let b1: u8 = #[verifier::truncate] ((x >> 48) as u8);
    let b2: u8 = #[verifier::truncate] ((x >> 40) as u8);
    let b3: u8 = #[verifier::truncate] ((x >> 32) as u8);
    let b4: u8 = #[verifier::truncate] ((x >> 24) as u8);
    let b5: u8 = #[verifier::truncate] ((x >> 16) as u8);
    let b6: u8 = #[verifier::truncate] ((x >> 8) as u8);
    let b7: u8 = #[verifier::truncate] (x as u8);
    v.push(b0);
    v.push(b1);
    v.push(b2);
    v.push(b3);
    v.push(b4);
    v.push(b5);
    v.push(b6);
    v.push(b7);
    proof {
        assert(v@ =~= old(v)@ + u64_be_bytes(x));
    }
}

pub fn read_u16_be(b: &[u8], off: usize) -> (r: u16)
    requires
        off + 2 <= b@.len(),
    ensures
        r == u16_of_be(b@.subrange(off as int, off as int + 2)),
{
    let r: u16 = ((b[off] as u16) << 8) | (b[off + 1] as u16);
    proof {
        let s = b@.subrange(off as int, off as int + 2);
        assert(s[0] == b@[off as int]);
        assert(s[1] == b@[off as int + 1]);
    }
    r
}

pub fn read_u32_be(b: &[u8], off: usize) -> (r: u32)
    requires
        off + 4 <= b@.len(),
    ensures
        r == u32_of_be(b@.subrange(off as int, off as int + 4)),
{
    let r: u32 = ((b[off] as u32) << 24) | ((b[off + 1] as u32) << 16) | ((b[off + 2] as u32) << 8)
        | (b[off + 3] as u32);
    proof {
        let s = b@.subrange(off as int, off as int + 4);
        assert(s[0] == b@[off as int]);
        assert(s[1] == b@[off as int + 1]);
        assert(s[2] == b@[off as int + 2]);
        assert(s[3] == b@[off as int + 3]);
    }
    r
}

pub fn read_u64_be(b: &[u8], off: usize) -> (r: u64)
    requires
        off + 8 <= b@.len(),
    ensures
        r == u64_of_be(b@.subrange(off as int, off as int + 8)),
{
    let r: u64 = ((b[off] as u64) << 56) | ((b[off + 1] as u64) << 48)
        | ((b[off + 2] as u64) << 40) | ((b[off + 3] as u64) << 32)
        | ((b[off + 4] as u64) << 24) | ((b[off + 5] as u64) << 16)
        | ((b[off + 6] as u64) << 8) | (b[off + 7] as u64);
    proof {
        let s = b@.subrange(off as int, off as int + 8);
        assert(s[0] == b@[off as int]);
        assert(s[1] == b@[off as int + 1]);
        assert(s[2] == b@[off as int + 2]);
        assert(s[3] == b@[off as int + 3]);
        assert(s[4] == b@[off as int + 4]);
        assert(s[5] == b@[off as int + 5]);
        assert(s[6] == b@[off as int + 6]);
        assert(s[7] == b@[off as int + 7]);
    }
    r
}

/// Writing a value and reading it back gives the value itself.
pub proof fn lemma_u16_be_roundtrip(x: u16)
    ensures
        u16_of_be(u16_be_bytes(x)) == x,
{
    assert(((((x >> 8) as u8) as u16) << 8) | (((x as u8)) as u16) == x) by (bit_vector);
}

/// Writing a value and reading it back gives the value itself.
pub proof fn lemma_u32_be_roundtrip(x: u32)
    ensures
        u32_of_be(u32_be_bytes(x)) == x,
{
    assert(((((x >> 24) as u8) as u32) << 24) | ((((x >> 16) as u8) as u32) << 16)
        | ((((x >> 8) as u8) as u32) << 8) | (((x as u8)) as u32) == x) by (bit_vector);
}

/// Writing a value and reading it back gives the value itself.
pub proof fn lemma_u64_be_roundtrip(x: u64)
    ensures
        u64_of_be(u64_be_bytes(x)) == x,
{
    assert(((((x >> 56) as u8) as u64) << 56) | ((((x >> 48) as u8) as u64) << 48)
        | ((((x >> 40) as u8) as u64) << 40) | ((((x >> 32) as u8) as u64) << 32)
        | ((((x >> 24) as u8) as u64) << 24) | ((((x >> 16) as u8) as u64) << 16)
        | ((((x >> 8) as u8) as u64) << 8) | (((x as u8)) as u64) == x) by (bit_vector);
}

} // verus!
