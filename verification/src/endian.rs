//! Big-endian encodings of the fixed-width integers that appear in frame
//! headers and payloads: `u16` (protocol version), `u32` (expiration
//! seconds) and `u64` (payload and key lengths).

use vstd::prelude::*;

verus! {

pub open spec fn spec_u16_to_be(x: u16) -> Seq<u8> {
    seq![((x >> 8) & 0xff) as u8, (x & 0xff) as u8]
}

pub open spec fn spec_u16_from_be(s: Seq<u8>) -> u16
    recommends
        s.len() == 2,
{
    (((s[0] as u16) << 8) | (s[1] as u16)) as u16
}

pub open spec fn spec_u32_to_be(x: u32) -> Seq<u8> {
    seq![
        ((x >> 24) & 0xff) as u8,
        ((x >> 16) & 0xff) as u8,
        ((x >> 8) & 0xff) as u8,
        (x & 0xff) as u8,
    ]
}

pub open spec fn spec_u32_from_be(s: Seq<u8>) -> u32
    recommends
        s.len() == 4,
{
    (((s[0] as u32) << 24) | ((s[1] as u32) << 16) | ((s[2] as u32) << 8) | (s[3] as u32)) as u32
}

pub open spec fn spec_u64_to_be(x: u64) -> Seq<u8> {
    seq![
        ((x >> 56) & 0xff) as u8,
        ((x >> 48) & 0xff) as u8,
        ((x >> 40) & 0xff) as u8,
        ((x >> 32) & 0xff) as u8,
        ((x >> 24) & 0xff) as u8,
        ((x >> 16) & 0xff) as u8,
        ((x >> 8) & 0xff) as u8,
        (x & 0xff) as u8,
    ]
}

pub open spec fn spec_u64_from_be(s: Seq<u8>) -> u64
    recommends
        s.len() == 8,
{
    (((s[0] as u64) << 56) | ((s[1] as u64) << 48) | ((s[2] as u64) << 40) | ((s[3] as u64) << 32)
        | ((s[4] as u64) << 24) | ((s[5] as u64) << 16) | ((s[6] as u64) << 8) | (s[7]
        as u64)) as u64
}

/// Low byte of a word, as both the executable step and the spec-level cast.
fn low_byte(x: u64) -> (r: u8)
    ensures
        r == ((x & 0xff) as u8),
{
    assert(x & 0xff <= 0xff) by (bit_vector);
    (x & 0xff) as u8
}

pub fn push_u16_be(out: &mut Vec<u8>, x: u16)
    ensures
        final(out)@ == old(out)@ + spec_u16_to_be(x),
{
    out.push(low_byte((x >> 8) as u64));
    out.push(low_byte(x as u64));
    proof {
        assert((((x as u64) >> 8) & 0xff) as u8 == ((x >> 8) & 0xff) as u8) by (bit_vector);
        assert(((x as u64) & 0xff) as u8 == (x & 0xff) as u8) by (bit_vector);
        assert(final(out)@ =~= old(out)@ + spec_u16_to_be(x));
    }
}

pub fn push_u32_be(out: &mut Vec<u8>, x: u32)
    ensures
        final(out)@ == old(out)@ + spec_u32_to_be(x),
{
    out.push(low_byte((x >> 24) as u64));
    out.push(low_byte((x >> 16) as u64));
    out.push(low_byte((x >> 8) as u64));
    out.push(low_byte(x as u64));
    proof {
        assert((((x as u64) >> 24) & 0xff) as u8 == ((x >> 24) & 0xff) as u8) by (bit_vector);
        assert((((x as u64) >> 16) & 0xff) as u8 == ((x >> 16) & 0xff) as u8) by (bit_vector);
        assert((((x as u64) >> 8) & 0xff) as u8 == ((x >> 8) & 0xff) as u8) by (bit_vector);
        assert(((x as u64) & 0xff) as u8 == (x & 0xff) as u8) by (bit_vector);
        assert(final(out)@ =~= old(out)@ + spec_u32_to_be(x));
    }
}

pub fn push_u64_be(out: &mut Vec<u8>, x: u64)
    ensures
        final(out)@ == old(out)@ + spec_u64_to_be(x),
{
    out.push(low_byte(x >> 56));
    out.push(low_byte(x >> 48));
    out.push(low_byte(x >> 40));
    out.push(low_byte(x >> 32));
    out.push(low_byte(x >> 24));
    out.push(low_byte(x >> 16));
    out.push(low_byte(x >> 8));
    out.push(low_byte(x));
    proof {
        assert(final(out)@ =~= old(out)@ + spec_u64_to_be(x));
    }
}

pub fn read_u16_be(s: &[u8], start: usize) -> (r: u16)
    requires
        start + 2 <= s@.len(),
    ensures
        r == spec_u16_from_be(s@.subrange(start as int, start + 2)),
{
    let b0 = s[start];
    let b1 = s[start + 1];
    let r = ((b0 as u16) << 8) | (b1 as u16);
    proof {
        let sub = s@.subrange(start as int, start + 2);
        assert(sub[0] == b0 && sub[1] == b1);
        assert(((b0 as u16) << 8 | (b1 as u16)) == (((b0 as u16) << 8 | (b1 as u16)) as u16))
            by (bit_vector);
    }
    r
}

pub fn read_u32_be(s: &[u8], start: usize) -> (r: u32)
    requires
        start + 4 <= s@.len(),
    ensures
        r == spec_u32_from_be(s@.subrange(start as int, start + 4)),
{
    let b0 = s[start];
    let b1 = s[start + 1];
    let b2 = s[start + 2];
    let b3 = s[start + 3];
    let r = ((b0 as u32) << 24) | ((b1 as u32) << 16) | ((b2 as u32) << 8) | (b3 as u32);
    proof {
        let sub = s@.subrange(start as int, start + 4);
        assert(sub[0] == b0 && sub[1] == b1 && sub[2] == b2 && sub[3] == b3);
    }
    r
}

pub fn read_u64_be(s: &[u8], start: usize) -> (r: u64)
    requires
        start + 8 <= s@.len(),
    ensures
        r == spec_u64_from_be(s@.subrange(start as int, start + 8)),
{
    let b0 = s[start];
    let b1 = s[start + 1];
    let b2 = s[start + 2];
    let b3 = s[start + 3];
    let b4 = s[start + 4];
    let b5 = s[start + 5];
    let b6 = s[start + 6];
    let b7 = s[start + 7];
    let r = ((b0 as u64) << 56) | ((b1 as u64) << 48) | ((b2 as u64) << 40) | ((b3 as u64) << 32)
        | ((b4 as u64) << 24) | ((b5 as u64) << 16) | ((b6 as u64) << 8) | (b7 as u64);
    proof {
        let sub = s@.subrange(start as int, start + 8);
        assert(sub[0] == b0 && sub[1] == b1 && sub[2] == b2 && sub[3] == b3);
        assert(sub[4] == b4 && sub[5] == b5 && sub[6] == b6 && sub[7] == b7);
    }
    r
}

/// Reading back the big-endian bytes of a `u16` yields the value back.
pub proof fn lemma_u16_be_roundtrip(x: u16)
    ensures
        spec_u16_from_be(spec_u16_to_be(x)) == x,
{
    let b0 = ((x >> 8) & 0xff) as u8;
    let b1 = (x & 0xff) as u8;
    assert(b0 == ((x >> 8) & 0xff) as u8 && b1 == (x & 0xff) as u8 ==> (((b0 as u16) << 8 | (b1
        as u16)) as u16) == x) by (bit_vector);
}

/// Reading back the big-endian bytes of a `u32` yields the value back.
pub proof fn lemma_u32_be_roundtrip(x: u32)
    ensures
        spec_u32_from_be(spec_u32_to_be(x)) == x,
{
    let b0 = ((x >> 24) & 0xff) as u8;
    let b1 = ((x >> 16) & 0xff) as u8;
    let b2 = ((x >> 8) & 0xff) as u8;
    let b3 = (x & 0xff) as u8;
    assert(b0 == ((x >> 24) & 0xff) as u8 && b1 == ((x >> 16) & 0xff) as u8 && b2 == ((x >> 8)
        & 0xff) as u8 && b3 == (x & 0xff) as u8 ==> (((b0 as u32) << 24 | (b1 as u32) << 16 | (b2
        as u32) << 8 | (b3 as u32)) as u32) == x) by (bit_vector);
}

/// Reading back the big-endian bytes of a `u64` yields the value back.
pub proof fn lemma_u64_be_roundtrip(x: u64)
    ensures
        spec_u64_from_be(spec_u64_to_be(x)) == x,
{
    let b0 = ((x >> 56) & 0xff) as u8;
    let b1 = ((x >> 48) & 0xff) as u8;
    let b2 = ((x >> 40) & 0xff) as u8;
    let b3 = ((x >> 32) & 0xff) as u8;
    let b4 = ((x >> 24) & 0xff) as u8;
    let b5 = ((x >> 16) & 0xff) as u8;
    let b6 = ((x >> 8) & 0xff) as u8;
    let b7 = (x & 0xff) as u8;
    assert(b0 == ((x >> 56) & 0xff) as u8 && b1 == ((x >> 48) & 0xff) as u8 && b2 == ((x >> 40)
        & 0xff) as u8 && b3 == ((x >> 32) & 0xff) as u8 && b4 == ((x >> 24) & 0xff) as u8 && b5 == (
    (x >> 16) & 0xff) as u8 && b6 == ((x >> 8) & 0xff) as u8 && b7 == (x & 0xff) as u8 ==> (((b0
        as u64) << 56 | (b1 as u64) << 48 | (b2 as u64) << 40 | (b3 as u64) << 32 | (b4 as u64)
        << 24 | (b5 as u64) << 16 | (b6 as u64) << 8 | (b7 as u64)) as u64) == x) by (bit_vector);
}

} // verus!
