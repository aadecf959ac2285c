//! Big-endian byte layouts for the integer fields that go into digests,
//! and small helpers on byte vectors.

use vstd::prelude::*;

verus! {

/// The eight bytes of `x`, most significant first.
pub open spec fn u64_be_bytes(x: u64) -> Seq<u8> {
    seq![
        ((x >> 56) & 0xff) as u8,
        ((x >> 48) & 0xff) as u8,
        ((x >> 40) & 0xff) as u8,
        ((x >> 32) & 0xff) as u8,
        ((x >> 24) & 0xff) as u8,
        ((x >> 16) & 0xff) as u8,
        ((x >> 8) & 0xff) as u8,
        (x & 0xff) as u8,
    ]
}

/// The sixteen bytes of `x`, most significant first.
pub open spec fn u128_be_bytes(x: u128) -> Seq<u8> {
    seq![
        ((x >> 120) & 0xff) as u8,
        ((x >> 112) & 0xff) as u8,
        ((x >> 104) & 0xff) as u8,
        ((x >> 96) & 0xff) as u8,
        ((x >> 88) & 0xff) as u8,
        ((x >> 80) & 0xff) as u8,
        ((x >> 72) & 0xff) as u8,
        ((x >> 64) & 0xff) as u8,
        ((x >> 56) & 0xff) as u8,
        ((x >> 48) & 0xff) as u8,
        ((x >> 40) & 0xff) as u8,
        ((x >> 32) & 0xff) as u8,
        ((x >> 24) & 0xff) as u8,
        ((x >> 16) & 0xff) as u8,
        ((x >> 8) & 0xff) as u8,
        (x & 0xff) as u8,
    ]
}

fn u64_byte(x: u64, shift: u64) -> (r: u8)
    requires
        shift < 64,
    ensures
        r == ((x >> shift) & 0xff) as u8,
{
    assert(((x >> shift) & 0xff) < 256) by (bit_vector);
    ((x >> shift) & 0xff) as u8
}

fn u128_byte(x: u128, shift: u128) -> (r: u8)
    requires
        shift < 128,
    ensures
        r == ((x >> shift) & 0xff) as u8,
{
    assert(((x >> shift) & 0xff) < 256) by (bit_vector);
    ((x >> shift) & 0xff) as u8
}

/// Appends the big-endian bytes of `x` to `out`.
pub fn push_u64_be(out: &mut Vec<u8>, x: u64)
    ensures
        final(out)@ == old(out)@ + u64_be_bytes(x),
{
    out.push(u64_byte(x, 56));
    out.push(u64_byte(x, 48));
    out.push(u64_byte(x, 40));
    out.push(u64_byte(x, 32));
    out.push(u64_byte(x, 24));
    out.push(u64_byte(x, 16));
    out.push(u64_byte(x, 8));
    out.push(u64_byte(x, 0));
    proof {
        assert(x >> 0 == x) by (bit_vector);
        assert(out@ =~= old(out)@ + u64_be_bytes(x));
    }
}

/// Appends the big-endian bytes of `x` to `out`.
pub fn push_u128_be(out: &mut Vec<u8>, x: u128)
    ensures
        final(out)@ == old(out)@ + u128_be_bytes(x),
{
    out.push(u128_byte(x, 120));
    out.push(u128_byte(x, 112));
    out.push(u128_byte(x, 104));
    out.push(u128_byte(x, 96));
    out.push(u128_byte(x, 88));
    out.push(u128_byte(x, 80));
    out.push(u128_byte(x, 72));
    out.push(u128_byte(x, 64));
    out.push(u128_byte(x, 56));
    out.push(u128_byte(x, 48));
    out.push(u128_byte(x, 40));
    out.push(u128_byte(x, 32));
    out.push(u128_byte(x, 24));
    out.push(u128_byte(x, 16));
    out.push(u128_byte(x, 8));
    out.push(u128_byte(x, 0));
    proof {
        assert(x >> 0 == x) by (bit_vector);
        assert(out@ =~= old(out)@ + u128_be_bytes(x));
    }
}

/// True exactly when the two byte vectors hold the same bytes.
pub fn bytes_eq(a: &Vec<u8>, b: &Vec<u8>) -> (r: bool)
    ensures
        r == (a@ == b@),
{
    if a.len() != b.len() {
        return false;
    }
    let mut i: usize = 0;
    while i < a.len()
        invariant
            i <= a@.len(),
            a@.len() == b@.len(),
            forall|j: int| 0 <= j < i ==> a@[j] == b@[j],
        decreases a@.len() - i,
    {
        if a[i] != b[i] {
            return false;
        }
        i += 1;
    }
    proof {
        assert(a@ =~= b@);
    }
    true
}

/// A fresh vector with the same bytes as `v`.
pub fn clone_bytes(v: &Vec<u8>) -> (r: Vec<u8>)
    ensures
        r@ == v@,
{
    let mut out: Vec<u8> = Vec::new();
    let mut i: usize = 0;
    while i < v.len()
        invariant
            i <= v@.len(),
            out@ == v@.take(i as int),
        decreases v@.len() - i,
    {
        out.push(v[i]);
        proof {
            assert(out@ =~= v@.take(i as int + 1));
        }
        i += 1;
    }
    proof {
        assert(v@.take(v@.len() as int) =~= v@);
    }
    out
}

} // verus!
