//! Canonical byte encodings of the values the network signs or frames.
//! Every encoder appends to a buffer and is specified against a spec-level
//! byte sequence, so that signatures and wire frames can be reasoned about
//! as functions of the encoded value.

use vstd::prelude::*;
use crate::addr::NodeAddr;

verus! {

/// Two big-endian bytes of a small number.
pub open spec fn enc_u16(n: int) -> Seq<u8> {
    seq![((n / 256) % 256) as u8, (n % 256) as u8]
}

/// Four big-endian bytes of a number below 2^32.
pub open spec fn enc_u32(n: int) -> Seq<u8> {
    seq![
        ((n / 0x1000000) % 256) as u8,
        ((n / 0x10000) % 256) as u8,
        ((n / 256) % 256) as u8,
        (n % 256) as u8,
    ]
}

/// Sixteen big-endian bytes of a 128-bit number.
pub open spec fn enc_u128(n: u128) -> Seq<u8> {
    Seq::new(16, |i: int| ((n >> ((8 * (15 - i)) as u128)) & 0xffu128) as u8)
}

/// Appends two big-endian bytes of `n`.
pub fn push_u16(out: &mut Vec<u8>, n: usize)
    requires
        n < 0x10000,
    ensures
        final(out)@ == old(out)@ + enc_u16(n as int),
{
    out.push(((n / 256) % 256) as u8);
    out.push((n % 256) as u8);
    proof {
        assert(out@ =~= old(out)@ + enc_u16(n as int));
    }
}

/// Appends four big-endian bytes of `n`.
pub fn push_u32(out: &mut Vec<u8>, n: usize)
    requires
        n < 0x100000000,
    ensures
        final(out)@ == old(out)@ + enc_u32(n as int),
{
    out.push(((n / 0x1000000) % 256) as u8);
    out.push(((n / 0x10000) % 256) as u8);
    out.push(((n / 256) % 256) as u8);
    out.push((n % 256) as u8);
    proof {
        assert(out@ =~= old(out)@ + enc_u32(n as int));
    }
}

/// Appends sixteen big-endian bytes of `n`.
pub fn push_u128(out: &mut Vec<u8>, n: u128)
    ensures
        final(out)@ == old(out)@ + enc_u128(n),
{
    let mut i: usize = 0;
    while i < 16
        invariant
            i <= 16,
            out@ == old(out)@ + enc_u128(n).take(i as int),
        decreases 16 - i,
    {
        out.push((((n >> ((8 * (15 - i)) as u128)) & 0xffu128)) as u8);
        proof {
            assert(out@ =~= old(out)@ + enc_u128(n).take(i + 1));
        }
        i = i + 1;
    }
    proof {
        assert(enc_u128(n).take(16) =~= enc_u128(n));
    }
}

/// Appends a byte string.
pub fn push_bytes(out: &mut Vec<u8>, v: &Vec<u8>)
    ensures
        final(out)@ == old(out)@ + v@,
{
    let mut i: usize = 0;
    while i < v.len()
        invariant
            i <= v@.len(),
            out@ == old(out)@ + v@.take(i as int),
        decreases v@.len() - i,
    {
        out.push(v[i]);
        proof {
            assert(out@ =~= old(out)@ + v@.take(i + 1));
        }
        i = i + 1;
    }
    proof {
        assert(v@.take(v@.len() as int) =~= v@);
    }
}

/// One byte per prefix bit.
pub open spec fn enc_bits(p: Seq<bool>) -> Seq<u8> {
    Seq::new(p.len(), |i: int| if p[i] { 1u8 } else { 0u8 })
}

/// Appends one byte per bit of the prefix.
pub fn push_bits(out: &mut Vec<u8>, bits: &Vec<bool>)
    ensures
        final(out)@ == old(out)@ + enc_bits(bits@),
{
    let mut i: usize = 0;
    while i < bits.len()
        invariant
            i <= bits@.len(),
            out@ == old(out)@ + enc_bits(bits@).take(i as int),
        decreases bits@.len() - i,
    {
        out.push(if bits[i] { 1u8 } else { 0u8 });
        proof {
            assert(out@ =~= old(out)@ + enc_bits(bits@).take(i + 1));
        }
        i = i + 1;
    }
    proof {
        assert(enc_bits(bits@).take(bits@.len() as int) =~= enc_bits(bits@));
    }
}

/// The encoding of a socket address: sixteen IP bytes and two port bytes.
pub open spec fn enc_addr(a: NodeAddr) -> Seq<u8> {
    enc_u128(a.ip) + enc_u16(a.port as int)
}

/// Appends the encoding of a socket address.
pub fn push_addr(out: &mut Vec<u8>, a: &NodeAddr)
    ensures
        final(out)@ == old(out)@ + enc_addr(*a),
{
    push_u128(out, a.ip);
    push_u16(out, a.port as usize);
    proof {
        assert(out@ =~= old(out)@ + enc_addr(*a));
    }
}

/// Reads the two big-endian bytes at `pos` as a number.
pub fn read_u16(bytes: &Vec<u8>, pos: usize) -> (r: usize)
    requires
        pos + 2 <= bytes@.len(),
    ensures
        r == bytes@[pos as int] * 256 + bytes@[pos + 1],
        r < 0x10000,
{
    // the length fits usize, so the index sums below cannot overflow
    let _len = bytes.len();
    (bytes[pos] as usize) * 256 + (bytes[pos + 1] as usize)
}

/// Reads the four big-endian bytes at `pos` as a number.
pub fn read_u32(bytes: &Vec<u8>, pos: usize) -> (r: usize)
    requires
        pos + 4 <= bytes@.len(),
    ensures
        r == ((bytes@[pos as int] * 0x1000000) + (bytes@[pos + 1] * 0x10000)
            + (bytes@[pos + 2] * 256) + bytes@[pos + 3]),
        r < 0x100000000,
{
    // the length fits usize, so the index sums below cannot overflow
    let _len = bytes.len();
    (bytes[pos] as usize) * 0x1000000 + (bytes[pos + 1] as usize) * 0x10000
        + (bytes[pos + 2] as usize) * 256 + (bytes[pos + 3] as usize)
}

/// Copies the `len` bytes at `start`.
pub fn read_segment(bytes: &Vec<u8>, start: usize, len: usize) -> (r: Vec<u8>)
    requires
        start + len <= bytes@.len(),
    ensures
        r@ == bytes@.subrange(start as int, start as int + len as int),
{
    // the length fits usize, so the index sums below cannot overflow
    let _len = bytes.len();
    let mut r: Vec<u8> = Vec::new();
    let mut i: usize = 0;
    while i < len
        invariant
            start + len <= bytes@.len(),
            bytes@.len() <= usize::MAX,
            i <= len,
            r@ == bytes@.subrange(start as int, start as int + i as int),
        decreases len - i,
    {
        r.push(bytes[start + i]);
        proof {
            assert(r@ =~= bytes@.subrange(start as int, start as int + i + 1));
        }
        i = i + 1;
    }
    r
}

/// The two bytes whose big-endian reading is `b0 * 256 + b1` are `b0`, `b1`.
pub proof fn lemma_u16_enc_of_bytes(b0: u8, b1: u8)
    ensures
        enc_u16(b0 * 256 + b1) =~= seq![b0, b1],
{
    let n = b0 * 256 + b1;
    assert(n / 256 == b0 && n % 256 == b1) by (nonlinear_arith)
        requires n == b0 * 256 + b1, b0 < 256, b1 < 256;
}

/// The four bytes whose big-endian reading is the given number are exactly
/// those bytes.
pub proof fn lemma_u32_enc_of_bytes(b0: u8, b1: u8, b2: u8, b3: u8)
    ensures
        enc_u32(b0 * 0x1000000 + b1 * 0x10000 + b2 * 256 + b3) =~= seq![b0, b1, b2, b3],
{
    let n = b0 * 0x1000000 + b1 * 0x10000 + b2 * 256 + b3;
    assert(n / 0x1000000 == b0 && (n / 0x10000) % 256 == b1
        && (n / 256) % 256 == b2 && n % 256 == b3) by (nonlinear_arith)
        requires
            n == b0 * 0x1000000 + b1 * 0x10000 + b2 * 256 + b3,
            b0 < 256, b1 < 256, b2 < 256, b3 < 256;
    assert((n / 0x1000000) % 256 == b0) by (nonlinear_arith)
        requires n / 0x1000000 == b0, b0 < 256;
}

/// Round trip: reading back the two bytes of `enc_u16` yields the number.
pub proof fn lemma_u16_round_trip(n: int)
    requires
        0 <= n < 0x10000,
    ensures
        enc_u16(n)[0] * 256 + enc_u16(n)[1] == n,
{
    assert(enc_u16(n)[0] == (n / 256) % 256);
    assert(enc_u16(n)[1] == n % 256);
    assert((n / 256) % 256 == n / 256);
    assert(n / 256 * 256 + n % 256 == n) by (nonlinear_arith)
        requires 0 <= n < 0x10000;
}

/// Round trip: reading back the four bytes of `enc_u32` yields the number.
pub proof fn lemma_u32_round_trip(n: int)
    requires
        0 <= n < 0x100000000,
    ensures
        enc_u32(n)[0] * 0x1000000 + enc_u32(n)[1] * 0x10000 + enc_u32(n)[2] * 256 + enc_u32(n)[3] == n,
{
    assert(enc_u32(n)[0] == (n / 0x1000000) % 256);
    assert((n / 0x1000000) % 256 == n / 0x1000000);
    assert(enc_u32(n)[1] == (n / 0x10000) % 256);
    assert(enc_u32(n)[2] == (n / 256) % 256);
    assert(enc_u32(n)[3] == n % 256);
    assert(n / 0x1000000 * 0x1000000 + ((n / 0x10000) % 256) * 0x10000
        + ((n / 256) % 256) * 256 + n % 256 == n) by (nonlinear_arith)
        requires 0 <= n < 0x100000000;
}

} // verus!
