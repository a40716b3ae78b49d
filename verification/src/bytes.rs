//! Byte strings as keys: big-endian integers and the lexicographic order
//! that every backend sorts its keys by.

use vstd::prelude::*;

verus! {

/// `a` sorts strictly before `b` when both are compared byte by byte: at the
/// first place where they differ the smaller byte decides, and a proper
/// prefix sorts before what it is a prefix of.
pub open spec fn bytes_lt(a: Seq<u8>, b: Seq<u8>) -> bool
    decreases a.len(),
{
    if b.len() == 0 {
        false
    } else if a.len() == 0 {
        true
    } else if a[0] != b[0] {
        a[0] < b[0]
    } else {
        bytes_lt(a.drop_first(), b.drop_first())
    }
}

/// The `width` low-order bytes of `x`, most significant first.
pub open spec fn be_bytes(x: nat, width: nat) -> Seq<u8>
    decreases width,
{
    if width == 0 {
        Seq::empty()
    } else {
        be_bytes(x / 256, (width - 1) as nat).push((x % 256) as u8)
    }
}

/// The number of values that `width` bytes can tell apart.
pub open spec fn radix(width: nat) -> nat
    decreases width,
{
    if width == 0 {
        1
    } else {
        256 * radix((width - 1) as nat)
    }
}

/// Two byte strings that start with fields of one width are ordered by
/// those fields first and by what follows them second, and are equal only
/// when both parts are.
pub proof fn lemma_lt_append(xa: Seq<u8>, ra: Seq<u8>, xb: Seq<u8>, rb: Seq<u8>)
    requires
        xa.len() == xb.len(),
    ensures
        bytes_lt(xa + ra, xb + rb) == (bytes_lt(xa, xb) || (xa == xb && bytes_lt(ra, rb))),
        (xa + ra == xb + rb) == (xa == xb && ra == rb),
        !(bytes_lt(xa, xb) && xa == xb),
    decreases xa.len(),
{
    if xa.len() == 0 {
        assert(xa =~= xb);
        assert(xa + ra =~= ra);
        assert(xb + rb =~= rb);
    } else {
        let a = xa + ra;
        let b = xb + rb;
        assert(a[0] == xa[0] && b[0] == xb[0]);
        assert(a.drop_first() =~= xa.drop_first() + ra);
        assert(b.drop_first() =~= xb.drop_first() + rb);
        lemma_lt_append(xa.drop_first(), ra, xb.drop_first(), rb);
        if xa[0] == xb[0] {
            if xa.drop_first() == xb.drop_first() {
                assert(xa =~= seq![xa[0]] + xa.drop_first());
                assert(xb =~= seq![xb[0]] + xb.drop_first());
            }
            if a == b {
                assert(a.drop_first() == b.drop_first());
            }
            if xa.drop_first() + ra == xb.drop_first() + rb {
                assert(a =~= seq![a[0]] + a.drop_first());
                assert(b =~= seq![b[0]] + b.drop_first());
            }
        }
    }
}

/// One-byte strings are ordered as their bytes.
pub proof fn lemma_lt_byte(a: u8, b: u8)
    ensures
        bytes_lt(seq![a], seq![b]) == (a < b),
        (seq![a] == seq![b]) == (a == b),
{
    assert(seq![a][0] == a && seq![b][0] == b);
    assert(seq![a].drop_first().len() == 0);
    assert(seq![b].drop_first().len() == 0);
    assert(!bytes_lt(seq![a].drop_first(), seq![b].drop_first()));
}

/// Big-endian integers of one width are ordered as the integers, and equal
/// only when the integers are.
pub proof fn lemma_be_bytes(x: nat, y: nat, width: nat)
    requires
        x < radix(width),
        y < radix(width),
    ensures
        be_bytes(x, width).len() == width,
        be_bytes(y, width).len() == width,
        bytes_lt(be_bytes(x, width), be_bytes(y, width)) == (x < y),
        (be_bytes(x, width) == be_bytes(y, width)) == (x == y),
    decreases width,
{
    if width > 0 {
        let w = (width - 1) as nat;
        lemma_be_bytes(x / 256, y / 256, w);
        let xa = be_bytes(x / 256, w);
        let xb = be_bytes(y / 256, w);
        let ca = (x % 256) as u8;
        let cb = (y % 256) as u8;
        assert(be_bytes(x, width) =~= xa + seq![ca]);
        assert(be_bytes(y, width) =~= xb + seq![cb]);
        lemma_lt_append(xa, seq![ca], xb, seq![cb]);
        lemma_lt_byte(ca, cb);
    } else {
        assert(be_bytes(x, width) =~= be_bytes(y, width));
    }
}

/// The four-byte big-endian form orders `u32` values as they are.
pub proof fn lemma_be_u32(x: u32, y: u32)
    ensures
        be_bytes(x as nat, 4).len() == 4,
        be_bytes(y as nat, 4).len() == 4,
        bytes_lt(be_bytes(x as nat, 4), be_bytes(y as nat, 4)) == (x < y),
        (be_bytes(x as nat, 4) == be_bytes(y as nat, 4)) == (x == y),
{
    reveal_with_fuel(radix, 5);
    lemma_be_bytes(x as nat, y as nat, 4);
}

/// The eight-byte big-endian form orders `u64` values as they are.
pub proof fn lemma_be_u64(x: u64, y: u64)
    ensures
        be_bytes(x as nat, 8).len() == 8,
        be_bytes(y as nat, 8).len() == 8,
        bytes_lt(be_bytes(x as nat, 8), be_bytes(y as nat, 8)) == (x < y),
        (be_bytes(x as nat, 8) == be_bytes(y as nat, 8)) == (x == y),
{
    reveal_with_fuel(radix, 9);
    lemma_be_bytes(x as nat, y as nat, 8);
}

/// Appends one byte.
pub fn write_u8(buf: &mut Vec<u8>, x: u8)
    ensures
        final(buf)@ == old(buf)@ + seq![x],
{
    buf.push(x);
    assert(buf@ =~= old(buf)@ + seq![x]);
}

/// Appends `x` as four bytes, most significant first.
pub fn write_u32(buf: &mut Vec<u8>, x: u32)
    ensures
        final(buf)@ == old(buf)@ + be_bytes(x as nat, 4),
{
    let b3: u8 = ((x >> 24) & 0xff) as u8;
    let b2: u8 = ((x >> 16) & 0xff) as u8;
    let b1: u8 = ((x >> 8) & 0xff) as u8;
    let b0: u8 = (x & 0xff) as u8;
    assert((x >> 24) & 0xff == x / 256 / 256 / 256 % 256) by (bit_vector);
    assert((x >> 16) & 0xff == x / 256 / 256 % 256) by (bit_vector);
    assert((x >> 8) & 0xff == x / 256 % 256) by (bit_vector);
    assert(x & 0xff == x % 256) by (bit_vector);
    buf.push(b3);
    buf.push(b2);
    buf.push(b1);
    buf.push(b0);
    proof {
        reveal_with_fuel(be_bytes, 5);
        assert(be_bytes(x as nat, 4) =~= seq![b3, b2, b1, b0]);
        assert(buf@ =~= old(buf)@ + be_bytes(x as nat, 4));
    }
}

/// Appends `x` as eight bytes, most significant first.
pub fn write_u64(buf: &mut Vec<u8>, x: u64)
    ensures
        final(buf)@ == old(buf)@ + be_bytes(x as nat, 8),
{
    let hi: u32 = ((x >> 32) & 0xffff_ffff) as u32;
    let lo: u32 = (x & 0xffff_ffff) as u32;
    assert((x >> 32) & 0xffff_ffff == x / 0x1_0000_0000) by (bit_vector);
    assert(x & 0xffff_ffff == x % 0x1_0000_0000) by (bit_vector);
    write_u32(buf, hi);
    write_u32(buf, lo);
    proof {
        lemma_be_split(x as nat);
        assert(buf@ =~= old(buf)@ + be_bytes(x as nat, 8));
    }
}

/// The eight-byte form is the four-byte form of the high half followed by
/// that of the low half.
proof fn lemma_be_split(x: nat)
    ensures
        be_bytes(x, 8) == be_bytes(x / 0x1_0000_0000, 4) + be_bytes(x % 0x1_0000_0000, 4),
{
    reveal_with_fuel(be_bytes, 9);
    let lo = x % 0x1_0000_0000;
    let hi = x / 0x1_0000_0000;
    assert(lo % 256 == x % 256);
    assert(lo / 256 % 256 == x / 256 % 256);
    assert(lo / 256 / 256 % 256 == x / 256 / 256 % 256);
    assert(lo / 256 / 256 / 256 % 256 == x / 256 / 256 / 256 % 256);
    assert(hi == x / 256 / 256 / 256 / 256);
    assert(be_bytes(x, 8) =~= be_bytes(hi, 4) + be_bytes(lo, 4));
}

/// Appends the bytes of `src`.
pub fn write_bytes(buf: &mut Vec<u8>, src: &[u8])
    ensures
        final(buf)@ == old(buf)@ + src@,
{
    let mut i: usize = 0;
    while i < src.len()
        invariant
            i <= src.len(),
            buf@ == old(buf)@ + src@.take(i as int),
        decreases src.len() - i,
    {
        buf.push(src[i]);
        proof {
            assert(src@.take(i + 1) =~= src@.take(i as int).push(src@[i as int]));
            assert(buf@ =~= old(buf)@ + src@.take(i + 1));
        }
        i += 1;
    }
    assert(src@.take(i as int) =~= src@);
}

/// Whether two byte strings are the same.
pub fn bytes_eq(a: &[u8], b: &[u8]) -> (same: bool)
    ensures
        same == (a@ == b@),
{
    if a.len() != b.len() {
        return false;
    }
    let mut i: usize = 0;
    while i < a.len()
        invariant
            i <= a.len(),
            a.len() == b.len(),
            a@.take(i as int) == b@.take(i as int),
        decreases a.len() - i,
    {
        if a[i] != b[i] {
            return false;
        }
        assert(a@.take(i + 1) =~= a@.take(i as int).push(a@[i as int]));
        assert(b@.take(i + 1) =~= b@.take(i as int).push(b@[i as int]));
        i += 1;
    }
    assert(a@.take(i as int) =~= a@);
    assert(b@.take(i as int) =~= b@);
    true
}

} // verus!
