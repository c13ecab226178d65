//! CRC-16/XMODEM: polynomial 0x1021, initial value 0, no reflection, no
//! final xor, as the `crc` crate's `CRC_16_XMODEM` computes it.  The
//! checksum protects each frame from the version byte up to the checksum.

use vstd::prelude::*;

verus! {

/// One shift of the CRC register.
pub open spec fn crc_bit(c: u16) -> u16 {
    if c & 0x8000u16 == 0 {
        c << 1u16
    } else {
        (c << 1u16) ^ 0x1021u16
    }
}

/// The register after feeding it one byte.
pub open spec fn crc_byte(c: u16, b: u8) -> u16 {
    let x = c ^ ((b as u16) << 8u16);
    crc_bit(crc_bit(crc_bit(crc_bit(crc_bit(crc_bit(crc_bit(crc_bit(x))))))))
}

/// The CRC-16/XMODEM checksum of `data`.
pub open spec fn crc16_xmodem(data: Seq<u8>) -> u16
    decreases data.len(),
{
    if data.len() == 0 {
        0
    } else {
        crc_byte(crc16_xmodem(data.drop_last()), data.last())
    }
}

/// The checksum of the catalogue's check input `123456789` is 0x31C3, the
/// check value the `crc` crate's catalogue gives for CRC-16/XMODEM.
pub proof fn lemma_crc_check_value()
    ensures
        crc16_xmodem(seq![0x31u8, 0x32, 0x33, 0x34, 0x35, 0x36, 0x37, 0x38, 0x39]) == 0x31C3,
{
    assert(crc_byte(0u16, 0x31u8) == 0x2672u16) by (bit_vector);
    assert(crc_byte(0x2672u16, 0x32u8) == 0x20b5u16) by (bit_vector);
    assert(crc_byte(0x20b5u16, 0x33u8) == 0x9752u16) by (bit_vector);
    assert(crc_byte(0x9752u16, 0x34u8) == 0xd789u16) by (bit_vector);
    assert(crc_byte(0xd789u16, 0x35u8) == 0x546cu16) by (bit_vector);
    assert(crc_byte(0x546cu16, 0x36u8) == 0x20e4u16) by (bit_vector);
    assert(crc_byte(0x20e4u16, 0x37u8) == 0x86d6u16) by (bit_vector);
    assert(crc_byte(0x86d6u16, 0x38u8) == 0x9015u16) by (bit_vector);
    assert(crc_byte(0x9015u16, 0x39u8) == 0x31c3u16) by (bit_vector);
    let s = seq![0x31u8, 0x32, 0x33, 0x34, 0x35, 0x36, 0x37, 0x38, 0x39];
    assert(s.take(0) =~= Seq::<u8>::empty());
    assert(crc16_xmodem(s.take(0)) == 0);
    assert(s[0] == 0x31u8);
    assert(s.take(1).drop_last() =~= s.take(0));
    assert(s.take(1).last() == s[0]);
    assert(crc16_xmodem(s.take(1)) == crc_byte(0u16, 0x31u8));
    assert(crc16_xmodem(s.take(1)) == 0x2672u16);
    assert(s[1] == 0x32u8);
    assert(s.take(2).drop_last() =~= s.take(1));
    assert(s.take(2).last() == s[1]);
    assert(crc16_xmodem(s.take(2)) == crc_byte(0x2672u16, 0x32u8));
    assert(crc16_xmodem(s.take(2)) == 0x20b5u16);
    assert(s[2] == 0x33u8);
    assert(s.take(3).drop_last() =~= s.take(2));
    assert(s.take(3).last() == s[2]);
    assert(crc16_xmodem(s.take(3)) == crc_byte(0x20b5u16, 0x33u8));
    assert(crc16_xmodem(s.take(3)) == 0x9752u16);
    assert(s[3] == 0x34u8);
    assert(s.take(4).drop_last() =~= s.take(3));
    assert(s.take(4).last() == s[3]);
    assert(crc16_xmodem(s.take(4)) == crc_byte(0x9752u16, 0x34u8));
    assert(crc16_xmodem(s.take(4)) == 0xd789u16);
    assert(s[4] == 0x35u8);
    assert(s.take(5).drop_last() =~= s.take(4));
    assert(s.take(5).last() == s[4]);
    assert(crc16_xmodem(s.take(5)) == crc_byte(0xd789u16, 0x35u8));
    assert(crc16_xmodem(s.take(5)) == 0x546cu16);
    assert(s[5] == 0x36u8);
    assert(s.take(6).drop_last() =~= s.take(5));
    assert(s.take(6).last() == s[5]);
    assert(crc16_xmodem(s.take(6)) == crc_byte(0x546cu16, 0x36u8));
    assert(crc16_xmodem(s.take(6)) == 0x20e4u16);
    assert(s[6] == 0x37u8);
    assert(s.take(7).drop_last() =~= s.take(6));
    assert(s.take(7).last() == s[6]);
    assert(crc16_xmodem(s.take(7)) == crc_byte(0x20e4u16, 0x37u8));
    assert(crc16_xmodem(s.take(7)) == 0x86d6u16);
    assert(s[7] == 0x38u8);
    assert(s.take(8).drop_last() =~= s.take(7));
    assert(s.take(8).last() == s[7]);
    assert(crc16_xmodem(s.take(8)) == crc_byte(0x86d6u16, 0x38u8));
    assert(crc16_xmodem(s.take(8)) == 0x9015u16);
    assert(s[8] == 0x39u8);
    assert(s.take(9).drop_last() =~= s.take(8));
    assert(s.take(9).last() == s[8]);
    assert(crc16_xmodem(s.take(9)) == crc_byte(0x9015u16, 0x39u8));
    assert(crc16_xmodem(s.take(9)) == 0x31c3u16);
    assert(s.take(9) =~= s);
}

/// A register shift is linear over xor.
proof fn lemma_bit_linear(x: u16, y: u16)
    by (bit_vector)
    ensures
        crc_bit(x ^ y) == crc_bit(x) ^ crc_bit(y),
{
}

/// A register shift keeps a nonzero register nonzero.
proof fn lemma_bit_nonzero(x: u16)
    by (bit_vector)
    requires
        x != 0,
    ensures
        crc_bit(x) != 0,
{
}

/// Feeding a byte is linear over xor, in the register and the byte together.
proof fn lemma_byte_linear(c1: u16, c2: u16, b1: u8, b2: u8)
    ensures
        crc_byte(c1 ^ c2, b1 ^ b2) == crc_byte(c1, b1) ^ crc_byte(c2, b2),
{
    let x1 = c1 ^ ((b1 as u16) << 8u16);
    let x2 = c2 ^ ((b2 as u16) << 8u16);
    assert((c1 ^ c2) ^ (((b1 ^ b2) as u16) << 8u16) == (c1 ^ ((b1 as u16) << 8u16)) ^ (c2 ^ ((b2 as u16) << 8u16))) by (bit_vector);
    let a = x1;
    let b = x2;
    lemma_bit_linear(a, b);
    let (a1, b1_) = (crc_bit(a), crc_bit(b));
    lemma_bit_linear(a1, b1_);
    let (a2, b2_) = (crc_bit(a1), crc_bit(b1_));
    lemma_bit_linear(a2, b2_);
    let (a3, b3) = (crc_bit(a2), crc_bit(b2_));
    lemma_bit_linear(a3, b3);
    let (a4, b4) = (crc_bit(a3), crc_bit(b3));
    lemma_bit_linear(a4, b4);
    let (a5, b5) = (crc_bit(a4), crc_bit(b4));
    lemma_bit_linear(a5, b5);
    let (a6, b6) = (crc_bit(a5), crc_bit(b5));
    lemma_bit_linear(a6, b6);
    let (a7, b7) = (crc_bit(a6), crc_bit(b6));
    lemma_bit_linear(a7, b7);
}

/// Feeding a byte to a register leaves it nonzero when the register xor the
/// byte (in its high half) is nonzero.
proof fn lemma_byte_nonzero(c: u16, b: u8)
    requires
        c ^ ((b as u16) << 8u16) != 0,
    ensures
        crc_byte(c, b) != 0,
{
    let x = c ^ ((b as u16) << 8u16);
    lemma_bit_nonzero(x);
    lemma_bit_nonzero(crc_bit(x));
    lemma_bit_nonzero(crc_bit(crc_bit(x)));
    lemma_bit_nonzero(crc_bit(crc_bit(crc_bit(x))));
    lemma_bit_nonzero(crc_bit(crc_bit(crc_bit(crc_bit(x)))));
    lemma_bit_nonzero(crc_bit(crc_bit(crc_bit(crc_bit(crc_bit(x))))));
    lemma_bit_nonzero(crc_bit(crc_bit(crc_bit(crc_bit(crc_bit(crc_bit(x)))))));
    lemma_bit_nonzero(crc_bit(crc_bit(crc_bit(crc_bit(crc_bit(crc_bit(crc_bit(x))))))));
}

/// The bytes of `a` and `b` xored pairwise.
pub open spec fn xor_bytes(a: Seq<u8>, b: Seq<u8>) -> Seq<u8> {
    Seq::new(a.len(), |k: int| a[k] ^ b[k])
}

/// The checksum is linear over xor of equally long inputs.
proof fn lemma_crc_linear(a: Seq<u8>, b: Seq<u8>)
    requires
        a.len() == b.len(),
    ensures
        crc16_xmodem(a) ^ crc16_xmodem(b) == crc16_xmodem(xor_bytes(a, b)),
    decreases a.len(),
{
    if a.len() == 0 {
        assert(0u16 ^ 0u16 == 0u16) by (bit_vector);
    } else {
        lemma_crc_linear(a.drop_last(), b.drop_last());
        assert(xor_bytes(a, b).drop_last() =~= xor_bytes(a.drop_last(), b.drop_last()));
        lemma_byte_linear(crc16_xmodem(a.drop_last()), crc16_xmodem(b.drop_last()), a.last(), b.last());
    }
}

/// The checksum of bytes that are zero but at position `i` is zero up to
/// `i` and nonzero from there on.
proof fn lemma_crc_single(e: Seq<u8>, i: int, m: int)
    requires
        0 <= i < e.len(),
        e[i] != 0,
        forall|k: int| 0 <= k < e.len() && k != i ==> e[k] == 0,
        0 <= m <= e.len(),
    ensures
        m <= i ==> crc16_xmodem(e.take(m)) == 0,
        m > i ==> crc16_xmodem(e.take(m)) != 0,
    decreases m,
{
    if m == 0 {
        assert(e.take(0) =~= Seq::<u8>::empty());
    } else {
        lemma_crc_single(e, i, m - 1);
        assert(e.take(m).drop_last() =~= e.take(m - 1));
        let c = crc16_xmodem(e.take(m - 1));
        let b = e[m - 1];
        if m - 1 < i {
            assert(b == 0 && c == 0);
            assert(crc_byte(0u16, 0u8) == 0u16) by (bit_vector);
        } else if m - 1 == i {
            assert(c == 0);
            assert(b != 0 ==> 0u16 ^ ((b as u16) << 8u16) != 0) by (bit_vector);
            lemma_byte_nonzero(c, b);
        } else {
            assert(b == 0);
            assert(c != 0 ==> c ^ ((0u8 as u16) << 8u16) != 0) by (bit_vector);
            lemma_byte_nonzero(c, b);
        }
    }
}

/// The checksum detects any change of one byte: two equally long inputs
/// that differ in exactly one byte have different checksums.
pub proof fn lemma_crc_detects_byte_change(a: Seq<u8>, b: Seq<u8>, i: int)
    requires
        a.len() == b.len(),
        0 <= i < a.len(),
        a[i] != b[i],
        forall|k: int| 0 <= k < a.len() && k != i ==> a[k] == b[k],
    ensures
        crc16_xmodem(a) != crc16_xmodem(b),
{
    let e = xor_bytes(a, b);
    lemma_crc_linear(a, b);
    assert forall|k: int| 0 <= k < e.len() && k != i implies e[k] == 0 by {
        let x = a[k];
        assert(x ^ x == 0u8) by (bit_vector);
    }
    let (x, y) = (a[i], b[i]);
    assert(x != y ==> x ^ y != 0u8) by (bit_vector);
    lemma_crc_single(e, i, e.len() as int);
    assert(e.take(e.len() as int) =~= e);
    let (p, q) = (crc16_xmodem(a), crc16_xmodem(b));
    assert(p ^ q != 0u16 ==> p != q) by (bit_vector);
}

} // verus!
