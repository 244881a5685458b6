//! Byte encodings that enter the authenticated data of a token.

use vstd::prelude::*;

verus! {

/// The unsigned 64-bit integer with the same two's complement bit pattern as `x`.
pub open spec fn twos_complement(x: i64) -> int {
    if x >= 0 {
        x as int
    } else {
        x + 0x1_0000_0000_0000_0000
    }
}

/// The eight bytes of `x` in two's complement, most significant byte first.
pub open spec fn be_bytes(x: i64) -> Seq<u8> {
    let u = twos_complement(x);
    seq![
        (u / 0x100_0000_0000_0000 % 256) as u8,
        (u / 0x1_0000_0000_0000 % 256) as u8,
        (u / 0x100_0000_0000 % 256) as u8,
        (u / 0x1_0000_0000 % 256) as u8,
        (u / 0x100_0000 % 256) as u8,
        (u / 0x1_0000 % 256) as u8,
        (u / 0x100 % 256) as u8,
        (u % 256) as u8,
    ]
}

/// Appends `bytes` to `out`.
pub fn push_all(out: &mut Vec<u8>, bytes: &[u8])
    ensures
        final(out)@ == old(out)@ + bytes@,
{
    let mut i: usize = 0;
    while i < bytes.len()
        invariant
            i <= bytes.len(),
            out@ == old(out)@ + bytes@.subrange(0, i as int),
        decreases bytes.len() - i,
    {
        out.push(bytes[i]);
        i += 1;
    }
    assert(bytes@.subrange(0, i as int) =~= bytes@);
}

/// Appends the big-endian bytes of `x` to `out`.
pub fn push_be_bytes(out: &mut Vec<u8>, x: i64)
    ensures
        final(out)@ == old(out)@ + be_bytes(x),
{
    let u: u64 = if x >= 0 {
        x as u64
    } else {
        (x - i64::MIN) as u64 + 0x8000_0000_0000_0000u64
    };
    assert(u as int == twos_complement(x));
    out.push((u / 0x100_0000_0000_0000 % 256) as u8);
    out.push((u / 0x1_0000_0000_0000 % 256) as u8);
    out.push((u / 0x100_0000_0000 % 256) as u8);
    out.push((u / 0x1_0000_0000 % 256) as u8);
    out.push((u / 0x100_0000 % 256) as u8);
    out.push((u / 0x1_0000 % 256) as u8);
    out.push((u / 0x100 % 256) as u8);
    out.push((u % 256) as u8);
    assert(out@ =~= old(out)@ + be_bytes(x));
}

/// Two naturals that agree above a digit and in that digit agree from that
/// digit upwards, where `p` is the weight of the digit in base 256.
proof fn lemma_digit_agrees(u: int, v: int, p: int)
    requires
        0 <= u,
        0 <= v,
        0 < p,
        u / (p * 256) == v / (p * 256),
        (u / p) % 256 == (v / p) % 256,
    ensures
        u / p == v / p,
{
    vstd::arithmetic::div_mod::lemma_div_denominator(u, p, 256);
    vstd::arithmetic::div_mod::lemma_div_denominator(v, p, 256);
}

/// Two integers with the same big-endian bytes are the same integer.
pub proof fn lemma_be_bytes_injective(a: i64, b: i64)
    requires
        be_bytes(a) == be_bytes(b),
    ensures
        a == b,
{
    let ua = twos_complement(a);
    let ub = twos_complement(b);
    let sa = be_bytes(a);
    let sb = be_bytes(b);
    assert(ua / 0x100_0000_0000_0000 == ub / 0x100_0000_0000_0000) by {
        assert(sa[0] == sb[0]);
    }
    assert(ua / 0x1_0000_0000_0000 == ub / 0x1_0000_0000_0000) by {
        assert(sa[1] == sb[1]);
        lemma_digit_agrees(ua, ub, 0x1_0000_0000_0000);
    }
    assert(ua / 0x100_0000_0000 == ub / 0x100_0000_0000) by {
        assert(sa[2] == sb[2]);
        lemma_digit_agrees(ua, ub, 0x100_0000_0000);
    }
    assert(ua / 0x1_0000_0000 == ub / 0x1_0000_0000) by {
        assert(sa[3] == sb[3]);
        lemma_digit_agrees(ua, ub, 0x1_0000_0000);
    }
    assert(ua / 0x100_0000 == ub / 0x100_0000) by {
        assert(sa[4] == sb[4]);
        lemma_digit_agrees(ua, ub, 0x100_0000);
    }
    assert(ua / 0x1_0000 == ub / 0x1_0000) by {
        assert(sa[5] == sb[5]);
        lemma_digit_agrees(ua, ub, 0x1_0000);
    }
    assert(ua / 0x100 == ub / 0x100) by {
        assert(sa[6] == sb[6]);
        lemma_digit_agrees(ua, ub, 0x100);
    }
    assert(ua == ub) by {
        assert(sa[7] == sb[7]);
    }
}

} // verus!
