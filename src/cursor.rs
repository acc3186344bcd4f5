use crate::error::Error;
use vstd::prelude::*;

verus! {

/// `256^n`.
pub open spec fn pow256(n: nat) -> nat
    decreases n,
{
    if n == 0 {
        1
    } else {
        256 * pow256((n - 1) as nat)
    }
}

/// The unsigned integer that the bytes `s` encode, least significant first.
pub open spec fn le_value(s: Seq<u8>) -> nat
    decreases s.len(),
{
    if s.len() == 0 {
        0
    } else {
        s[0] as nat + 256 * le_value(s.drop_first())
    }
}

/// The little-endian `u64` that starts at byte `p` of `s`.
pub open spec fn u64_at(s: Seq<u8>, p: int) -> u64 {
    le_value(s.subrange(p, p + 8)) as u64
}

/// The little-endian `u32` that starts at byte `p` of `s`.
pub open spec fn u32_at(s: Seq<u8>, p: int) -> u32 {
    le_value(s.subrange(p, p + 4)) as u32
}

proof fn lemma_pow256_mono(a: nat, b: nat)
    requires
        a <= b,
    ensures
        pow256(a) <= pow256(b),
    decreases b,
{
    if a < b {
        lemma_pow256_mono(a, (b - 1) as nat);
    }
}

proof fn lemma_le_value_bound(s: Seq<u8>)
    ensures
        le_value(s) < pow256(s.len()),
    decreases s.len(),
{
    if s.len() > 0 {
        lemma_le_value_bound(s.drop_first());
        let r = le_value(s.drop_first());
        let p = pow256((s.len() - 1) as nat);
        let b = s[0] as nat;
        assert(b + 256 * r < 256 * p) by (nonlinear_arith)
            requires
                r < p,
                b < 256,
        ;
    }
}

/// The value of the `width` bytes at `pos`, least significant first.
fn read_le(bytes: &[u8], pos: usize, width: usize) -> (r: u64)
    requires
        width <= 8,
        pos + width <= bytes@.len(),
        pos + width <= usize::MAX,
    ensures
        r as nat == le_value(bytes@.subrange(pos as int, pos + width)),
{
    let mut v: u64 = 0;
    let mut i: usize = width;
    while i > 0
        invariant
            i <= width <= 8,
            pos + width <= bytes@.len(),
            pos + width <= usize::MAX,
            v as nat == le_value(bytes@.subrange(pos + i, pos + width)),
        decreases i,
    {
        i = i - 1;
        let b = bytes[pos + i];
        proof {
            let s = bytes@.subrange(pos + i, pos + width);
            assert(s.drop_first() =~= bytes@.subrange(pos + i + 1, pos + width));
            lemma_le_value_bound(s.drop_first());
            lemma_pow256_mono((width - i - 1) as nat, 7);
            reveal_with_fuel(pow256, 8);
            let w = v as nat;
            assert(w < 72057594037927936);
            assert(b as nat + 256 * w < 18446744073709551616) by (nonlinear_arith)
                requires
                    w < 72057594037927936,
                    b < 256,
            ;
        }
        v = v * 256 + b as u64;
    }
    v
}

/// Reads the little-endian `u64` at `pos`; the position after it comes back.
pub fn read_u64(bytes: &[u8], pos: usize) -> (r: Result<(u64, usize), Error>)
    ensures
        match r {
            Ok((v, next)) => pos + 8 <= bytes@.len() && v == u64_at(bytes@, pos as int) && next
                == pos + 8,
            Err(e) => pos + 8 > bytes@.len() && e == Error::UnexpectedEof,
        },
{
    if bytes.len() < 8 || pos > bytes.len() - 8 {
        return Err(Error::UnexpectedEof);
    }
    let v = read_le(bytes, pos, 8);
    proof {
        lemma_le_value_bound(bytes@.subrange(pos as int, pos + 8));
    }
    Ok((v, pos + 8))
}

/// Reads the little-endian `u32` at `pos`; the position after it comes back.
pub fn read_u32(bytes: &[u8], pos: usize) -> (r: Result<(u32, usize), Error>)
    ensures
        match r {
            Ok((v, next)) => pos + 4 <= bytes@.len() && v == u32_at(bytes@, pos as int) && next
                == pos + 4,
            Err(e) => pos + 4 > bytes@.len() && e == Error::UnexpectedEof,
        },
{
    if bytes.len() < 4 || pos > bytes.len() - 4 {
        return Err(Error::UnexpectedEof);
    }
    let v = read_le(bytes, pos, 4);
    proof {
        let s = bytes@.subrange(pos as int, pos + 4);
        lemma_le_value_bound(s);
        reveal_with_fuel(pow256, 5);
    }
    Ok((v as u32, pos + 4))
}

/// Reads the byte at `pos`; the position after it comes back.
pub fn read_u8(bytes: &[u8], pos: usize) -> (r: Result<(u8, usize), Error>)
    ensures
        match r {
            Ok((v, next)) => pos < bytes@.len() && v == bytes@[pos as int] && next == pos + 1,
            Err(e) => pos >= bytes@.len() && e == Error::UnexpectedEof,
        },
{
    if pos >= bytes.len() {
        return Err(Error::UnexpectedEof);
    }
    Ok((bytes[pos], pos + 1))
}

/// Skips `n` bytes from `pos`; the position after them comes back.
pub fn advance(bytes: &[u8], pos: usize, n: u64) -> (r: Result<usize, Error>)
    requires
        pos <= bytes@.len(),
    ensures
        match r {
            Ok(next) => pos + n <= bytes@.len() && next == pos + n,
            Err(e) => pos + n > bytes@.len() && e == Error::UnexpectedEof,
        },
{
    if n > (bytes.len() - pos) as u64 {
        return Err(Error::UnexpectedEof);
    }
    Ok(pos + n as usize)
}

} // verus!
