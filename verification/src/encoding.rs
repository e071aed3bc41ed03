//! Source numeric encodings of checkpoint tensors and their decoding into
//! single-precision bit patterns.
//!
//! Every value handled here is an IEEE-754 bit pattern held in an unsigned
//! integer: a half-precision value in a `u16`, a single-precision value in a
//! `u32`.
use vstd::arithmetic::power2::{
    lemma2_to64, lemma_pow2_adds, lemma_pow2_pos, lemma_pow2_strictly_increases,
    lemma_pow2_unfold, pow2,
};
use vstd::prelude::*;

verus! {

/// Numeric encoding of a tensor as stored in a checkpoint.
#[derive(Clone, Copy, Debug, PartialEq, Eq, Structural)]
pub enum SourceEncoding {
    /// Little-endian IEEE-754 single precision, four bytes per element.
    Single,
    /// Little-endian IEEE-754 half precision, two bytes per element.
    Half,
}

impl SourceEncoding {
    /// Number of bytes that one element occupies.
    pub open spec fn spec_width(self) -> nat {
        match self {
            SourceEncoding::Single => 4,
            SourceEncoding::Half => 2,
        }
    }

    /// Number of bytes that one element occupies.
    pub fn width(self) -> (w: usize)
        ensures
            w == self.spec_width(),
    {
        match self {
            SourceEncoding::Single => 4,
            SourceEncoding::Half => 2,
        }
    }
}

/// The 16-bit value whose little-endian bytes are `b0`, `b1`.
pub open spec fn le16(b0: u8, b1: u8) -> u16 {
    (b0 as int + 0x100 * (b1 as int)) as u16
}

/// The 32-bit value whose little-endian bytes are `b0`, `b1`, `b2`, `b3`.
pub open spec fn le32(b0: u8, b1: u8, b2: u8, b3: u8) -> u32 {
    (b0 as int + 0x100 * (b1 as int) + 0x1_0000 * (b2 as int) + 0x100_0000 * (b3 as int)) as u32
}

/// Sign bit of a half-precision bit pattern.
pub open spec fn half_sign(h: u16) -> nat {
    (h / 0x8000) as nat
}

/// Biased exponent field (five bits) of a half-precision bit pattern.
pub open spec fn half_exponent(h: u16) -> nat {
    ((h / 0x400) % 0x20) as nat
}

/// Fraction field (ten bits) of a half-precision bit pattern.
pub open spec fn half_fraction(h: u16) -> nat {
    (h % 0x400) as nat
}

/// Position of the highest set bit of `m`, zero for `m <= 1`.
pub open spec fn top_bit(m: nat) -> nat
    decreases m,
{
    if m <= 1 {
        0
    } else {
        1 + top_bit(m / 2)
    }
}

/// The single-precision bit pattern that IEEE-754 widening gives for the
/// half-precision bit pattern `h`.
///
/// Zeros and infinities keep their sign. A NaN keeps its sign and its
/// fraction bits, moved to the top of the wider fraction, and comes out
/// quiet. A subnormal half, `f * 2^-24` with highest set bit `k`, becomes the
/// normal single `2^(k - 24) * (1 + (f - 2^k) / 2^k)`. A normal half keeps its
/// fraction and has its exponent rebiased from 15 to 127.
pub open spec fn widen_half(h: u16) -> u32 {
    let s = half_sign(h) * 0x8000_0000;
    let e = half_exponent(h);
    let f = half_fraction(h);
    if e == 0x1f {
        if f == 0 {
            (s + 0x7f80_0000) as u32
        } else {
            (s + 0x7fc0_0000 + (f % 0x200) * 0x2000) as u32
        }
    } else if e == 0 {
        if f == 0 {
            s as u32
        } else {
            let k = top_bit(f);
            (s + (103 + k) * 0x80_0000 + (f - pow2(k)) * pow2((23 - k) as nat)) as u32
        }
    } else {
        (s + (e + 112) * 0x80_0000 + f * 0x2000) as u32
    }
}

/// `top_bit(m)` is the `k` with `2^k <= m < 2^(k + 1)`.
pub proof fn lemma_top_bit(m: nat, k: nat)
    requires
        pow2(k) <= m < pow2(k + 1),
    ensures
        top_bit(m) == k,
    decreases k,
{
    lemma_pow2_unfold(k + 1);
    if k == 0 {
        lemma2_to64();
    } else {
        lemma_pow2_unfold(k);
        lemma_top_bit(m / 2, (k - 1) as nat);
    }
}

/// Widens one half-precision bit pattern to single precision.
pub fn widen_half_bits(h: u16) -> (r: u32)
    ensures
        r == widen_half(h),
{
    let s: u32 = (h / 0x8000) as u32 * 0x8000_0000;
    let e: u32 = ((h / 0x400) % 0x20) as u32;
    let f: u32 = (h % 0x400) as u32;
    if e == 0x1f {
        if f == 0 {
            s + 0x7f80_0000
        } else {
            s + 0x7fc0_0000 + (f % 0x200) * 0x2000
        }
    } else if e == 0 {
        if f == 0 {
            s
        } else {
            let mut m: u32 = f;
            let mut x: u32 = 113;
            let ghost mut shift: nat = 0;
            proof {
                lemma2_to64();
            }
            while m < 0x400
                invariant
                    0 < f < 0x400,
                    shift <= 10,
                    m == f * pow2(shift),
                    x == 113 - shift,
                    0 < m < 0x800,
                decreases 0x800 - m,
            {
                proof {
                    lemma_pow2_unfold(shift + 1);
                    assert(f * (2 * pow2(shift)) == 2 * (f * pow2(shift))) by (nonlinear_arith);
                    if shift >= 10 {
                        lemma_pow2_strictly_increases(9, shift);
                        lemma2_to64();
                        assert(f * pow2(shift) >= pow2(shift)) by (nonlinear_arith)
                            requires
                                f >= 1,
                        ;
                    }
                }
                m = m * 2;
                x = x - 1;
                proof {
                    shift = shift + 1;
                }
            }
            proof {
                let k = (10 - shift) as nat;
                lemma_pow2_adds(k, shift);
                lemma_pow2_adds(k + 1, shift);
                lemma_pow2_adds(13, shift);
                lemma_pow2_pos(shift);
                lemma_pow2_pos(k);
                lemma2_to64();
                let p = pow2(shift);
                assert(pow2(k) <= f < pow2(k + 1)) by (nonlinear_arith)
                    requires
                        pow2(k) * p == 0x400,
                        pow2(k + 1) * p == 0x800,
                        0x400 <= f * p < 0x800,
                        p > 0,
                ;
                lemma_top_bit(f as nat, k);
                assert((f - pow2(k)) * pow2((23 - k) as nat) == (m - 0x400) * 0x2000)
                    by (nonlinear_arith)
                    requires
                        pow2((23 - k) as nat) == 0x2000 * p,
                        pow2(k) * p == 0x400,
                        m == f * p,
                ;
            }
            s + x * 0x80_0000 + (m - 0x400) * 0x2000
        }
    } else {
        s + (e + 112) * 0x80_0000 + f * 0x2000
    }
}

/// Sign bit of a single-precision bit pattern.
pub open spec fn single_sign(s: u32) -> nat {
    (s / 0x8000_0000) as nat
}

/// Biased exponent field (eight bits) of a single-precision bit pattern.
pub open spec fn single_exponent(s: u32) -> nat {
    ((s / 0x80_0000) % 0x100) as nat
}

/// Fraction field (23 bits) of a single-precision bit pattern.
pub open spec fn single_fraction(s: u32) -> nat {
    (s % 0x80_0000) as nat
}

/// The magnitude of a finite half-precision value, in units of `2^-24`.
pub open spec fn half_magnitude(h: u16) -> nat {
    if half_exponent(h) == 0 {
        half_fraction(h)
    } else {
        (0x400 + half_fraction(h)) * pow2((half_exponent(h) - 1) as nat)
    }
}

/// The magnitude of a finite single-precision value, in units of `2^-149`.
pub open spec fn single_magnitude(s: u32) -> nat {
    if single_exponent(s) == 0 {
        single_fraction(s)
    } else {
        (0x80_0000 + single_fraction(s)) * pow2((single_exponent(s) - 1) as nat)
    }
}

/// The fields of a single-precision bit pattern put together from a sign, an
/// exponent and a fraction.
proof fn lemma_single_fields(sign: nat, exponent: nat, fraction: nat)
    requires
        sign <= 1,
        exponent < 0x100,
        fraction < 0x80_0000,
    ensures
        sign * 0x8000_0000 + exponent * 0x80_0000 + fraction <= u32::MAX,
        single_sign((sign * 0x8000_0000 + exponent * 0x80_0000 + fraction) as u32) == sign,
        single_exponent((sign * 0x8000_0000 + exponent * 0x80_0000 + fraction) as u32) == exponent,
        single_fraction((sign * 0x8000_0000 + exponent * 0x80_0000 + fraction) as u32) == fraction,
{
    let w = (sign * 0x8000_0000 + exponent * 0x80_0000 + fraction) as int;
    vstd::arithmetic::div_mod::lemma_fundamental_div_mod_converse(
        w,
        0x8000_0000,
        sign as int,
        (exponent * 0x80_0000 + fraction) as int,
    );
    vstd::arithmetic::div_mod::lemma_fundamental_div_mod_converse(
        w,
        0x80_0000,
        (sign * 0x100 + exponent) as int,
        fraction as int,
    );
    vstd::arithmetic::div_mod::lemma_fundamental_div_mod_converse(
        (sign * 0x100 + exponent) as int,
        0x100,
        sign as int,
        exponent as int,
    );
}

/// Widening keeps the value. A finite half-precision value becomes the
/// finite single-precision value of the same sign and the same magnitude, an
/// infinity the infinity of the same sign, and a NaN a NaN.
pub proof fn lemma_widening_keeps_the_value(h: u16)
    ensures
        single_sign(widen_half(h)) == half_sign(h),
        half_exponent(h) < 0x1f ==> single_exponent(widen_half(h)) < 0xff && single_magnitude(
            widen_half(h),
        ) == half_magnitude(h) * pow2(125),
        half_exponent(h) == 0x1f ==> single_exponent(widen_half(h)) == 0xff && (single_fraction(
            widen_half(h),
        ) == 0 <==> half_fraction(h) == 0),
{
    let s = half_sign(h);
    let e = half_exponent(h);
    let f = half_fraction(h);
    lemma2_to64();
    if e == 0x1f {
        if f == 0 {
            lemma_single_fields(s, 0xff, 0);
        } else {
            lemma_single_fields(s, 0xff, 0x40_0000 + (f % 0x200) * 0x2000);
        }
    } else if e == 0 {
        if f == 0 {
            lemma_single_fields(s, 0, 0);
            assert(0 * pow2(125) == 0);
        } else {
            let k = top_bit(f);
            lemma_top_bit_bounds(f);
            let low = pow2((23 - k) as nat);
            lemma_pow2_pos((23 - k) as nat);
            lemma_pow2_adds(k, (23 - k) as nat);
            lemma_pow2_adds((102 + k) as nat, (23 - k) as nat);
            let fraction = ((f - pow2(k)) * low) as nat;
            assert(0 <= (f - pow2(k)) * low < 0x80_0000) by (nonlinear_arith)
                requires
                    pow2(k) <= f < 2 * pow2(k),
                    pow2(k) * low == 0x80_0000,
                    low > 0,
            ;
            lemma_single_fields(s, 103 + k, fraction);
            assert((0x80_0000 + fraction) * pow2((102 + k) as nat) == f * pow2(125))
                by (nonlinear_arith)
                requires
                    fraction == (f - pow2(k)) * low,
                    pow2(k) * low == 0x80_0000,
                    pow2((102 + k) as nat) * low == pow2(125),
            ;
        }
    } else {
        lemma_single_fields(s, e + 112, f * 0x2000);
        lemma_pow2_adds((e - 1) as nat, 112);
        lemma_pow2_adds(13, 112);
        assert((0x80_0000 + f * 0x2000) * pow2((e + 111) as nat) == (0x400 + f) * pow2(
            (e - 1) as nat,
        ) * pow2(125)) by (nonlinear_arith)
            requires
                pow2((e + 111) as nat) == pow2((e - 1) as nat) * pow2(112),
                pow2(125) == 0x2000 * pow2(112),
        ;
    }
}

/// The highest set bit of a ten-bit fraction lies below position ten.
proof fn lemma_top_bit_bounds(f: nat)
    requires
        0 < f < 0x400,
    ensures
        top_bit(f) <= 9,
        pow2(top_bit(f)) <= f < 2 * pow2(top_bit(f)),
    decreases f,
{
    lemma2_to64();
    if f > 1 {
        lemma_top_bit_bounds(f / 2);
        lemma_pow2_unfold(top_bit(f));
    }
}

/// Element `k` of a buffer of little-endian single-precision values.
pub open spec fn single_at(bytes: Seq<u8>, k: int) -> u32 {
    le32(bytes[4 * k], bytes[4 * k + 1], bytes[4 * k + 2], bytes[4 * k + 3])
}

/// Element `k` of a buffer of little-endian half-precision values.
pub open spec fn half_at(bytes: Seq<u8>, k: int) -> u16 {
    le16(bytes[2 * k], bytes[2 * k + 1])
}

/// Element `k` of a buffer in the given encoding, as a single-precision bit
/// pattern.
pub open spec fn element_at(bytes: Seq<u8>, encoding: SourceEncoding, k: int) -> u32 {
    match encoding {
        SourceEncoding::Single => single_at(bytes, k),
        SourceEncoding::Half => widen_half(half_at(bytes, k)),
    }
}

/// The single-precision bit patterns that a buffer in the given encoding
/// holds, in storage order. Bytes past the last whole element are not read.
pub open spec fn decoded(bytes: Seq<u8>, encoding: SourceEncoding) -> Seq<u32> {
    Seq::new(
        (bytes.len() / encoding.spec_width()) as nat,
        |k: int| element_at(bytes, encoding, k),
    )
}

/// Reads one little-endian 16-bit value.
pub fn read_le16(b0: u8, b1: u8) -> (r: u16)
    ensures
        r == le16(b0, b1),
{
    b0 as u16 + 0x100 * (b1 as u16)
}

/// Reads one little-endian 32-bit value.
pub fn read_le32(b0: u8, b1: u8, b2: u8, b3: u8) -> (r: u32)
    ensures
        r == le32(b0, b1, b2, b3),
{
    b0 as u32 + 0x100 * (b1 as u32) + 0x1_0000 * (b2 as u32) + 0x100_0000 * (b3 as u32)
}

/// Decodes a buffer that consists of whole elements in the given encoding
/// into single-precision bit patterns.
pub fn decode_elements(bytes: &[u8], encoding: SourceEncoding) -> (out: Vec<u32>)
    requires
        bytes@.len() % encoding.spec_width() == 0,
    ensures
        out@ == decoded(bytes@, encoding),
{
    let w: usize = encoding.width();
    let len: usize = bytes.len();
    let n: usize = len / w;
    let mut out: Vec<u32> = Vec::with_capacity(n);
    let mut k: usize = 0;
    while k < n
        invariant
            len == bytes@.len(),
            encoding == SourceEncoding::Single ==> 4 * n == bytes@.len(),
            encoding == SourceEncoding::Half ==> 2 * n == bytes@.len(),
            k <= n,
            out@.len() == k,
            forall|j: int| 0 <= j < k ==> out@[j] == element_at(bytes@, encoding, j),
        decreases n - k,
    {
        let bits: u32 = match encoding {
            SourceEncoding::Single => read_le32(
                bytes[4 * k],
                bytes[4 * k + 1],
                bytes[4 * k + 2],
                bytes[4 * k + 3],
            ),
            SourceEncoding::Half => widen_half_bits(read_le16(bytes[2 * k], bytes[2 * k + 1])),
        };
        out.push(bits);
        k = k + 1;
    }
    assert(out@ =~= decoded(bytes@, encoding));
    out
}

/// Decodes a buffer of little-endian values in the given encoding into
/// single-precision bit patterns.
///
/// Returns `None` exactly when the buffer does not consist of whole elements.
pub fn decode(bytes: &[u8], encoding: SourceEncoding) -> (r: Option<Vec<u32>>)
    ensures
        r is Some <==> bytes@.len() % encoding.spec_width() == 0,
        r matches Some(v) ==> v@ == decoded(bytes@, encoding),
{
    if bytes.len() % encoding.width() != 0 {
        None
    } else {
        Some(decode_elements(bytes, encoding))
    }
}

} // verus!
