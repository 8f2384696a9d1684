//! IEEE-754 binary32 numbers held by their encoding, with the ordering that
//! the floating-point comparison operators give them.
use vstd::prelude::*;

verus! {

/// A binary32 floating-point number, held by its 32-bit encoding.
#[derive(Clone, Copy, Debug, PartialEq, Eq, Structural)]
pub struct F32 {
    pub bits: u32,
}

/// Whether an encoding denotes NaN: all exponent bits set and a non-zero fraction.
pub open spec fn is_nan_bits(b: u32) -> bool {
    (b & 0x7f80_0000) == 0x7f80_0000 && (b & 0x007f_ffff) != 0
}

/// Position of a non-NaN encoding on the number line: the magnitude bits with
/// the sign applied. Both zeros map to 0, and the map is monotone in the value.
pub open spec fn order_key(b: u32) -> int {
    if b & 0x8000_0000 == 0 {
        b as int
    } else {
        -((b & 0x7fff_ffff) as int)
    }
}

/// `a <= b` as floating-point comparison decides it (false when either is NaN).
pub open spec fn le_bits(a: u32, b: u32) -> bool {
    !is_nan_bits(a) && !is_nan_bits(b) && order_key(a) <= order_key(b)
}

/// `a < b` as floating-point comparison decides it (false when either is NaN).
pub open spec fn lt_bits(a: u32, b: u32) -> bool {
    !is_nan_bits(a) && !is_nan_bits(b) && order_key(a) < order_key(b)
}

/// `(lo..=hi).contains(&v)`.
pub open spec fn in_range_bits(v: u32, lo: u32, hi: u32) -> bool {
    le_bits(lo, v) && le_bits(v, hi)
}

impl F32 {
    /// Wraps an encoding, as `f32::from_bits` reads it.
    pub fn from_bits(bits: u32) -> (r: Self)
        ensures
            r.bits == bits,
    {
        F32 { bits }
    }

    /// The encoding, as `f32::to_bits` gives it.
    pub fn to_bits(&self) -> (r: u32)
        ensures
            r == self.bits,
    {
        self.bits
    }
}

fn is_nan(b: u32) -> (r: bool)
    ensures
        r == is_nan_bits(b),
{
    (b & 0x7f80_0000) == 0x7f80_0000 && (b & 0x007f_ffff) != 0
}

/// `a <= b` on binary32 numbers.
pub fn le(a: F32, b: F32) -> (r: bool)
    ensures
        r == le_bits(a.bits, b.bits),
{
    if is_nan(a.bits) || is_nan(b.bits) {
        return false;
    }
    let x = a.bits;
    let y = b.bits;
    let an = x & 0x8000_0000 != 0;
    let bn = y & 0x8000_0000 != 0;
    let am = x & 0x7fff_ffff;
    let bm = y & 0x7fff_ffff;
    proof {
        assert(x & 0x8000_0000 == 0 ==> x == (x & 0x7fff_ffff)) by (bit_vector);
        assert(y & 0x8000_0000 == 0 ==> y == (y & 0x7fff_ffff)) by (bit_vector);
    }
    if !an && !bn {
        am <= bm
    } else if an && bn {
        bm <= am
    } else if an {
        true
    } else {
        am == 0 && bm == 0
    }
}

/// `a < b` on binary32 numbers.
pub fn lt(a: F32, b: F32) -> (r: bool)
    ensures
        r == lt_bits(a.bits, b.bits),
{
    if is_nan(a.bits) || is_nan(b.bits) {
        return false;
    }
    !le(b, a)
}

/// `(lo..=hi).contains(&v)` on binary32 numbers.
pub fn in_range(v: F32, lo: F32, hi: F32) -> (r: bool)
    ensures
        r == in_range_bits(v.bits, lo.bits, hi.bits),
{
    le(lo, v) && le(v, hi)
}

/// The sign, magnitude and NaN test of an encoding, as plain arithmetic.
pub proof fn lemma_bits_arith(b: u32)
    ensures
        (b & 0x8000_0000 == 0) == (b < 0x8000_0000),
        b < 0x8000_0000 ==> (b & 0x7fff_ffff) == b,
        b >= 0x8000_0000 ==> (b & 0x7fff_ffff) == b - 0x8000_0000,
        is_nan_bits(b) == ((b & 0x7fff_ffff) > 0x7f80_0000),
{
    assert((b & 0x8000_0000 == 0) == (b < 0x8000_0000)) by (bit_vector);
    assert(b < 0x8000_0000 ==> (b & 0x7fff_ffff) == b) by (bit_vector);
    assert(b >= 0x8000_0000 ==> (b & 0x7fff_ffff) == b - 0x8000_0000) by (bit_vector);
    assert(((b & 0x7f80_0000) == 0x7f80_0000 && (b & 0x007f_ffff) != 0) == ((b & 0x7fff_ffff) > 0x7f80_0000))
        by (bit_vector);
}

} // verus!
