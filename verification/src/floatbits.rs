//! The generic numeric cast, in exact integer arithmetic over IEEE-754 bit
//! patterns. The engine carries float payloads only as raw bit patterns and
//! never computes on them; what a numeric token converts to at another
//! numeric kind is decided here. A conversion happens exactly when the
//! token's value is representable at the target kind without change: a
//! float token whose value is an in-range integer converts to an integer
//! field, an integer token that a float width represents exactly converts
//! to a float field, and a float token converts across float widths when
//! the other width carries the same value. Everything else — fractional,
//! out-of-range, inexact or non-finite — is dropped, and the destination
//! keeps its default.

use vstd::arithmetic::div_mod::{
    lemma_div_denominator, lemma_fundamental_div_mod, lemma_fundamental_div_mod_converse,
};
use vstd::arithmetic::power2::{
    lemma2_to64, lemma2_to64_rest, lemma_pow2_adds, lemma_pow2_strictly_increases,
    lemma_pow2_unfold, pow2,
};
use vstd::prelude::*;

verus! {

// An IEEE-754 binary64 value is sign * (2^52 + fraction) * 2^(exponent - 1075)
// for exponent fields 1 to 2046; binary32 is sign * (2^23 + fraction) *
// 2^(exponent - 150) for exponent fields 1 to 254.

// ------------------------------------------------------------------
// Powers of two, executable
// ------------------------------------------------------------------

/// The number of binary digits of `m`.
pub open spec fn bit_len(m: int) -> nat
    decreases m,
{
    if m <= 0 {
        0
    } else {
        (1 + bit_len(m / 2)) as nat
    }
}

/// A positive number lies between its neighbouring powers of two.
pub proof fn lemma_bit_len_bounds(m: int)
    requires
        m > 0,
    ensures
        bit_len(m) >= 1,
        pow2((bit_len(m) - 1) as nat) <= m < pow2(bit_len(m)),
    decreases m,
{
    if m / 2 == 0 {
        assert(m == 1);
        assert(bit_len(0) == 0);
        assert(bit_len(1int) == 1);
        lemma2_to64();
    } else {
        lemma_bit_len_bounds(m / 2);
        let k = bit_len(m / 2);
        lemma_pow2_unfold(k);
        lemma_pow2_unfold((k + 1) as nat);
        assert(m == 2 * (m / 2) + m % 2);
        assert(m >= 2 * pow2((k - 1) as nat));
        assert(m <= 2 * pow2(k) - 1);
    }
}

/// A number below `2^n` has at most `n` binary digits.
pub proof fn lemma_bit_len_le(m: int, n: nat)
    requires
        0 <= m < pow2(n),
    ensures
        bit_len(m) <= n,
{
    if m > 0 {
        lemma_bit_len_bounds(m);
        if bit_len(m) > n {
            if n < bit_len(m) - 1 {
                lemma_pow2_strictly_increases(n, (bit_len(m) - 1) as nat);
            }
            assert(false);
        }
    }
}

/// Computes the number of binary digits.
pub fn bit_len_u64(m: u64) -> (r: u64)
    ensures
        r as nat == bit_len(m as int),
        r <= 64,
{
    proof {
        lemma2_to64();
        lemma_bit_len_le(m as int, 64);
    }
    let mut x = m;
    let mut n: u64 = 0;
    while x > 0
        invariant
            n as int + bit_len(x as int) == bit_len(m as int),
            n <= bit_len(m as int),
            bit_len(m as int) <= 64,
        decreases x,
    {
        x = x / 2;
        n = n + 1;
    }
    n
}

/// Computes `2^k`.
pub fn pow2_u64(k: u64) -> (r: u64)
    requires
        k <= 63,
    ensures
        r as nat == pow2(k as nat),
        r >= 1,
{
    let mut r: u64 = 1;
    let mut i: u64 = 0;
    proof {
        lemma2_to64();
    }
    while i < k
        invariant
            i <= k,
            k <= 63,
            r as nat == pow2(i as nat),
            r >= 1,
        decreases k - i,
    {
        proof {
            lemma2_to64_rest();
            if (i as nat) < 62 {
                lemma_pow2_strictly_increases(i as nat, 62);
            }
            lemma_pow2_unfold((i + 1) as nat);
        }
        r = r * 2;
        i = i + 1;
    }
    r
}


// ------------------------------------------------------------------
// Float token to integer target: the exact integer value, if any
// ------------------------------------------------------------------

/// The exact integer value of a binary64 bit pattern, as sign and
/// magnitude: `Some` exactly when the value is a finite integer of
/// magnitude below `2^64`.
pub open spec fn f64_exact_int(bits: u64) -> Option<(bool, u64)> {
    let sign = bits / 0x8000_0000_0000_0000u64 == 1;
    let exp = (bits / 0x10_0000_0000_0000u64) % 0x800;
    let frac = bits % 0x10_0000_0000_0000u64;
    if exp == 0x7FF {
        // infinity or not-a-number
        None
    } else if exp == 0 {
        // zero is an integer; a subnormal is below one and is not
        if frac == 0 {
            Some((sign, 0u64))
        } else {
            None
        }
    } else if exp < 1023 {
        // a normal value below one in magnitude
        None
    } else if exp > 1086 {
        // magnitude at least 2^64
        None
    } else if exp >= 1075 {
        Some((sign, ((frac + 0x10_0000_0000_0000) * pow2((exp - 1075) as nat)) as u64))
    } else {
        let m = (frac + 0x10_0000_0000_0000) as int;
        let d = pow2((1075 - exp) as nat) as int;
        if m % d == 0 {
            Some((sign, (m / d) as u64))
        } else {
            None
        }
    }
}

/// Decodes the exact integer value of a binary64 bit pattern.
pub fn f64_exact_int_exec(bits: u64) -> (r: Option<(bool, u64)>)
    ensures
        r == f64_exact_int(bits),
{
    let sign = bits / 0x8000_0000_0000_0000u64 == 1;
    let exp = (bits / 0x10_0000_0000_0000u64) % 0x800;
    let frac = bits % 0x10_0000_0000_0000u64;
    if exp == 0x7FF {
        None
    } else if exp == 0 {
        if frac == 0 {
            Some((sign, 0u64))
        } else {
            None
        }
    } else if exp < 1023 {
        None
    } else if exp > 1086 {
        None
    } else if exp >= 1075 {
        let m = frac + 0x10_0000_0000_0000;
        let f = pow2_u64(exp - 1075);
        proof {
            lemma2_to64();
            if ((exp - 1075) as nat) < 11 {
                lemma_pow2_strictly_increases((exp - 1075) as nat, 11);
            }
            assert(m * f <= 0xFFFF_FFFF_FFFF_F800) by (nonlinear_arith)
                requires
                    m <= 0x1F_FFFF_FFFF_FFFF,
                    f <= 0x800,
            ;
        }
        Some((sign, m * f))
    } else {
        let m = frac + 0x10_0000_0000_0000;
        let d = pow2_u64(1075 - exp);
        if m % d == 0 {
            Some((sign, m / d))
        } else {
            None
        }
    }
}

/// The exact integer value of a binary32 bit pattern, as sign and
/// magnitude.
pub open spec fn f32_exact_int(bits: u32) -> Option<(bool, u64)> {
    let sign = bits / 0x8000_0000u32 == 1;
    let exp = (bits / 0x80_0000u32) % 0x100;
    let frac = bits % 0x80_0000u32;
    if exp == 0xFF {
        None
    } else if exp == 0 {
        if frac == 0 {
            Some((sign, 0u64))
        } else {
            None
        }
    } else if exp < 127 {
        None
    } else if exp > 190 {
        None
    } else if exp >= 150 {
        Some((sign, ((frac + 0x80_0000) * pow2((exp - 150) as nat)) as u64))
    } else {
        let m = (frac + 0x80_0000) as int;
        let d = pow2((150 - exp) as nat) as int;
        if m % d == 0 {
            Some((sign, (m / d) as u64))
        } else {
            None
        }
    }
}

/// Decodes the exact integer value of a binary32 bit pattern.
pub fn f32_exact_int_exec(bits: u32) -> (r: Option<(bool, u64)>)
    ensures
        r == f32_exact_int(bits),
{
    let sign = bits / 0x8000_0000u32 == 1;
    let exp = (bits / 0x80_0000u32) % 0x100;
    let frac = bits % 0x80_0000u32;
    if exp == 0xFF {
        None
    } else if exp == 0 {
        if frac == 0 {
            Some((sign, 0u64))
        } else {
            None
        }
    } else if exp < 127 {
        None
    } else if exp > 190 {
        None
    } else if exp >= 150 {
        let m = (frac + 0x80_0000) as u64;
        let f = pow2_u64((exp - 150) as u64);
        proof {
            lemma2_to64_rest();
            if ((exp - 150) as nat) < 40 {
                lemma_pow2_strictly_increases((exp - 150) as nat, 40);
            }
            assert(m * f <= 0xFFFF_FF00_0000_0000) by (nonlinear_arith)
                requires
                    m <= 0xFF_FFFF,
                    f <= 0x100_0000_0000,
            ;
        }
        Some((sign, m * f))
    } else {
        let m = (frac + 0x80_0000) as u64;
        let d = pow2_u64((150 - exp) as u64);
        if m % d == 0 {
            Some((sign, m / d))
        } else {
            None
        }
    }
}

// ------------------------------------------------------------------
// Sign-and-magnitude fitted to each integer width
// ------------------------------------------------------------------

pub open spec fn mag_to_i8(neg: bool, mag: u64) -> Option<i8> {
    if neg {
        if mag <= 0x80 {
            Some((0 - mag as int) as i8)
        } else {
            None
        }
    } else if mag < 0x80 {
        Some(mag as i8)
    } else {
        None
    }
}

pub fn mag_to_i8_exec(neg: bool, mag: u64) -> (r: Option<i8>)
    ensures
        r == mag_to_i8(neg, mag),
{
    if neg {
        if mag <= 0x80 {
            Some(#[verifier::truncate] ((0 - mag as i64) as i8))
        } else {
            None
        }
    } else if mag < 0x80 {
        Some(#[verifier::truncate] (mag as i8))
    } else {
        None
    }
}

pub open spec fn mag_to_i16(neg: bool, mag: u64) -> Option<i16> {
    if neg {
        if mag <= 0x8000 {
            Some((0 - mag as int) as i16)
        } else {
            None
        }
    } else if mag < 0x8000 {
        Some(mag as i16)
    } else {
        None
    }
}

pub fn mag_to_i16_exec(neg: bool, mag: u64) -> (r: Option<i16>)
    ensures
        r == mag_to_i16(neg, mag),
{
    if neg {
        if mag <= 0x8000 {
            Some(#[verifier::truncate] ((0 - mag as i64) as i16))
        } else {
            None
        }
    } else if mag < 0x8000 {
        Some(#[verifier::truncate] (mag as i16))
    } else {
        None
    }
}

pub open spec fn mag_to_i32(neg: bool, mag: u64) -> Option<i32> {
    if neg {
        if mag <= 0x8000_0000 {
            Some((0 - mag as int) as i32)
        } else {
            None
        }
    } else if mag < 0x8000_0000 {
        Some(mag as i32)
    } else {
        None
    }
}

pub fn mag_to_i32_exec(neg: bool, mag: u64) -> (r: Option<i32>)
    ensures
        r == mag_to_i32(neg, mag),
{
    if neg {
        if mag <= 0x8000_0000 {
            Some(#[verifier::truncate] ((0 - mag as i64) as i32))
        } else {
            None
        }
    } else if mag < 0x8000_0000 {
        Some(#[verifier::truncate] (mag as i32))
    } else {
        None
    }
}

pub open spec fn mag_to_i64(neg: bool, mag: u64) -> Option<i64> {
    if neg {
        if mag <= 0x8000_0000_0000_0000 {
            Some((0 - mag as int) as i64)
        } else {
            None
        }
    } else if mag < 0x8000_0000_0000_0000 {
        Some(mag as i64)
    } else {
        None
    }
}

pub fn mag_to_i64_exec(neg: bool, mag: u64) -> (r: Option<i64>)
    ensures
        r == mag_to_i64(neg, mag),
{
    if neg {
        if mag == 0x8000_0000_0000_0000 {
            Some(i64::MIN)
        } else if mag < 0x8000_0000_0000_0000 {
            Some(0 - (#[verifier::truncate] (mag as i64)))
        } else {
            None
        }
    } else if mag < 0x8000_0000_0000_0000 {
        Some(#[verifier::truncate] (mag as i64))
    } else {
        None
    }
}

pub open spec fn mag_to_u8(neg: bool, mag: u64) -> Option<u8> {
    if neg {
        if mag == 0 {
            Some(0u8)
        } else {
            None
        }
    } else if mag < 0x100 {
        Some(mag as u8)
    } else {
        None
    }
}

pub fn mag_to_u8_exec(neg: bool, mag: u64) -> (r: Option<u8>)
    ensures
        r == mag_to_u8(neg, mag),
{
    if neg {
        if mag == 0 {
            Some(0u8)
        } else {
            None
        }
    } else if mag < 0x100 {
        Some(#[verifier::truncate] (mag as u8))
    } else {
        None
    }
}

pub open spec fn mag_to_u16(neg: bool, mag: u64) -> Option<u16> {
    if neg {
        if mag == 0 {
            Some(0u16)
        } else {
            None
        }
    } else if mag < 0x1_0000 {
        Some(mag as u16)
    } else {
        None
    }
}

pub fn mag_to_u16_exec(neg: bool, mag: u64) -> (r: Option<u16>)
    ensures
        r == mag_to_u16(neg, mag),
{
    if neg {
        if mag == 0 {
            Some(0u16)
        } else {
            None
        }
    } else if mag < 0x1_0000 {
        Some(#[verifier::truncate] (mag as u16))
    } else {
        None
    }
}

pub open spec fn mag_to_u32(neg: bool, mag: u64) -> Option<u32> {
    if neg {
        if mag == 0 {
            Some(0u32)
        } else {
            None
        }
    } else if mag < 0x1_0000_0000 {
        Some(mag as u32)
    } else {
        None
    }
}

pub fn mag_to_u32_exec(neg: bool, mag: u64) -> (r: Option<u32>)
    ensures
        r == mag_to_u32(neg, mag),
{
    if neg {
        if mag == 0 {
            Some(0u32)
        } else {
            None
        }
    } else if mag < 0x1_0000_0000 {
        Some(#[verifier::truncate] (mag as u32))
    } else {
        None
    }
}

pub open spec fn mag_to_u64(neg: bool, mag: u64) -> Option<u64> {
    if neg {
        if mag == 0 {
            Some(0u64)
        } else {
            None
        }
    } else {
        Some(mag)
    }
}

pub fn mag_to_u64_exec(neg: bool, mag: u64) -> (r: Option<u64>)
    ensures
        r == mag_to_u64(neg, mag),
{
    if neg {
        if mag == 0 {
            Some(0u64)
        } else {
            None
        }
    } else {
        Some(mag)
    }
}

// ------------------------------------------------------------------
// Integer token to float target: the exact bit pattern, if any
// ------------------------------------------------------------------

/// The sign and magnitude of a signed token.
pub open spec fn i64_mag(x: i64) -> u64 {
    if x >= 0 {
        x as u64
    } else {
        (0 - x as int) as u64
    }
}

pub fn i64_mag_exec(x: i64) -> (r: u64)
    ensures
        r == i64_mag(x),
{
    if x >= 0 {
        #[verifier::truncate] (x as u64)
    } else {
        let below = 0 - (x + 1);
        (#[verifier::truncate] (below as u64)) + 1
    }
}

/// The binary64 bit pattern carrying exactly the integer of the given sign
/// and magnitude: `Some` exactly when binary64 represents it without
/// change (at most 53 significant binary digits).
pub open spec fn int_to_f64_bits(neg: bool, mag: u64) -> Option<u64> {
    if mag == 0 {
        Some(0u64)
    } else {
        let n = bit_len(mag as int) as int;
        let sgn: int = if neg {
            0x8000_0000_0000_0000
        } else {
            0
        };
        if n <= 53 {
            let m53 = (mag as int) * pow2((53 - n) as nat);
            Some((sgn + (n + 1022) * 0x10_0000_0000_0000 + (m53 - 0x10_0000_0000_0000)) as u64)
        } else {
            let d = pow2((n - 53) as nat) as int;
            if (mag as int) % d == 0 {
                let m53 = (mag as int) / d;
                Some(
                    (sgn + (n + 1022) * 0x10_0000_0000_0000 + (m53 - 0x10_0000_0000_0000)) as u64,
                )
            } else {
                None
            }
        }
    }
}

/// Builds the exact binary64 bit pattern of an integer, when one exists.
pub fn int_to_f64_bits_exec(neg: bool, mag: u64) -> (r: Option<u64>)
    ensures
        r == int_to_f64_bits(neg, mag),
{
    if mag == 0 {
        Some(0u64)
    } else {
        let n = bit_len_u64(mag);
        let sgn: u64 = if neg {
            0x8000_0000_0000_0000
        } else {
            0
        };
        proof {
            lemma_bit_len_bounds(mag as int);
            lemma2_to64();
            lemma2_to64_rest();
        }
        if n <= 53 {
            let f = pow2_u64(53 - n);
            proof {
                lemma_pow2_adds(n as nat, (53 - n) as nat);
                lemma_pow2_adds((n - 1) as nat, (53 - n) as nat);
                assert((mag as int) * (f as int) < pow2(53)) by (nonlinear_arith)
                    requires
                        (mag as int) < pow2(n as nat),
                        f >= 1,
                        f as nat == pow2((53 - n) as nat),
                        pow2(n as nat) * pow2((53 - n) as nat) == pow2(53),
                ;
                assert((mag as int) * (f as int) >= pow2(52)) by (nonlinear_arith)
                    requires
                        (mag as int) >= pow2((n - 1) as nat),
                        f as nat == pow2((53 - n) as nat),
                        pow2((n - 1) as nat) * pow2((53 - n) as nat) == pow2(52),
                ;
            }
            let m53 = mag * f;
            Some(sgn + (n + 1022) * 0x10_0000_0000_0000 + (m53 - 0x10_0000_0000_0000))
        } else {
            let d = pow2_u64(n - 53);
            if mag % d == 0 {
                let m53 = mag / d;
                proof {
                    lemma_pow2_adds(52, (n - 53) as nat);
                    lemma_pow2_adds(53, (n - 53) as nat);
                    assert((mag as int) / (d as int) >= pow2(52)) by (nonlinear_arith)
                        requires
                            (mag as int) >= pow2((n - 1) as nat),
                            d as nat == pow2((n - 53) as nat),
                            d >= 1,
                            (mag as int) % (d as int) == 0,
                            pow2((n - 1) as nat) == pow2(52) * pow2((n - 53) as nat),
                    ;
                    assert((mag as int) / (d as int) < pow2(53)) by (nonlinear_arith)
                        requires
                            (mag as int) < pow2(n as nat),
                            d as nat == pow2((n - 53) as nat),
                            d >= 1,
                            pow2(n as nat) == pow2(53) * pow2((n - 53) as nat),
                    ;
                }
                Some(sgn + (n + 1022) * 0x10_0000_0000_0000 + (m53 - 0x10_0000_0000_0000))
            } else {
                None
            }
        }
    }
}

/// The binary32 bit pattern carrying exactly the integer of the given sign
/// and magnitude (at most 24 significant binary digits).
pub open spec fn int_to_f32_bits(neg: bool, mag: u64) -> Option<u32> {
    if mag == 0 {
        Some(0u32)
    } else {
        let n = bit_len(mag as int) as int;
        let sgn: int = if neg {
            0x8000_0000
        } else {
            0
        };
        if n <= 24 {
            let m24 = (mag as int) * pow2((24 - n) as nat);
            Some((sgn + (n + 126) * 0x80_0000 + (m24 - 0x80_0000)) as u32)
        } else {
            let d = pow2((n - 24) as nat) as int;
            if (mag as int) % d == 0 {
                let m24 = (mag as int) / d;
                Some((sgn + (n + 126) * 0x80_0000 + (m24 - 0x80_0000)) as u32)
            } else {
                None
            }
        }
    }
}

/// Builds the exact binary32 bit pattern of an integer, when one exists.
pub fn int_to_f32_bits_exec(neg: bool, mag: u64) -> (r: Option<u32>)
    ensures
        r == int_to_f32_bits(neg, mag),
{
    if mag == 0 {
        Some(0u32)
    } else {
        let n = bit_len_u64(mag);
        let sgn: u32 = if neg {
            0x8000_0000
        } else {
            0
        };
        proof {
            lemma_bit_len_bounds(mag as int);
            lemma2_to64();
            lemma2_to64_rest();
        }
        if n <= 24 {
            let f = pow2_u64(24 - n);
            proof {
                lemma_pow2_adds(n as nat, (24 - n) as nat);
                lemma_pow2_adds((n - 1) as nat, (24 - n) as nat);
                assert((mag as int) * (f as int) < pow2(24)) by (nonlinear_arith)
                    requires
                        (mag as int) < pow2(n as nat),
                        f >= 1,
                        f as nat == pow2((24 - n) as nat),
                        pow2(n as nat) * pow2((24 - n) as nat) == pow2(24),
                ;
                assert((mag as int) * (f as int) >= pow2(23)) by (nonlinear_arith)
                    requires
                        (mag as int) >= pow2((n - 1) as nat),
                        f as nat == pow2((24 - n) as nat),
                        pow2((n - 1) as nat) * pow2((24 - n) as nat) == pow2(23),
                ;
            }
            let m24 = mag * f;
            Some(
                sgn + ((#[verifier::truncate] (n as u32)) + 126) * 0x80_0000 + ((
                #[verifier::truncate] (m24 as u32)) - 0x80_0000),
            )
        } else {
            let d = pow2_u64(n - 24);
            if mag % d == 0 {
                let m24 = mag / d;
                proof {
                    lemma_pow2_adds(23, (n - 24) as nat);
                    lemma_pow2_adds(24, (n - 24) as nat);
                    assert((mag as int) / (d as int) >= pow2(23)) by (nonlinear_arith)
                        requires
                            (mag as int) >= pow2((n - 1) as nat),
                            d as nat == pow2((n - 24) as nat),
                            d >= 1,
                            (mag as int) % (d as int) == 0,
                            pow2((n - 1) as nat) == pow2(23) * pow2((n - 24) as nat),
                    ;
                    assert((mag as int) / (d as int) < pow2(24)) by (nonlinear_arith)
                        requires
                            (mag as int) < pow2(n as nat),
                            d as nat == pow2((n - 24) as nat),
                            d >= 1,
                            pow2(n as nat) == pow2(24) * pow2((n - 24) as nat),
                    ;
                }
                Some(
                    sgn + ((#[verifier::truncate] (n as u32)) + 126) * 0x80_0000 + ((
                    #[verifier::truncate] (m24 as u32)) - 0x80_0000),
                )
            } else {
                None
            }
        }
    }
}

// ------------------------------------------------------------------
// Float token to the other float width
// ------------------------------------------------------------------

/// The binary32 bit pattern carrying exactly the value of a binary64 bit
/// pattern: `Some` exactly when the value is zero or a binary32-normal
/// value whose mantissa fits; values that would land in binary32's
/// subnormal range, and non-finite values, are not converted.
pub open spec fn f64_to_f32_bits_exact(bits: u64) -> Option<u32> {
    let sign = bits / 0x8000_0000_0000_0000u64 == 1;
    let exp = (bits / 0x10_0000_0000_0000u64) % 0x800;
    let frac = bits % 0x10_0000_0000_0000u64;
    let sgn: int = if sign {
        0x8000_0000
    } else {
        0
    };
    if exp == 0x7FF {
        None
    } else if exp == 0 && frac == 0 {
        Some(sgn as u32)
    } else if exp == 0 {
        None
    } else if exp < 897 || exp > 1150 {
        None
    } else if frac % 0x2000_0000 == 0 {
        Some((sgn + (exp - 896) * 0x80_0000 + frac / 0x2000_0000) as u32)
    } else {
        None
    }
}

/// Narrows a binary64 bit pattern to binary32 exactly, when possible.
pub fn f64_to_f32_bits_exact_exec(bits: u64) -> (r: Option<u32>)
    ensures
        r == f64_to_f32_bits_exact(bits),
{
    let sign = bits / 0x8000_0000_0000_0000u64 == 1;
    let exp = (bits / 0x10_0000_0000_0000u64) % 0x800;
    let frac = bits % 0x10_0000_0000_0000u64;
    let sgn: u32 = if sign {
        0x8000_0000
    } else {
        0
    };
    if exp == 0x7FF {
        None
    } else if exp == 0 && frac == 0 {
        Some(sgn)
    } else if exp == 0 {
        None
    } else if exp < 897 || exp > 1150 {
        None
    } else if frac % 0x2000_0000 == 0 {
        Some(
            sgn + ((#[verifier::truncate] (exp as u32)) - 896) * 0x80_0000 + (
            #[verifier::truncate] ((frac / 0x2000_0000) as u32)),
        )
    } else {
        None
    }
}

/// The binary64 bit pattern carrying exactly the value of a binary32 bit
/// pattern: every finite binary32 value widens exactly; non-finite values
/// are not converted.
pub open spec fn f32_to_f64_bits_exact(bits: u32) -> Option<u64> {
    let sign = bits / 0x8000_0000u32 == 1;
    let exp = (bits / 0x80_0000u32) % 0x100;
    let frac = bits % 0x80_0000u32;
    let sgn: int = if sign {
        0x8000_0000_0000_0000
    } else {
        0
    };
    if exp == 0xFF {
        None
    } else if exp == 0 && frac == 0 {
        Some(sgn as u64)
    } else if exp == 0 {
        // a binary32 subnormal normalizes inside binary64's normal range
        let n = bit_len(frac as int) as int;
        let m53 = (frac as int) * pow2((53 - n) as nat);
        Some((sgn + (n + 873) * 0x10_0000_0000_0000 + (m53 - 0x10_0000_0000_0000)) as u64)
    } else {
        Some((sgn + (exp + 896) * 0x10_0000_0000_0000 + frac * 0x2000_0000) as u64)
    }
}

/// Widens a binary32 bit pattern to binary64 exactly, for finite values.
pub fn f32_to_f64_bits_exact_exec(bits: u32) -> (r: Option<u64>)
    ensures
        r == f32_to_f64_bits_exact(bits),
{
    let sign = bits / 0x8000_0000u32 == 1;
    let exp = (bits / 0x80_0000u32) % 0x100;
    let frac = bits % 0x80_0000u32;
    let sgn: u64 = if sign {
        0x8000_0000_0000_0000
    } else {
        0
    };
    if exp == 0xFF {
        None
    } else if exp == 0 && frac == 0 {
        Some(sgn)
    } else if exp == 0 {
        let n = bit_len_u64(frac as u64);
        proof {
            lemma_bit_len_bounds(frac as int);
            lemma2_to64();
            lemma2_to64_rest();
            lemma_bit_len_le(frac as int, 23);
        }
        let f = pow2_u64(53 - n);
        proof {
            lemma_pow2_adds(n as nat, (53 - n) as nat);
            lemma_pow2_adds((n - 1) as nat, (53 - n) as nat);
            assert((frac as int) * (f as int) < pow2(53)) by (nonlinear_arith)
                requires
                    (frac as int) < pow2(n as nat),
                    f >= 1,
                    f as nat == pow2((53 - n) as nat),
                    pow2(n as nat) * pow2((53 - n) as nat) == pow2(53),
            ;
            assert((frac as int) * (f as int) >= pow2(52)) by (nonlinear_arith)
                requires
                    (frac as int) >= pow2((n - 1) as nat),
                    f as nat == pow2((53 - n) as nat),
                    pow2((n - 1) as nat) * pow2((53 - n) as nat) == pow2(52),
            ;
        }
        let m53 = (frac as u64) * f;
        Some(sgn + (n + 873) * 0x10_0000_0000_0000 + (m53 - 0x10_0000_0000_0000))
    } else {
        proof {
            lemma2_to64();
            lemma2_to64_rest();
        }
        Some(sgn + ((exp as u64) + 896) * 0x10_0000_0000_0000 + (frac as u64) * 0x2000_0000)
    }
}

// ------------------------------------------------------------------
// Consistency of the two directions
// ------------------------------------------------------------------

/// The two independently written formulas agree: a bit pattern built for
/// an integer decodes back to exactly that integer (a zero magnitude comes
/// back as the unsigned zero, since integer tokens carry no negative
/// zero).
pub proof fn lemma_int_to_f64_bits_inverse(neg: bool, mag: u64)
    requires
        int_to_f64_bits(neg, mag) is Some,
    ensures
        f64_exact_int(int_to_f64_bits(neg, mag).unwrap()) == Some(
            (
                if mag == 0 {
                    false
                } else {
                    neg
                },
                mag,
            ),
        ),
{
    lemma2_to64();
    lemma2_to64_rest();
    if mag == 0 {
    } else {
        lemma_bit_len_bounds(mag as int);
        lemma_bit_len_le(mag as int, 64);
        let n = bit_len(mag as int) as int;
        assert(1 <= n <= 64);
        let sgn: int = if neg {
            0x8000_0000_0000_0000
        } else {
            0
        };
        let s_bit: int = if neg {
            1
        } else {
            0
        };
        let e_field = n + 1022;
        let m53: int = if n <= 53 {
            (mag as int) * pow2((53 - n) as nat)
        } else {
            (mag as int) / (pow2((n - 53) as nat) as int)
        };
        if n <= 53 {
            lemma_pow2_adds((n - 1) as nat, (53 - n) as nat);
            lemma_pow2_adds(n as nat, (53 - n) as nat);
            assert(m53 >= pow2(52)) by (nonlinear_arith)
                requires
                    (mag as int) >= pow2((n - 1) as nat),
                    m53 == (mag as int) * pow2((53 - n) as nat),
                    pow2((n - 1) as nat) * pow2((53 - n) as nat) == pow2(52),
                    pow2((53 - n) as nat) >= 1,
            ;
            assert(m53 < pow2(53)) by (nonlinear_arith)
                requires
                    (mag as int) < pow2(n as nat),
                    m53 == (mag as int) * pow2((53 - n) as nat),
                    pow2(n as nat) * pow2((53 - n) as nat) == pow2(53),
                    pow2((53 - n) as nat) >= 1,
            ;
        } else {
            let d = pow2((n - 53) as nat) as int;
            lemma_pow2_adds(52, (n - 53) as nat);
            lemma_pow2_adds(53, (n - 53) as nat);
            vstd::arithmetic::div_mod::lemma_fundamental_div_mod(mag as int, d);
            assert(mag as int == d * m53);
            assert(m53 >= pow2(52)) by (nonlinear_arith)
                requires
                    (mag as int) >= pow2((n - 1) as nat),
                    mag as int == d * m53,
                    pow2((n - 1) as nat) == pow2(52) * d,
                    d >= 1,
            ;
            assert(m53 < pow2(53)) by (nonlinear_arith)
                requires
                    (mag as int) < pow2(n as nat),
                    mag as int == d * m53,
                    pow2(n as nat) == pow2(53) * d,
                    d >= 1,
            ;
        }
        let ffield = m53 - 0x10_0000_0000_0000;
        let b_int = sgn + e_field * 0x10_0000_0000_0000 + ffield;
        let b = int_to_f64_bits(neg, mag).unwrap();
        assert(b == b_int as u64);
        assert(0 <= b_int < pow2(64)) by {
            assert(e_field * 0x10_0000_0000_0000 <= 1086 * 0x10_0000_0000_0000);
        }
        assert(b as int == b_int);
        // Field decomposition of the built pattern.
        lemma_fundamental_div_mod_converse(
            b_int,
            0x10_0000_0000_0000,
            s_bit * 0x800 + e_field,
            ffield,
        );
        lemma_fundamental_div_mod_converse(s_bit * 0x800 + e_field, 0x800, s_bit, e_field);
        lemma_fundamental_div_mod_converse(
            b_int,
            0x8000_0000_0000_0000,
            s_bit,
            e_field * 0x10_0000_0000_0000 + ffield,
        );
        assert(b / 0x8000_0000_0000_0000u64 == s_bit);
        assert((b / 0x10_0000_0000_0000u64) % 0x800 == e_field);
        assert(b % 0x10_0000_0000_0000u64 == ffield);
        // Decode the fields back.
        if e_field >= 1075 {
            assert(n >= 53);
            if n <= 53 {
                assert(n == 53);
                assert(pow2(0) == 1);
                assert(m53 == (mag as int) * pow2(0));
                assert((mag as int) * 1 == mag as int) by (nonlinear_arith);
                assert(m53 == mag as int);
            } else {
                let d = pow2((n - 53) as nat) as int;
                assert((ffield + 0x10_0000_0000_0000) * pow2((e_field - 1075) as nat) == m53 * d);
                assert(mag as int == d * m53);
                assert(m53 * d == d * m53) by (nonlinear_arith);
            }
        } else {
            assert(n < 53);
            let d = pow2((1075 - e_field) as nat) as int;
            assert(d == pow2((53 - n) as nat) as int);
            assert(m53 == (mag as int) * d);
            lemma_fundamental_div_mod_converse(m53, d, mag as int, 0);
        }
    }
}

/// The binary32 counterpart: a bit pattern built for an integer decodes
/// back to exactly that integer.
pub proof fn lemma_int_to_f32_bits_inverse(neg: bool, mag: u64)
    requires
        int_to_f32_bits(neg, mag) is Some,
    ensures
        f32_exact_int(int_to_f32_bits(neg, mag).unwrap()) == Some(
            (
                if mag == 0 {
                    false
                } else {
                    neg
                },
                mag,
            ),
        ),
{
    lemma2_to64();
    lemma2_to64_rest();
    if mag == 0 {
    } else {
        lemma_bit_len_bounds(mag as int);
        lemma_bit_len_le(mag as int, 64);
        let n = bit_len(mag as int) as int;
        assert(1 <= n <= 64);
        let sgn: int = if neg {
            0x8000_0000
        } else {
            0
        };
        let s_bit: int = if neg {
            1
        } else {
            0
        };
        let e_field = n + 126;
        let m24: int = if n <= 24 {
            (mag as int) * pow2((24 - n) as nat)
        } else {
            (mag as int) / (pow2((n - 24) as nat) as int)
        };
        if n <= 24 {
            lemma_pow2_adds((n - 1) as nat, (24 - n) as nat);
            lemma_pow2_adds(n as nat, (24 - n) as nat);
            assert(m24 >= pow2(23)) by (nonlinear_arith)
                requires
                    (mag as int) >= pow2((n - 1) as nat),
                    m24 == (mag as int) * pow2((24 - n) as nat),
                    pow2((n - 1) as nat) * pow2((24 - n) as nat) == pow2(23),
                    pow2((24 - n) as nat) >= 1,
            ;
            assert(m24 < pow2(24)) by (nonlinear_arith)
                requires
                    (mag as int) < pow2(n as nat),
                    m24 == (mag as int) * pow2((24 - n) as nat),
                    pow2(n as nat) * pow2((24 - n) as nat) == pow2(24),
                    pow2((24 - n) as nat) >= 1,
            ;
        } else {
            let d = pow2((n - 24) as nat) as int;
            lemma_pow2_adds(23, (n - 24) as nat);
            lemma_pow2_adds(24, (n - 24) as nat);
            vstd::arithmetic::div_mod::lemma_fundamental_div_mod(mag as int, d);
            assert(mag as int == d * m24);
            assert(m24 >= pow2(23)) by (nonlinear_arith)
                requires
                    (mag as int) >= pow2((n - 1) as nat),
                    mag as int == d * m24,
                    pow2((n - 1) as nat) == pow2(23) * d,
                    d >= 1,
            ;
            assert(m24 < pow2(24)) by (nonlinear_arith)
                requires
                    (mag as int) < pow2(n as nat),
                    mag as int == d * m24,
                    pow2(n as nat) == pow2(24) * d,
                    d >= 1,
            ;
        }
        let ffield = m24 - 0x80_0000;
        let b_int = sgn + e_field * 0x80_0000 + ffield;
        let b = int_to_f32_bits(neg, mag).unwrap();
        assert(b == b_int as u32);
        assert(0 <= b_int < pow2(32)) by {
            assert(e_field * 0x80_0000 <= 190 * 0x80_0000);
        }
        assert(b as int == b_int);
        lemma_fundamental_div_mod_converse(b_int, 0x80_0000, s_bit * 0x100 + e_field, ffield);
        lemma_fundamental_div_mod_converse(s_bit * 0x100 + e_field, 0x100, s_bit, e_field);
        lemma_fundamental_div_mod_converse(
            b_int,
            0x8000_0000,
            s_bit,
            e_field * 0x80_0000 + ffield,
        );
        assert(b / 0x8000_0000u32 == s_bit);
        assert((b / 0x80_0000u32) % 0x100 == e_field);
        assert(b % 0x80_0000u32 == ffield);
        if e_field >= 150 {
            assert(n >= 24);
            if n <= 24 {
                assert(n == 24);
                assert(pow2(0) == 1);
                assert(m24 == (mag as int) * pow2(0));
                assert((mag as int) * 1 == mag as int) by (nonlinear_arith);
                assert(m24 == mag as int);
            } else {
                let d = pow2((n - 24) as nat) as int;
                assert((ffield + 0x80_0000) * pow2((e_field - 150) as nat) == m24 * d);
                assert(mag as int == d * m24);
                assert(m24 * d == d * m24) by (nonlinear_arith);
            }
        } else {
            assert(n < 24);
            let d = pow2((150 - e_field) as nat) as int;
            assert(d == pow2((24 - n) as nat) as int);
            assert(m24 == (mag as int) * d);
            lemma_fundamental_div_mod_converse(m24, d, mag as int, 0);
        }
    }
}

/// Any binary64 bit pattern is its three fields put back together.
proof fn lemma_f64_fields(b: u64)
    ensures
        b as int == (b / 0x8000_0000_0000_0000u64) * 0x8000_0000_0000_0000 + ((b
            / 0x10_0000_0000_0000u64) % 0x800) * 0x10_0000_0000_0000 + (b
            % 0x10_0000_0000_0000u64),
        b / 0x8000_0000_0000_0000u64 <= 1,
{
    lemma_fundamental_div_mod(b as int, 0x10_0000_0000_0000);
    lemma_fundamental_div_mod((b as int) / 0x10_0000_0000_0000, 0x800);
    lemma_div_denominator(b as int, 0x10_0000_0000_0000, 0x800);
}

/// Any binary32 bit pattern is its three fields put back together.
proof fn lemma_f32_fields(c: u32)
    ensures
        c as int == (c / 0x8000_0000u32) * 0x8000_0000 + ((c / 0x80_0000u32) % 0x100) * 0x80_0000
            + (c % 0x80_0000u32),
        c / 0x8000_0000u32 <= 1,
{
    lemma_fundamental_div_mod(c as int, 0x80_0000);
    lemma_fundamental_div_mod((c as int) / 0x80_0000, 0x100);
    lemma_div_denominator(c as int, 0x80_0000, 0x100);
}

/// The two float-width formulas agree: whatever the narrowing accepts, the
/// widening carries back to the very bit pattern it came from.
pub proof fn lemma_f64_narrow_widen_inverse(b: u64)
    requires
        f64_to_f32_bits_exact(b) is Some,
    ensures
        f32_to_f64_bits_exact(f64_to_f32_bits_exact(b).unwrap()) == Some(b),
{
    lemma2_to64();
    lemma2_to64_rest();
    lemma_f64_fields(b);
    let s = (b / 0x8000_0000_0000_0000u64) as int;
    let e = ((b / 0x10_0000_0000_0000u64) % 0x800) as int;
    let f = (b % 0x10_0000_0000_0000u64) as int;
    let c = f64_to_f32_bits_exact(b).unwrap();
    if e == 0 && f == 0 {
        // zero: the sign carries over and everything else is zero
        let c_int = s * 0x8000_0000;
        assert(c as int == c_int);
        lemma_fundamental_div_mod_converse(c_int, 0x80_0000, s * 0x100, 0);
        lemma_fundamental_div_mod_converse(s * 0x100, 0x100, s, 0);
        lemma_fundamental_div_mod_converse(c_int, 0x8000_0000, s, 0);
        assert(b as int == s * 0x8000_0000_0000_0000);
    } else {
        // a normal narrowing: 897 <= e <= 1150 and the low fraction bits
        // are zero
        lemma_fundamental_div_mod(f, 0x2000_0000);
        let f32v = f / 0x2000_0000;
        assert(f == 0x2000_0000 * f32v);
        let e32 = e - 896;
        let c_int = s * 0x8000_0000 + e32 * 0x80_0000 + f32v;
        assert(c as int == c_int);
        assert(f32v < 0x80_0000) by {
            assert(f < 0x10_0000_0000_0000);
        }
        lemma_fundamental_div_mod_converse(c_int, 0x80_0000, s * 0x100 + e32, f32v);
        lemma_fundamental_div_mod_converse(s * 0x100 + e32, 0x100, s, e32);
        lemma_fundamental_div_mod_converse(c_int, 0x8000_0000, s, e32 * 0x80_0000 + f32v);
        assert(c / 0x8000_0000u32 == s);
        assert((c / 0x80_0000u32) % 0x100 == e32);
        assert(c % 0x80_0000u32 == f32v);
        assert(f32v * 0x2000_0000 == f);
    }
}

} // verus!
