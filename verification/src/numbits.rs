//! Integer views of IEEE-754 double words.
//!
//! The machine never performs floating-point arithmetic itself, but it
//! must produce number words: an integer add that overflows the 32-bit
//! payload deoptimizes to a double, and `as_number`-style widening of
//! an integer tag yields the double with the same value.  Every
//! integer of magnitude below 2^53 is exactly representable, so the
//! bit pattern can be computed (and recovered) with integer arithmetic
//! alone.  `bits_de_entero` builds the word, `entero_de_bits` reads it
//! back, and the two are proved inverse to one another.

use vstd::arithmetic::power2::{
    lemma2_to64, lemma2_to64_rest, lemma_pow2_adds, lemma_pow2_pos, lemma_pow2_strictly_increases,
    pow2,
};
use vstd::arithmetic::div_mod::lemma_fundamental_div_mod_converse;
use vstd::bits::{lemma_u64_shl_is_mul, lemma_u64_shr_is_div};
use vstd::prelude::*;

use crate::value::Value;

verus! {

/// 2^52: the width of the fraction field of a double.
pub const DOS_52: u64 = 0x10000000000000;

/// 2^63: the sign bit of a double.
pub const DOS_63: u64 = 0x8000000000000000;

/// 2^53: magnitudes below this are exactly representable.
pub const DOS_53: u64 = 0x20000000000000;

/// Position of the highest set bit.
pub open spec fn ilog2(n: nat) -> nat
    decreases n,
{
    if n <= 1 {
        0
    } else {
        1 + ilog2(n / 2)
    }
}

pub proof fn lema_ilog2(n: nat)
    requires
        n >= 1,
    ensures
        pow2(ilog2(n)) <= n < pow2(ilog2(n) + 1),
    decreases n,
{
    lemma2_to64();
    if n > 1 {
        lema_ilog2(n / 2);
        lemma_pow2_adds(ilog2(n / 2), 1);
        lemma_pow2_adds((ilog2(n / 2) + 1) as nat, 1);
    }
}

pub proof fn lema_ilog2_unico(n: nat, p: nat)
    requires
        n >= 1,
        pow2(p) <= n < pow2(p + 1),
    ensures
        ilog2(n) == p,
{
    lema_ilog2(n);
    if ilog2(n) < p {
        lemma_pow2_strictly_increases(ilog2(n) + 1, p + 1);
        if ilog2(n) + 1 < p {
            lemma_pow2_strictly_increases(ilog2(n) + 1, p);
        }
    }
    if ilog2(n) > p {
        if p + 1 < ilog2(n) {
            lemma_pow2_strictly_increases(p + 1, ilog2(n));
        }
    }
}

/// The double word whose value is the integer `v`, for |v| < 2^53:
/// sign, biased exponent `1023 + ilog2(|v|)`, and the magnitude shifted
/// so that its leading bit falls out of the 52-bit fraction field.
pub open spec fn bits_de_entero(v: int) -> u64
    recommends
        -(DOS_53 as int) < v < DOS_53 as int,
{
    if v == 0 {
        0
    } else {
        let mag = if v < 0 {
            (-v) as nat
        } else {
            v as nat
        };
        let p = ilog2(mag);
        let signo: int = if v < 0 {
            DOS_63 as int
        } else {
            0
        };
        (signo + (1023 + p) * (DOS_52 as int) + (mag * pow2((52 - p) as nat) - DOS_52)) as u64
    }
}

/// Reads a double word back as an integer: `Some(v)` exactly when the
/// word is the representation of the integer `v` with |v| < 2^53 that
/// `bits_de_entero` produces.  Subnormals, fractions and wider
/// exponents read as `None`.
pub open spec fn entero_de_bits(b: u64) -> Option<int> {
    if b == 0 {
        Some(0int)
    } else {
        let signo = b as int / DOS_63 as int;
        let expo = (b as int / DOS_52 as int) % 2048;
        let frac = b as int % DOS_52 as int;
        if expo < 1023 || expo > 1023 + 52 {
            None
        } else {
            let p = (expo - 1023) as nat;
            if frac % (pow2((52 - p) as nat) as int) != 0 {
                None
            } else {
                let mag = pow2(p) as int + frac / pow2((52 - p) as nat) as int;
                if signo == 1 {
                    Some(-mag)
                } else {
                    Some(mag)
                }
            }
        }
    }
}

/// Every representable integer is read back exactly: decoding the
/// encoding of any `v` with |v| < 2^53 yields `v` again.  With `v` in
/// the 32-bit range this is the round trip of an integer-tagged value
/// through its widening to a number and back.
pub proof fn lema_entero_bits_ida_vuelta(v: int)
    requires
        -(DOS_53 as int) < v < DOS_53 as int,
    ensures
        entero_de_bits(bits_de_entero(v)) == Some(v),
{
    lemma2_to64();
    lemma2_to64_rest();
    if v != 0 {
        let mag = if v < 0 {
            (-v) as nat
        } else {
            v as nat
        };
        let p = ilog2(mag);
        lema_ilog2(mag);
        if p >= 53 {
            if p > 53 {
                lemma_pow2_strictly_increases(53, p);
            }
            assert(false);
        }
        let s: int = if v < 0 {
            1
        } else {
            0
        };
        let expo: int = 1023 + p as int;
        lemma_pow2_adds(p as nat, (52 - p) as nat);
        // frac = (mag - 2^p) * 2^(52-p), in [0, 2^52)
        let frac: int = mag * pow2((52 - p) as nat) - DOS_52;
        assert(frac == (mag - pow2(p)) * pow2((52 - p) as nat)) by (nonlinear_arith)
            requires
                frac == mag * pow2((52 - p) as nat) - DOS_52,
                DOS_52 == pow2(p) * pow2((52 - p) as nat),
        ;
        lemma_pow2_pos((52 - p) as nat);
        assert((mag - pow2(p)) * pow2((52 - p) as nat) < pow2(p) * pow2((52 - p) as nat)
            && 0 <= (mag - pow2(p)) * pow2((52 - p) as nat)) by (nonlinear_arith)
            requires
                pow2(p) <= mag < pow2(p + 1),
                pow2(p + 1) == pow2(p) * 2,
                pow2((52 - p) as nat) > 0,
        ;
        assert(pow2(p) * pow2((52 - p) as nat) == DOS_52);
        let b_int: int = s * DOS_63 + expo * DOS_52 + frac;
        assert(expo * DOS_52 + frac < DOS_63 && expo * DOS_52 >= 0) by (nonlinear_arith)
            requires
                1023 <= expo <= 1075,
                0 <= frac < DOS_52,
        ;
        assert(bits_de_entero(v) == b_int as u64);
        assert(0 <= b_int < 0x10000000000000000);
        let b: u64 = b_int as u64;
        assert(b != 0);
        // Recover the sign field.
        lemma_fundamental_div_mod_converse(b as int, DOS_63 as int, s, expo * DOS_52 + frac);
        // Recover the exponent field.
        assert(b as int == (s * 2048 + expo) * DOS_52 + frac) by (nonlinear_arith)
            requires
                b as int == s * DOS_63 + expo * DOS_52 + frac,
                DOS_63 == 2048 * DOS_52,
        ;
        lemma_fundamental_div_mod_converse(b as int, DOS_52 as int, s * 2048 + expo, frac);
        lemma_fundamental_div_mod_converse(s * 2048 + expo, 2048, s, expo);
        // Recover the fraction field.
        lemma_fundamental_div_mod_converse(
            frac,
            pow2((52 - p) as nat) as int,
            mag - pow2(p),
            0,
        );
    }
}

/// The encoding of a representable integer is never in the tag space:
/// its exponent field stays below the quiet-NaN pattern.
pub proof fn lema_bits_no_qnan(v: int)
    requires
        -(DOS_53 as int) < v < DOS_53 as int,
    ensures
        bits_de_entero(v) & crate::value::QNAN != crate::value::QNAN,
{
    lemma2_to64();
    lemma2_to64_rest();
    if v == 0 {
        assert(0u64 & 0x7ffc000000000000u64 != 0x7ffc000000000000u64) by (bit_vector);
    } else {
        let mag = if v < 0 {
            (-v) as nat
        } else {
            v as nat
        };
        let p = ilog2(mag);
        lema_ilog2(mag);
        if p >= 53 {
            if p > 53 {
                lemma_pow2_strictly_increases(53, p);
            }
            assert(false);
        }
        let s: int = if v < 0 {
            1
        } else {
            0
        };
        let expo: int = 1023 + p as int;
        lemma_pow2_adds(p as nat, (52 - p) as nat);
        let frac: int = mag * pow2((52 - p) as nat) - DOS_52;
        lemma_pow2_pos((52 - p) as nat);
        assert((mag - pow2(p)) * pow2((52 - p) as nat) < pow2(p) * pow2((52 - p) as nat) && 0 <= (
        mag - pow2(p)) * pow2((52 - p) as nat)) by (nonlinear_arith)
            requires
                pow2(p) <= mag < pow2(p + 1),
                pow2(p + 1) == pow2(p) * 2,
                pow2((52 - p) as nat) > 0,
        ;
        assert(frac == (mag - pow2(p)) * pow2((52 - p) as nat)) by (nonlinear_arith)
            requires
                frac == mag * pow2((52 - p) as nat) - DOS_52,
                DOS_52 == pow2(p) * pow2((52 - p) as nat),
        ;
        assert(expo * DOS_52 + frac < DOS_63 && expo * DOS_52 >= 0) by (nonlinear_arith)
            requires
                1023 <= expo <= 1075,
                0 <= frac < DOS_52,
        ;
        let b_int: int = s * DOS_63 + expo * DOS_52 + frac;
        assert(bits_de_entero(v) == b_int as u64);
        lema_qnan_campos(s as u64, expo as u64, frac as u64);
        assert(b_int == (s as u64) * DOS_63 + (expo as u64) * DOS_52 + (frac as u64));
    }
}

proof fn lema_qnan_campos(s: u64, e: u64, f: u64)
    by (bit_vector)
    requires
        s <= 1,
        1023 <= e <= 1075,
        f < 0x10000000000000,
    ensures
        ((s * 0x8000000000000000 + e * 0x10000000000000 + f) as u64) & 0x7ffc000000000000
            != 0x7ffc000000000000,
{
}

/// Find the position of the highest set bit of a nonzero word.
fn bit_mas_alto(mag: u64) -> (p: u64)
    requires
        mag >= 1,
    ensures
        p == ilog2(mag as nat),
        p <= 63,
        pow2(p as nat) <= mag < pow2((p + 1) as nat),
{
    let mut p: u64 = 0;
    proof {
        broadcast use lemma_u64_shr_is_div;

        lemma2_to64();
        lemma2_to64_rest();
    }
    while (mag >> p) > 1
        invariant
            mag >= 1,
            p <= 63,
            mag as nat / pow2(p as nat) >= 1,
        decreases 64 - p,
    {
        proof {
            broadcast use lemma_u64_shr_is_div;

            if p == 63 {
                lemma2_to64_rest();
                assert(mag as nat / pow2(63) <= 1);
            }
            lemma_pow2_adds(p as nat, 1);
            lemma2_to64();
            assert(mag as nat / pow2((p + 1) as nat) == (mag as nat / pow2(p as nat)) / 2) by {
                lemma_pow2_pos(p as nat);
                vstd::arithmetic::div_mod::lemma_div_denominator(
                    mag as int,
                    pow2(p as nat) as int,
                    2,
                );
            }
        }
        p = p + 1;
    }
    proof {
        broadcast use lemma_u64_shr_is_div;

        lemma_pow2_pos(p as nat);
        lemma_pow2_adds(p as nat, 1);
        lemma2_to64();
        assert(mag as nat / pow2(p as nat) == 1);
        vstd::arithmetic::div_mod::lemma_fundamental_div_mod(mag as int, pow2(p as nat) as int);
        lema_ilog2_unico(mag as nat, p as nat);
    }
    p
}

/// Build the double word for an exactly representable integer.
pub fn bits_doble_de_i64(n: i64) -> (r: u64)
    requires
        -(DOS_53 as int) < n < DOS_53 as int,
    ensures
        r == bits_de_entero(n as int),
{
    if n == 0 {
        return 0;
    }
    let signo: u64 = if n < 0 {
        DOS_63
    } else {
        0
    };
    let mag: u64 = if n < 0 {
        (-n) as u64
    } else {
        n as u64
    };
    let p: u64 = bit_mas_alto(mag);
    proof {
        if p >= 53 {
            lemma2_to64_rest();
            if p > 53 {
                lemma_pow2_strictly_increases(53, p as nat);
            }
            assert(false);
        }
        vstd::bits::lemma_u64_pow2_no_overflow((52 - p) as nat);
        lemma_u64_shl_is_mul(1u64, (52 - p) as u64);
        lemma2_to64();
        lemma2_to64_rest();
        assert((mag as nat) * pow2((52 - p) as nat) < pow2((p + 1) as nat) * pow2(
            (52 - p) as nat,
        )) by (nonlinear_arith)
            requires
                (mag as nat) < pow2((p + 1) as nat),
                pow2((52 - p) as nat) > 0,
        ;
        lemma_pow2_adds((p + 1) as nat, (52 - p) as nat);
        assert((mag as nat) * pow2((52 - p) as nat) >= pow2(p as nat) * pow2(
            (52 - p) as nat,
        )) by (nonlinear_arith)
            requires
                (mag as nat) >= pow2(p as nat),
                pow2((52 - p) as nat) > 0,
        ;
        lemma_pow2_adds(p as nat, (52 - p) as nat);
    }
    let escala: u64 = 1u64 << ((52 - p) as u64);
    let frac_total: u64 = mag * escala;
    let expo: u64 = 1023 + p;
    signo + expo * DOS_52 + (frac_total - DOS_52)
}

/// Read a double word back as a 32-bit integer, if that is exactly
/// what it holds.
pub fn entero_de_bits_doble(b: u64) -> (r: Option<i32>)
    ensures
        match r {
            Some(n) => entero_de_bits(b) == Some(n as int),
            None => match entero_de_bits(b) {
                Some(v) => v < -0x80000000 || v > 0x7fffffff,
                None => true,
            },
        },
{
    proof {
        broadcast use lemma_u64_shr_is_div;

        lemma2_to64();
        lemma2_to64_rest();
    }
    if b == 0 {
        return Some(0);
    }
    let signo: u64 = b >> 63;
    let expo: u64 = (b >> 52) % 2048;
    let frac: u64 = b % DOS_52;
    if expo < 1023 || expo > 1023 + 52 {
        return None;
    }
    let p: u64 = expo - 1023;
    proof {
        vstd::bits::lemma_u64_pow2_no_overflow((52 - p) as nat);
        lemma_u64_shl_is_mul(1u64, (52 - p) as u64);
        lemma_pow2_pos((52 - p) as nat);
    }
    let escala: u64 = 1u64 << ((52 - p) as u64);
    if frac % escala != 0 {
        return None;
    }
    proof {
        vstd::bits::lemma_u64_pow2_no_overflow(p as nat);
        lemma_u64_shl_is_mul(1u64, p as u64);
        lemma_pow2_pos(p as nat);
        vstd::arithmetic::div_mod::lemma_fundamental_div_mod(frac as int, escala as int);
        assert((frac as int) / (escala as int) < pow2(52) as int) by (nonlinear_arith)
            requires
                escala > 0,
                frac < pow2(52),
                (escala as int) * ((frac as int) / (escala as int)) <= frac as int,
        ;
    }
    let mag: u64 = (1u64 << (p as u64)) + frac / escala;
    if signo == 1 {
        if mag > 0x80000000 {
            None
        } else {
            Some((-(mag as i64)) as i32)
        }
    } else {
        if mag > 0x7fffffff {
            None
        } else {
            Some(mag as i32)
        }
    }
}

impl Value {
    /// The word this value reads as under numeric widening: an
    /// integer tag yields the double with the same value; any other
    /// word is returned unchanged.
    pub open spec fn bits_numero_s(self) -> u64 {
        if self.es_entero_s() {
            bits_de_entero(self.carga_entera() as int)
        } else {
            self.0
        }
    }

    /// What a word coming back from native code normalizes to: double
    /// bits that encode an exact 32-bit integer become the integer
    /// tag; any other word stays as it is.
    pub open spec fn normaliza_retorno_s(v: Value) -> Value {
        if v.0 & crate::value::QNAN != crate::value::QNAN {
            match entero_de_bits(v.0) {
                Some(k) => if i32::MIN <= k <= i32::MAX {
                    Value::entero_s(k as i32)
                } else {
                    v
                },
                None => v,
            }
        } else {
            v
        }
    }

    /// Numeric widening: the bits of the double a number-valued word
    /// stands for.
    pub fn a_numero_bits(&self) -> (r: u64)
        ensures
            r == self.bits_numero_s(),
    {
        if self.es_entero() {
            let n = self.a_entero();
            bits_doble_de_i64(n as i64)
        } else {
            self.0
        }
    }
}

} // verus!
