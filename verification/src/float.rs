use vstd::prelude::*;

use crate::digits::canonical;
use crate::digits::dec_digits;
use crate::digits::digits_ok;
use crate::digits::digits_of_u64;
use crate::digits::dval;
use crate::digits::lemma_dec_digits_len;
use crate::digits::lemma_pow10_split;
use crate::digits::lemma_pow5_pos;
use crate::digits::nat_text;
use crate::digits::nat_text_u64;
use crate::digits::pow2;
use crate::digits::pow5;
use crate::digits::text_of_digits;
use crate::digits::times_small;

verus! {

/// The sign bit of a 32-bit float's bit pattern.
pub open spec fn f_sign(bits: u32) -> bool {
    bits >= 0x8000_0000
}

/// The exponent field of a 32-bit float's bit pattern.
pub open spec fn f_exp(bits: u32) -> nat {
    (((bits as nat) / 0x80_0000) % 256) as nat
}

/// The mantissa field of a 32-bit float's bit pattern.
pub open spec fn f_man(bits: u32) -> nat {
    ((bits as nat) % 0x80_0000) as nat
}

/// Whether the bit pattern denotes a NaN.
pub open spec fn f_is_nan(bits: u32) -> bool {
    f_exp(bits) == 255 && f_man(bits) != 0
}

/// Whether the bit pattern denotes an infinity.
pub open spec fn f_is_inf(bits: u32) -> bool {
    f_exp(bits) == 255 && f_man(bits) == 0
}

/// The integral significand of a finite 32-bit float.
pub open spec fn f_sig(bits: u32) -> nat {
    if f_exp(bits) == 0 {
        f_man(bits)
    } else {
        (f_man(bits) + 0x80_0000) as nat
    }
}

/// The binary exponent of a finite 32-bit float: its value is
/// `f_sig(bits) * 2^f_e2(bits)`, negated when the sign bit is set.
pub open spec fn f_e2(bits: u32) -> int {
    if f_exp(bits) == 0 {
        -149
    } else {
        f_exp(bits) - 150
    }
}

/// Whether the bit pattern denotes a zero (of either sign).
pub open spec fn f_is_zero(bits: u32) -> bool {
    !f_is_nan(bits) && !f_is_inf(bits) && f_sig(bits) == 0
}

/// The magnitude of a finite 32-bit float truncated toward zero.
pub open spec fn f_trunc_mag(bits: u32) -> nat {
    if f_e2(bits) >= 0 {
        f_sig(bits) * pow2(f_e2(bits) as nat)
    } else {
        f_sig(bits) / pow2((-f_e2(bits)) as nat)
    }
}

/// What converting a 32-bit float to a 32-bit signed integer yields:
/// truncation toward zero, saturating at the integer's bounds, zero for NaN.
pub open spec fn f32_to_i32_spec(bits: u32) -> i32 {
    if f_is_nan(bits) {
        0
    } else if f_sign(bits) {
        if f_is_inf(bits) || f_trunc_mag(bits) >= 0x8000_0000 {
            i32::MIN
        } else {
            (0 - f_trunc_mag(bits)) as i32
        }
    } else {
        if f_is_inf(bits) || f_trunc_mag(bits) > 0x7FFF_FFFF {
            i32::MAX
        } else {
            f_trunc_mag(bits) as i32
        }
    }
}

/// What converting a 32-bit float to a 32-bit unsigned integer yields:
/// truncation toward zero, saturating at the integer's bounds, zero for NaN
/// and for every negative value.
pub open spec fn f32_to_u32_spec(bits: u32) -> u32 {
    if f_is_nan(bits) || f_sign(bits) {
        0
    } else if f_is_inf(bits) || f_trunc_mag(bits) > 0xFFFF_FFFF {
        u32::MAX
    } else {
        f_trunc_mag(bits) as u32
    }
}

/// 2 raised to a small power, as a 64-bit integer.
pub fn pow2_u64(e: u64) -> (r: u64)
    requires
        e < 64,
    ensures
        r == pow2(e as nat),
        r >= 1,
{
    let mut r: u64 = 1;
    let mut i: u64 = 0;
    while i < e
        invariant
            i <= e < 64,
            r == pow2(i as nat),
            r >= 1,
        decreases e - i,
    {
        proof {
            lemma_pow2_bound(i as nat + 1);
        }
        r = r * 2;
        i = i + 1;
    }
    r
}

/// 2^e < 2^64 whenever e < 64.
proof fn lemma_pow2_bound(e: nat)
    ensures
        e < 64 ==> pow2(e) < 0x1_0000_0000_0000_0000,
        pow2(e) >= 1,
    decreases e,
{
    if e > 0 {
        lemma_pow2_bound((e - 1) as nat);
        if e < 64 {
            lemma_pow2_mono(e, 63);
            lemma_pow2_63();
        }
    }
}

/// The powers of two around the mantissa width, as literals.
pub proof fn lemma_pow2_small_values()
    ensures
        pow2(23) == 0x80_0000,
        pow2(24) == 0x100_0000,
        pow2(25) == 0x200_0000,
    {
    reveal_with_fuel(pow2, 26);
}

/// 2^63 is its literal value.
proof fn lemma_pow2_63()
    ensures
        pow2(63) == 0x8000_0000_0000_0000,
{
    reveal_with_fuel(pow2, 64);
}

/// Powers of two are monotonic.
pub proof fn lemma_pow2_mono(a: nat, b: nat)
    requires
        a <= b,
    ensures
        pow2(a) <= pow2(b),
    decreases b,
{
    if a < b {
        lemma_pow2_mono(a, (b - 1) as nat);
        crate::digits::lemma_pow2_pos((b - 1) as nat);
    }
}

/// Powers of two multiply by adding exponents.
pub proof fn lemma_pow2_adds(a: nat, b: nat)
    ensures
        pow2(a + b) as int == pow2(a) as int * pow2(b) as int,
    decreases a,
{
    if a > 0 {
        let p = (a - 1) as nat;
        lemma_pow2_adds(p, b);
        assert(pow2(a + b) as int == pow2(a) as int * pow2(b) as int) by (nonlinear_arith)
            requires
                pow2(a + b) == 2 * pow2(p + b),
                pow2(p + b) as int == pow2(p) as int * pow2(b) as int,
                pow2(a) == 2 * pow2(p),
        ;
    } else {
        assert(a == 0);
        assert(pow2(0) == 1);
        assert(pow2(a + b) == pow2(b));
        assert(pow2(a) == 1);
    }
}

/// Converts a 32-bit float's bit pattern to a signed integer, saturating.
pub fn f32bits_to_i32(bits: u32) -> (r: i32)
    ensures
        r == f32_to_i32_spec(bits),
{
    let e = (bits / 0x80_0000) % 256;
    let m = bits % 0x80_0000;
    let sign = bits >= 0x8000_0000;
    if e == 255 {
        if m != 0 {
            0
        } else if sign {
            i32::MIN
        } else {
            i32::MAX
        }
    } else {
        let mag = trunc_mag(bits);
        if sign {
            if mag >= 0x8000_0000 {
                i32::MIN
            } else {
                (0i64 - (mag as i64)) as i32
            }
        } else {
            if mag > 0x7FFF_FFFF {
                i32::MAX
            } else {
                mag as i32
            }
        }
    }
}

/// Converts a 32-bit float's bit pattern to an unsigned integer, saturating.
pub fn f32bits_to_u32(bits: u32) -> (r: u32)
    ensures
        r == f32_to_u32_spec(bits),
{
    let e = (bits / 0x80_0000) % 256;
    let m = bits % 0x80_0000;
    let sign = bits >= 0x8000_0000;
    if sign {
        0
    } else if e == 255 {
        if m != 0 {
            0
        } else {
            u32::MAX
        }
    } else {
        let mag = trunc_mag(bits);
        if mag > 0xFFFF_FFFF {
            u32::MAX
        } else {
            mag as u32
        }
    }
}

/// The magnitude of a finite float truncated toward zero, capped so that it
/// still decides every saturation test on 32-bit integers.
fn trunc_mag(bits: u32) -> (r: u64)
    requires
        f_exp(bits) != 255,
    ensures
        r == if f_trunc_mag(bits) > 0x1_0000_0000 {
            0x1_0000_0000u64
        } else {
            f_trunc_mag(bits) as u64
        },
{
    let e = (bits / 0x80_0000) % 256;
    let m = bits % 0x80_0000;
    let sig: u64 = if e == 0 {
        m as u64
    } else {
        (m + 0x80_0000) as u64
    };
    assert(sig == f_sig(bits));
    if e >= 150 {
        // The binary exponent is non-negative.
        let sh = (e - 150) as u64;
        assert(sh == f_e2(bits));
        if sh >= 10 {
            // The value is at least 2^23 * 2^10 = 2^33.
            proof {
                assert(f_sig(bits) >= 0x80_0000);
                lemma_pow2_mono(10, f_e2(bits) as nat);
                reveal_with_fuel(pow2, 11);
                assert(f_sig(bits) * pow2(f_e2(bits) as nat) >= 0x80_0000 * 1024)
                    by (nonlinear_arith)
                    requires
                        f_sig(bits) >= 0x80_0000,
                        pow2(f_e2(bits) as nat) >= 1024,
                ;
            }
            0x1_0000_0000u64
        } else {
            let p = pow2_u64(sh);
            proof {
                reveal_with_fuel(pow2, 11);
                lemma_pow2_mono(sh as nat, 9);
                assert(sig * p <= 0xFF_FFFF * 512) by (nonlinear_arith)
                    requires
                        sig <= 0xFF_FFFF,
                        p <= 512,
                ;
            }
            let v = sig * p;
            if v > 0x1_0000_0000 {
                0x1_0000_0000u64
            } else {
                v
            }
        }
    } else {
        // The binary exponent is negative: truncating divides the significand.
        let s: u64 = if e == 0 {
            149
        } else {
            (150 - e) as u64
        };
        assert(s == -f_e2(bits));
        if s >= 24 {
            proof {
                assert(f_sig(bits) < 0x100_0000);
                lemma_pow2_mono(24, s as nat);
                reveal_with_fuel(pow2, 25);
                vstd::arithmetic::div_mod::lemma_basic_div(f_sig(bits) as int, pow2(
                    s as nat,
                ) as int);
            }
            0u64
        } else {
            let p = pow2_u64(s);
            sig / p
        }
    }
}

/// The number of binary digits of a natural number.
pub open spec fn bitlen(n: nat) -> nat
    decreases n,
{
    if n == 0 {
        0
    } else {
        (1 + bitlen(n / 2)) as nat
    }
}

/// A positive number sits between the two powers of two that its bit length names.
pub proof fn lemma_bitlen_bounds(n: nat)
    requires
        n > 0,
    ensures
        pow2((bitlen(n) - 1) as nat) <= n < pow2(bitlen(n)),
    decreases n,
{
    assert(bitlen(0) == 0);
    if n >= 2 {
        lemma_bitlen_bounds(n / 2);
        let b = bitlen(n / 2);
        assert(bitlen(n) == 1 + b);
        assert(pow2(b + 1) == 2 * pow2(b));
        assert(b >= 1 ==> pow2(b) == 2 * pow2((b - 1) as nat));
    } else {
        assert(bitlen(1) == 1 + bitlen(0));
        assert(pow2(0) == 1);
        assert(pow2(1) == 2 * pow2(0));
    }
}

/// The bit pattern of the 32-bit float nearest to a natural number,
/// rounding ties to the even mantissa; infinity past the float range.
pub open spec fn f32bits_of_nat(n: nat) -> u32 {
    if n == 0 {
        0u32
    } else {
        let p = (bitlen(n) - 1) as nat;
        if p <= 23 {
            ((p + 127) * 0x80_0000 + n * pow2((23 - p) as nat) - 0x80_0000) as u32
        } else {
            let sh = (p - 23) as nat;
            let q = n / pow2(sh);
            let rem = n % pow2(sh);
            let half = pow2((sh - 1) as nat);
            let q2: nat = if rem > half || (rem == half && q % 2 == 1) {
                (q + 1) as nat
            } else {
                q
            };
            if q2 == 0x100_0000 {
                if p + 1 > 127 {
                    0x7F80_0000u32
                } else {
                    ((p + 1 + 127) * 0x80_0000) as u32
                }
            } else {
                if p > 127 {
                    0x7F80_0000u32
                } else {
                    ((p + 127) * 0x80_0000 + q2 - 0x80_0000) as u32
                }
            }
        }
    }
}

/// The bit pattern of the 32-bit float nearest to a signed number.
pub open spec fn f32bits_of_int(v: int) -> u32 {
    if v >= 0 {
        f32bits_of_nat(v as nat)
    } else {
        (0x8000_0000 + f32bits_of_nat((-v) as nat)) as u32
    }
}

/// Rounds a natural number to the nearest 32-bit float, ties to even.
#[verifier::rlimit(30)]
pub fn f32bits_of_u64(n: u64) -> (r: u32)
    ensures
        r == f32bits_of_nat(n as nat),
        r <= 0x7F80_0000,
{
    if n == 0 {
        return 0;
    }
    proof {
        lemma_bitlen_bounds(n as nat);
        if bitlen(n as nat) > 64 {
            lemma_pow2_mono(64, (bitlen(n as nat) - 1) as nat);
            lemma_pow2_63();
            assert(pow2(64) == 2 * pow2(63));
        }
    }
    // Count the binary digits.
    let mut t: u64 = n;
    let mut c: u64 = 0;
    while t >= 2
        invariant
            t >= 1,
            c + bitlen(t as nat) == bitlen(n as nat),
            bitlen(n as nat) <= 64,
        decreases t,
    {
        t = t / 2;
        c = c + 1;
    }
    let p: u64 = c;
    proof {
        assert(bitlen(0) == 0);
        assert(bitlen(1) == 1 + bitlen(0));
        assert(p == bitlen(n as nat) - 1);
        lemma_bitlen_bounds(n as nat);
    }
    if p <= 23 {
        proof {
            lemma_pow2_mono(bitlen(n as nat), 24);
            lemma_pow2_small_values();
            lemma_pow2_adds(p as nat, (23 - p) as nat);
            assert(n * pow2((23 - p) as nat) >= pow2(p as nat) * pow2((23 - p) as nat))
                by (nonlinear_arith)
                requires
                    n >= pow2(p as nat),
                    pow2((23 - p) as nat) >= 1,
            ;
            lemma_pow2_adds((p + 1) as nat, (23 - p) as nat);
            assert(n * pow2((23 - p) as nat) < pow2((p + 1) as nat) * pow2((23 - p) as nat))
                by (nonlinear_arith)
                requires
                    n < pow2((p + 1) as nat),
                    pow2((23 - p) as nat) >= 1,
            ;
        }
        let scaled: u64 = n * pow2_u64(23 - p);
        ((p as u32) + 127) * 0x80_0000 + (scaled as u32) - 0x80_0000
    } else {
        proof {
            if p >= 64 {
                lemma_pow2_mono(64, p as nat);
                reveal_with_fuel(pow2, 65);
            }
        }
        let sh: u64 = p - 23;
        let d: u64 = pow2_u64(sh);
        let q: u64 = n / d;
        let rem: u64 = n % d;
        let half: u64 = pow2_u64(sh - 1);
        proof {
            // 2^23 <= q < 2^24.
            lemma_pow2_adds(sh as nat, 23);
            vstd::arithmetic::div_mod::lemma_div_is_ordered(
                pow2(p as nat) as int,
                n as int,
                d as int,
            );
            vstd::arithmetic::div_mod::lemma_div_multiples_vanish(pow2(23) as int, d as int);
            assert(pow2(p as nat) as int == d as int * pow2(23) as int);
            lemma_pow2_adds(sh as nat, 24);
            assert(pow2(p as nat + 1) as int == d as int * pow2(24) as int);
            vstd::arithmetic::div_mod::lemma_multiply_divide_lt(
                n as int,
                d as int,
                pow2(24) as int,
            );
            lemma_pow2_small_values();
        }
        let up: bool = rem > half || (rem == half && q % 2 == 1);
        let q2: u64 = if up {
            q + 1
        } else {
            q
        };
        if q2 == 0x100_0000 {
            ((p as u32) + 1 + 127) * 0x80_0000
        } else {
            ((p as u32) + 127) * 0x80_0000 + (q2 as u32) - 0x80_0000
        }
    }
}

/// Rounds a signed 32-bit integer to the nearest 32-bit float, ties to even.
pub fn f32bits_of_i32(v: i32) -> (r: u32)
    ensures
        r == f32bits_of_int(v as int),
{
    if v >= 0 {
        f32bits_of_u64(v as u64)
    } else {
        let m: u64 = if v == i32::MIN {
            0x8000_0000u64
        } else {
            (-v) as u64
        };
        0x8000_0000u32 + f32bits_of_u64(m)
    }
}

/// Integers up to the mantissa's width are carried by the float encoding
/// exactly: the encoded float is finite, positive, and truncates back to
/// the very number.
pub proof fn lemma_f32bits_of_nat_exact(n: nat)
    requires
        1 <= n <= 0x80_0000,
    ensures
        !f_is_nan(f32bits_of_nat(n)),
        !f_is_inf(f32bits_of_nat(n)),
        !f_sign(f32bits_of_nat(n)),
        f_trunc_mag(f32bits_of_nat(n)) == n,
{
    lemma_bitlen_bounds(n);
    let p = (bitlen(n) - 1) as nat;
    // n <= 2^23 forces at most 24 binary digits, and exactly 24 only for
    // 2^23 itself, whose top-bit form still fits the small branch.
    assert(pow2(24) == 0x100_0000 && pow2(23) == 0x80_0000) by {
        lemma_pow2_small_values();
    };
    if p > 23 {
        lemma_pow2_mono(24, p);
        assert(false);
    }
    let sh = (23 - p) as nat;
    let scaled = n * pow2(sh);
    lemma_pow2_adds(p, sh);
    assert(scaled >= pow2(p) * pow2(sh)) by (nonlinear_arith)
        requires
            scaled == n * pow2(sh),
            n >= pow2(p),
            pow2(sh) >= 1,
    ;
    assert(scaled < pow2(p + 1) * pow2(sh)) by (nonlinear_arith)
        requires
            scaled == n * pow2(sh),
            n < pow2(p + 1),
            pow2(sh) >= 1,
    ;
    lemma_pow2_adds((p + 1) as nat, sh);
    assert(pow2(p + 1 + sh) == pow2(24));
    assert(pow2(p + sh) == pow2(23));
    assert(0x80_0000 <= scaled < 0x100_0000);
    let bits = f32bits_of_nat(n);
    assert(bits == ((p + 127) * 0x80_0000 + scaled - 0x80_0000) as u32);
    let e = p + 127;
    let m = (scaled - 0x80_0000) as nat;
    assert(bits == e * 0x80_0000 + m);
    assert(bits < 0x8000_0000) by (nonlinear_arith)
        requires
            bits == e * 0x80_0000 + m,
            e <= 150,
            m < 0x80_0000,
    ;
    assert(f_exp(bits) == e) by {
        vstd::arithmetic::div_mod::lemma_fundamental_div_mod_converse(
            bits as int,
            0x80_0000,
            e as int,
            m as int,
        );
        vstd::arithmetic::div_mod::lemma_small_mod(e, 256);
    };
    assert(f_man(bits) == m) by {
        vstd::arithmetic::div_mod::lemma_fundamental_div_mod_converse(
            bits as int,
            0x80_0000,
            e as int,
            m as int,
        );
    };
    assert(f_sig(bits) == scaled);
    assert(f_e2(bits) == p - 23);
    if sh == 0 {
        assert(pow2(0) == 1);
        assert(f_trunc_mag(bits) == scaled * pow2(0));
        assert(scaled == n);
    } else {
        assert(f_trunc_mag(bits) == scaled / pow2(sh));
        vstd::arithmetic::div_mod::lemma_div_multiples_vanish(n as int, pow2(sh) as int);
        assert(scaled as int == pow2(sh) as int * n as int) by (nonlinear_arith)
            requires
                scaled == n * pow2(sh),
        ;
    }
}

/// The number of factors of two in a positive number.
pub open spec fn twos(n: nat) -> nat
    decreases n,
{
    if n == 0 || n % 2 == 1 {
        0
    } else {
        (1 + twos(n / 2)) as nat
    }
}

/// A run of zero characters.
pub open spec fn zero_chars(k: nat) -> Seq<char> {
    Seq::new(k, |i: int| '0')
}

/// The text of a finite 32-bit float: its exact decimal expansion, that is,
/// the full decimal value of `significand * 2^exponent`, with a leading minus
/// sign when negative; NaN and the infinities render by name.
pub open spec fn float_text_spec(bits: u32) -> Seq<char> {
    if f_is_nan(bits) {
        "NaN"@
    } else if f_is_inf(bits) {
        if f_sign(bits) {
            "-inf"@
        } else {
            "inf"@
        }
    } else {
        let sign: Seq<char> = if f_sign(bits) {
            "-"@
        } else {
            Seq::empty()
        };
        let m = f_sig(bits);
        if m == 0 {
            sign + "0"@
        } else if f_e2(bits) >= 0 {
            sign + nat_text(m * pow2(f_e2(bits) as nat))
        } else {
            let s = (-f_e2(bits)) as nat;
            let ipart = m / pow2(s);
            let fpart = m % pow2(s);
            if fpart == 0 {
                sign + nat_text(ipart)
            } else {
                let t = twos(fpart);
                let f2 = (fpart / pow2(t)) as nat;
                let s2 = (s - t) as nat;
                let frac = dec_digits(f2 * pow5(s2));
                sign + nat_text(ipart) + "."@ + zero_chars((s2 - frac.len()) as nat) + frac
            }
        }
    }
}

/// Renders a finite or special 32-bit float, given by its bit pattern,
/// as its exact decimal text.
#[verifier::rlimit(50)]
pub fn float_text(bits: u32) -> (r: String)
    ensures
        r@ == float_text_spec(bits),
{
    let e = (bits / 0x80_0000) % 256;
    let m = bits % 0x80_0000;
    let sign = bits >= 0x8000_0000;
    if e == 255 {
        if m != 0 {
            return String::from_str("NaN");
        } else if sign {
            return String::from_str("-inf");
        } else {
            return String::from_str("inf");
        }
    }
    let sig: u32 = if e == 0 {
        m
    } else {
        m + 0x80_0000
    };
    assert(sig == f_sig(bits));
    let mut out: String = if sign {
        String::from_str("-")
    } else {
        String::new()
    };
    let ghost signseq: Seq<char> = if f_sign(bits) { "-"@ } else { Seq::empty() };
    assert(out@ == signseq);
    if sig == 0 {
        proof {
            reveal_strlit("0");
        }
        out.append("0");
        proof {
            assert(out@ =~= signseq + "0"@);
        }
        return out;
    }
    if e >= 150 {
        // Non-negative binary exponent: the value is sig * 2^(e - 150).
        let sh: u32 = e - 150;
        assert(sh == f_e2(bits));
        let mut v = digits_of_u64(sig as u64);
        let mut i: u32 = 0;
        proof {
            assert(pow2(0) == 1);
        }
        while i < sh
            invariant
                i <= sh,
                digits_ok(v@),
                canonical(v@),
                dval(v@) == sig * pow2(i as nat),
                sig == f_sig(bits),
            decreases sh - i,
        {
            let w = times_small(&v, 2);
            proof {
                assert(pow2(i as nat + 1) == 2 * pow2(i as nat));
                assert(2 * (sig * pow2(i as nat)) == sig * (2 * pow2(i as nat)))
                    by (nonlinear_arith);
            }
            v = w;
            i = i + 1;
        }
        proof {
            crate::digits::lemma_pow2_pos(sh as nat);
            assert(sig * pow2(sh as nat) >= 1) by (nonlinear_arith)
                requires
                    sig >= 1,
                    pow2(sh as nat) >= 1,
            ;
            if v@.len() == 0 {
                assert(dval(v@) == 0);
            }
        }
        let text = text_of_digits(&v);
        out.append(text.as_str());
        proof {
            assert(out@ =~= signseq + nat_text((sig * pow2(f_e2(bits) as nat)) as nat));
        }
        return out;
    }
    // Negative binary exponent: the value is sig / 2^s with s = -e2.
    let s: u32 = if e == 0 {
        149
    } else {
        150 - e
    };
    assert(s == -f_e2(bits));
    let ghost sn = s as nat;
    let ipart: u64;
    let fpart: u64;
    if s >= 24 {
        proof {
            lemma_pow2_small_values();
            lemma_pow2_mono(24, sn);
            vstd::arithmetic::div_mod::lemma_basic_div(sig as int, pow2(sn) as int);
            vstd::arithmetic::div_mod::lemma_small_mod(sig as nat, pow2(sn));
        }
        ipart = 0;
        fpart = sig as u64;
    } else {
        let d = pow2_u64(s as u64);
        ipart = (sig as u64) / d;
        fpart = (sig as u64) % d;
    }
    assert(ipart == f_sig(bits) / pow2(sn));
    assert(fpart == f_sig(bits) % pow2(sn));
    proof {
        if s < 24 {
            lemma_pow2_mono(sn, 23);
            lemma_pow2_small_values();
        }
        assert(fpart < 0x100_0000);
    }
    let itext = nat_text_u64(ipart);
    out.append(itext.as_str());
    if fpart == 0 {
        proof {
            assert(out@ =~= signseq + nat_text(ipart as nat));
        }
        return out;
    }
    // Shed the factors of two in the fractional part; the value is unchanged
    // because the denominator's exponent drops with them.
    let mut f2: u64 = fpart;
    let mut t: u32 = 0;
    proof {
        assert(pow2(0) == 1);
    }
    while f2 % 2 == 0
        invariant
            f2 >= 1,
            t <= 149,
            fpart < 0x100_0000,
            twos(fpart as nat) == t + twos(f2 as nat),
            fpart == f2 * pow2(t as nat),
        decreases f2,
    {
        proof {
            assert(pow2(t as nat + 1) == 2 * pow2(t as nat));
            assert(f2 == 2 * (f2 / 2));
            assert((2 * (f2 / 2)) * pow2(t as nat) == (f2 / 2) * (2 * pow2(t as nat)))
                by (nonlinear_arith);
            if t + 1 > 149 {
                lemma_pow2_mono(25, t as nat + 1);
                lemma_pow2_small_values();
                assert((f2 / 2) * pow2(t as nat + 1) >= pow2(t as nat + 1)) by (nonlinear_arith)
                    requires
                        f2 / 2 >= 1,
                        pow2(t as nat + 1) >= 1,
                ;
            }
        }
        f2 = f2 / 2;
        t = t + 1;
    }
    proof {
        assert(twos(f2 as nat) == 0);
        assert(t == twos(fpart as nat));
        vstd::arithmetic::div_mod::lemma_div_multiples_vanish(f2 as int, pow2(t as nat) as int);
        assert(fpart as int == pow2(t as nat) as int * f2 as int) by (nonlinear_arith)
            requires
                fpart == f2 * pow2(t as nat),
        ;
        assert(f2 == fpart as nat / pow2(t as nat));
        // t stays below s because the fraction is below 2^s.
        assert(fpart < pow2(sn)) by {
            vstd::arithmetic::div_mod::lemma_mod_bound(sig as int, pow2(sn) as int);
            crate::digits::lemma_pow2_pos(sn);
        };
        if t as nat >= sn {
            lemma_pow2_mono(sn, t as nat);
            assert(f2 * pow2(t as nat) >= pow2(t as nat)) by (nonlinear_arith)
                requires
                    f2 >= 1,
                    pow2(t as nat) >= 0,
            ;
        }
    }
    let s2: u32 = s - t;
    proof {
        // f2 is below 2^s2, so the fraction digits fit in s2 places.
        lemma_pow2_adds(t as nat, s2 as nat);
        vstd::arithmetic::div_mod::lemma_multiply_divide_lt(
            fpart as int,
            pow2(t as nat) as int,
            pow2(s2 as nat) as int,
        );
        lemma_pow10_split(s2 as nat);
        lemma_pow5_pos(s2 as nat);
        assert(f2 * pow5(s2 as nat) < pow2(s2 as nat) * pow5(s2 as nat)) by (nonlinear_arith)
            requires
                f2 < pow2(s2 as nat),
                pow5(s2 as nat) >= 1,
        ;
    }
    let mut v = digits_of_u64(f2);
    let mut j: u32 = 0;
    proof {
        assert(pow5(0) == 1);
    }
    while j < s2
        invariant
            j <= s2,
            digits_ok(v@),
            canonical(v@),
            dval(v@) == f2 * pow5(j as nat),
            f2 >= 1,
        decreases s2 - j,
    {
        let w = times_small(&v, 5);
        proof {
            assert(pow5(j as nat + 1) == 5 * pow5(j as nat));
            assert(5 * (f2 * pow5(j as nat)) == f2 * (5 * pow5(j as nat))) by (nonlinear_arith);
        }
        v = w;
        j = j + 1;
    }
    let frac = text_of_digits(&v);
    proof {
        lemma_dec_digits_len((f2 * pow5(s2 as nat)) as nat, s2 as nat);
    }
    proof {
        reveal_strlit(".");
    }
    out.append(".");
    let ghost base = signseq + nat_text(ipart as nat) + "."@;
    proof {
        assert(out@ =~= base);
        assert(zero_chars(0) =~= Seq::<char>::empty());
        assert(out@ =~= base + zero_chars(0));
    }
    let pad: usize = (s2 as usize) - frac.as_str().unicode_len();
    let mut k: usize = 0;
    while k < pad
        invariant
            k <= pad,
            out@ == base + zero_chars(k as nat),
        decreases pad - k,
    {
        push_digit_char_out(&mut out);
        proof {
            assert(zero_chars(k as nat).push('0') =~= zero_chars(k as nat + 1));
            assert(out@ =~= base + zero_chars(k as nat + 1));
        }
        k = k + 1;
    }
    out.append(frac.as_str());
    proof {
        let fr = dec_digits((f2 * pow5(s2 as nat)) as nat);
        assert(out@ =~= signseq + nat_text(ipart as nat) + "."@ + zero_chars(
            (s2 as nat - fr.len()) as nat,
        ) + fr);
    }
    out
}

/// Appends one zero character.
fn push_digit_char_out(s: &mut String)
    ensures
        final(s)@ == old(s)@.push('0'),
{
    crate::digits::push_digit_char(s, 0);
}

} // verus!
