//! Wrapping index arithmetic: a remainder that never goes negative for a
//! positive divisor, used to cycle through list selections.
use vstd::prelude::*;

verus! {

/// Absolute value of an integer.
pub open spec fn abs(x: int) -> int {
    if x < 0 {
        -x
    } else {
        x
    }
}

/// Remainder of `a` by `b` as Rust's `%` computes it on signed integers:
/// the quotient is truncated toward zero, so the result takes the sign of `a`.
pub open spec fn trunc_rem(a: int, b: int) -> int {
    if a >= 0 {
        a % abs(b)
    } else {
        -((-a) % abs(b))
    }
}

/// `((a % b) + b) % b` with truncating remainders, and `0` for a zero divisor.
pub open spec fn modulo_spec(a: int, b: int) -> int {
    if b == 0 {
        0
    } else {
        trunc_rem(trunc_rem(a, b) + b, b)
    }
}

/// The computation of [`modulo_spec`] in a signed type whose range is `min..=max`
/// neither overflows nor divides `min` by `-1`.
pub open spec fn modulo_fits(a: int, b: int, min: int, max: int) -> bool {
    b == 0 || (!(a == min && b == -1) && min <= trunc_rem(a, b) + b <= max)
}

proof fn lemma_mod_neg_divisor(a: int, b: int)
    requires
        b < 0,
    ensures
        a % b == a % (-b),
{
    vstd::arithmetic::div_mod::lemma_fundamental_div_mod(a, b);
    let q = a / b;
    let r = a % b;
    assert(b * q == (-q) * (-b)) by (nonlinear_arith);
    vstd::arithmetic::div_mod::lemma_fundamental_div_mod_converse(a, -b, -q, r);
}

/// Ties the truncating `%` of Rust's signed integers to [`trunc_rem`].
pub proof fn lemma_signed_rem(a: int, b: int)
    requires
        b != 0,
    ensures
        a >= 0 ==> a % abs(b) == (if b > 0 { a % b } else { a % (-b) }),
        b < 0 ==> a % b == a % (-b),
        b < 0 ==> (-a) % b == (-a) % (-b),
{
    if b < 0 {
        lemma_mod_neg_divisor(a, b);
        lemma_mod_neg_divisor(-a, b);
    }
}

/// For a positive divisor the wrapped remainder is the mathematical one:
/// it lies in `0..b` and differs from `a` by a multiple of `b`.
pub proof fn lemma_modulo_positive(a: int, b: int)
    requires
        b > 0,
    ensures
        modulo_spec(a, b) == a % b,
        0 <= modulo_spec(a, b) < b,
{
    vstd::arithmetic::div_mod::lemma_mod_bound(a, b);
    if a >= 0 {
        let r1 = a % b;
        vstd::arithmetic::div_mod::lemma_mod_bound(a, b);
        vstd::arithmetic::div_mod::lemma_fundamental_div_mod_converse(r1 + b, b, 1, r1);
    } else {
        vstd::arithmetic::div_mod::lemma_fundamental_div_mod(-a, b);
        let q = (-a) / b;
        let m = (-a) % b;
        vstd::arithmetic::div_mod::lemma_mod_bound(-a, b);
        if m == 0 {
            vstd::arithmetic::div_mod::lemma_fundamental_div_mod_converse(b, b, 1, 0);
            assert(a == (-q) * b + 0) by (nonlinear_arith)
                requires
                    -a == b * q + m,
                    m == 0,
            ;
            vstd::arithmetic::div_mod::lemma_fundamental_div_mod_converse(a, b, -q, 0);
        } else {
            vstd::arithmetic::div_mod::lemma_fundamental_div_mod_converse(b - m, b, 0, b - m);
            assert(a == (-q - 1) * b + (b - m)) by (nonlinear_arith)
                requires
                    -a == b * q + m,
            ;
            vstd::arithmetic::div_mod::lemma_fundamental_div_mod_converse(a, b, -q - 1, b - m);
        }
    }
}

/// Wrapped remainder of two unsigned numbers, computed through `i32` as
/// `((a % b) + b) % b`; `0` when `b` is zero.
pub open spec fn modulo_u32_spec(a: u32, b: u32) -> u32 {
    if b == 0 {
        0
    } else {
        ((trunc_rem(a as i32 as int, b as i32 as int) + (b as i32)) as i32 as u32) % b
    }
}

/// Cycles `a` into `0..b` (`0` when `b` is zero). Both values pass through
/// `i32`, as in the rest of the selection code.
pub fn modulo(a: u32, b: u32) -> (r: u32)
    requires
        modulo_fits(a as i32 as int, b as i32 as int, i32::MIN as int, i32::MAX as int),
    ensures
        r == modulo_u32_spec(a, b),
        a <= i32::MAX && 0 < b <= i32::MAX ==> r == a % b,
{
    if b == 0 {
        return 0;
    }
    let ai = a as i32;
    let bi = b as i32;
    proof {
        assert((bi as u32) == b && bi != 0) by (bit_vector)
            requires
                bi == b as i32,
                b != 0,
        ;
        lemma_signed_rem(ai as int, bi as int);
    }
    let r = ((ai % bi) + bi) as u32 % bi as u32;
    proof {
        if a <= i32::MAX && 0 < b <= i32::MAX {
            lemma_modulo_positive(a as int, b as int);
        }
    }
    r
}

/// Wrapping remainder on a numeric type: `((self % b) + b) % b`, and zero
/// for a zero divisor.
pub trait Modulo: Sized {
    /// The computation stays inside the type's range.
    spec fn modulo_ok(self, b: Self) -> bool;

    /// What [`Modulo::modulo`] returns.
    spec fn modulo_result(self, b: Self) -> Self;

    fn modulo(self, b: Self) -> (r: Self)
        requires
            self.modulo_ok(b),
        ensures
            r == self.modulo_result(b),
    ;
}

impl Modulo for i32 {
    open spec fn modulo_ok(self, b: i32) -> bool {
        modulo_fits(self as int, b as int, i32::MIN as int, i32::MAX as int)
    }

    open spec fn modulo_result(self, b: i32) -> i32 {
        modulo_spec(self as int, b as int) as i32
    }

    fn modulo(self, b: i32) -> (r: i32)
        ensures
            r as int == modulo_spec(self as int, b as int),
            b > 0 ==> r == (self as int) % (b as int),
    {
        if b == 0 {
            return 0;
        }
        proof {
            lemma_signed_rem(self as int, b as int);
            lemma_signed_rem(trunc_rem(self as int, b as int) + b, b as int);
            if b > 0 {
                lemma_modulo_positive(self as int, b as int);
            }
        }
        ((self % b) + b) % b
    }
}

impl Modulo for isize {
    open spec fn modulo_ok(self, b: isize) -> bool {
        modulo_fits(self as int, b as int, isize::MIN as int, isize::MAX as int)
    }

    open spec fn modulo_result(self, b: isize) -> isize {
        modulo_spec(self as int, b as int) as isize
    }

    fn modulo(self, b: isize) -> (r: isize)
        ensures
            r as int == modulo_spec(self as int, b as int),
            b > 0 ==> r == (self as int) % (b as int),
    {
        if b == 0 {
            return 0;
        }
        proof {
            lemma_signed_rem(self as int, b as int);
            lemma_signed_rem(trunc_rem(self as int, b as int) + b, b as int);
            if b > 0 {
                lemma_modulo_positive(self as int, b as int);
            }
        }
        ((self % b) + b) % b
    }
}

impl Modulo for u32 {
    open spec fn modulo_ok(self, b: u32) -> bool {
        modulo_fits(self as i32 as int, b as i32 as int, i32::MIN as int, i32::MAX as int)
    }

    open spec fn modulo_result(self, b: u32) -> u32 {
        if b == 0 {
            0
        } else {
            modulo_spec(self as i32 as int, b as i32 as int) as i32 as u32
        }
    }

    fn modulo(self, b: u32) -> (r: u32)
        ensures
            self <= i32::MAX && 0 < b <= i32::MAX ==> r == self % b,
    {
        if b == 0 {
            return 0;
        }
        proof {
            assert((b as i32) != 0) by (bit_vector)
                requires
                    b != 0,
            ;
        }
        let r = (self as i32).modulo(b as i32) as u32;
        proof {
            if self <= i32::MAX && 0 < b <= i32::MAX {
                lemma_modulo_positive(self as int, b as int);
            }
        }
        r
    }
}

impl Modulo for usize {
    open spec fn modulo_ok(self, b: usize) -> bool {
        modulo_fits(self as isize as int, b as isize as int, isize::MIN as int, isize::MAX as int)
    }

    open spec fn modulo_result(self, b: usize) -> usize {
        if b == 0 {
            0
        } else {
            modulo_spec(self as isize as int, b as isize as int) as isize as usize
        }
    }

    fn modulo(self, b: usize) -> (r: usize)
        ensures
            self <= isize::MAX && 0 < b <= isize::MAX ==> r == self % b,
    {
        if b == 0 {
            return 0;
        }
        proof {
            assert((b as isize) != 0) by (bit_vector)
                requires
                    b != 0,
            ;
        }
        let r = (self as isize).modulo(b as isize) as usize;
        proof {
            if self <= isize::MAX && 0 < b <= isize::MAX {
                lemma_modulo_positive(self as int, b as int);
            }
        }
        r
    }
}

} // verus!
