//! Rounding unsigned integers to multiples.

use vstd::prelude::*;

verus! {

/// `x` rounded up to a multiple of `m`; exact multiples stay as they are.
pub open spec fn round_up(x: int, m: int) -> int {
    if x % m == 0 {
        x
    } else {
        x + (m - x % m)
    }
}

/// `x` rounded down to a multiple of `m`.
pub open spec fn round_down(x: int, m: int) -> int {
    x - x % m
}

pub trait Alignable: Sized {
    /// The number this value stands for.
    spec fn num(&self) -> int;

    /// The largest number of the type.
    spec fn max_num() -> int;

    /// Round up, but will not modify exact multiples
    fn align_up(self, multiple: Self) -> (r: Self)
        requires
            multiple.num() > 0,
            round_up(self.num(), multiple.num()) <= Self::max_num(),
        ensures
            r.num() == round_up(self.num(), multiple.num()),
    ;

    /// Round down, but will not modify exact multiples
    fn align_down(self, multiple: Self) -> (r: Self)
        requires
            multiple.num() > 0,
        ensures
            r.num() == round_down(self.num(), multiple.num()),
    ;
}

impl Alignable for u8 {
    open spec fn num(&self) -> int {
        *self as int
    }

    open spec fn max_num() -> int {
        u8::MAX as int
    }

    fn align_up(self, multiple: Self) -> (r: Self) {
        let rem = self % multiple;
        if rem == 0 {
            self
        } else {
            self + (multiple - rem)
        }
    }

    fn align_down(self, multiple: Self) -> (r: Self) {
        let rem = self % multiple;
        proof {
            vstd::arithmetic::div_mod::lemma_mod_decreases(self as nat, multiple as nat);
        }
        self - rem
    }
}

impl Alignable for u16 {
    open spec fn num(&self) -> int {
        *self as int
    }

    open spec fn max_num() -> int {
        u16::MAX as int
    }

    fn align_up(self, multiple: Self) -> (r: Self) {
        let rem = self % multiple;
        if rem == 0 {
            self
        } else {
            self + (multiple - rem)
        }
    }

    fn align_down(self, multiple: Self) -> (r: Self) {
        let rem = self % multiple;
        proof {
            vstd::arithmetic::div_mod::lemma_mod_decreases(self as nat, multiple as nat);
        }
        self - rem
    }
}

impl Alignable for u32 {
    open spec fn num(&self) -> int {
        *self as int
    }

    open spec fn max_num() -> int {
        u32::MAX as int
    }

    fn align_up(self, multiple: Self) -> (r: Self) {
        let rem = self % multiple;
        if rem == 0 {
            self
        } else {
            self + (multiple - rem)
        }
    }

    fn align_down(self, multiple: Self) -> (r: Self) {
        let rem = self % multiple;
        proof {
            vstd::arithmetic::div_mod::lemma_mod_decreases(self as nat, multiple as nat);
        }
        self - rem
    }
}

impl Alignable for usize {
    open spec fn num(&self) -> int {
        *self as int
    }

    open spec fn max_num() -> int {
        usize::MAX as int
    }

    fn align_up(self, multiple: Self) -> (r: Self) {
        let rem = self % multiple;
        if rem == 0 {
            self
        } else {
            self + (multiple - rem)
        }
    }

    fn align_down(self, multiple: Self) -> (r: Self) {
        let rem = self % multiple;
        proof {
            vstd::arithmetic::div_mod::lemma_mod_decreases(self as nat, multiple as nat);
        }
        self - rem
    }
}

/// Rounding up gives the least multiple of `m` that is not below `x`: exact
/// multiples stay as they are, anything else grows by less than `m`.
pub proof fn lemma_round_up(x: int, m: int)
    requires
        x >= 0,
        m > 0,
    ensures
        round_up(x, m) % m == 0,
        x <= round_up(x, m) < x + m,
        round_up(x, m) == x <==> x % m == 0,
{
    let r = x % m;
    let q = x / m;
    assert(x == q * m + r && 0 <= r < m) by {
        vstd::arithmetic::div_mod::lemma_fundamental_div_mod(x, m);
    }
    if r != 0 {
        assert(x + (m - r) == (q + 1) * m) by (nonlinear_arith)
            requires
                x == q * m + r,
        ;
        vstd::arithmetic::div_mod::lemma_mod_multiples_basic(q + 1, m);
    }
}

/// Rounding down gives the greatest multiple of `m` that is not above `x`:
/// exact multiples stay as they are, anything else shrinks by less than `m`.
pub proof fn lemma_round_down(x: int, m: int)
    requires
        x >= 0,
        m > 0,
    ensures
        round_down(x, m) % m == 0,
        x - m < round_down(x, m) <= x,
        round_down(x, m) == x <==> x % m == 0,
{
    let r = x % m;
    let q = x / m;
    assert(x == q * m + r && 0 <= r < m) by {
        vstd::arithmetic::div_mod::lemma_fundamental_div_mod(x, m);
    }
    assert(x - r == q * m);
    vstd::arithmetic::div_mod::lemma_mod_multiples_basic(q, m);
}

} // verus!
