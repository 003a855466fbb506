//! 256-bit bridged amounts with checked arithmetic that fails instead of
//! wrapping.

use vstd::prelude::*;

verus! {

/// 2^128, the weight of the high word of a 256-bit value.
#[verifier::inline]
pub open spec fn word_bound() -> nat {
    0x100000000000000000000000000000000nat
}

/// 2^256, the first value a 256-bit amount cannot hold.
pub open spec fn amount_bound() -> nat {
    word_bound() * word_bound()
}

/// Why a checked operation failed.
#[derive(Clone, Copy, Debug, PartialEq, Eq, Structural)]
pub enum OverflowError {
    /// The sum would exceed the fixed width.
    Overflow,
    /// The subtrahend exceeds the minuend.
    Underflow,
}

/// An unsigned 256-bit integer, stored as two machine words.
#[derive(Clone, Copy, Debug, PartialEq, Eq)]
pub struct Uint256 {
    lo: u128,
    hi: u128,
}

impl View for Uint256 {
    type V = nat;

    closed spec fn view(&self) -> nat {
        (self.lo + self.hi * word_bound()) as nat
    }
}

impl Uint256 {
    pub fn zero() -> (r: Self)
        ensures
            r@ == 0,
    {
        Uint256 { lo: 0, hi: 0 }
    }

    pub fn from_u128(v: u128) -> (r: Self)
        ensures
            r@ == v,
    {
        Uint256 { lo: v, hi: 0 }
    }

    /// Build a value from its two 128-bit words.
    pub fn from_words(hi: u128, lo: u128) -> (r: Self)
        ensures
            r@ == lo + hi * word_bound(),
    {
        Uint256 { lo, hi }
    }

    pub fn is_zero(&self) -> (r: bool)
        ensures
            r == (self@ == 0),
    {
        self.lo == 0 && self.hi == 0
    }

    /// Every 256-bit value lies under `amount_bound()`.
    pub proof fn lemma_bounded(self)
        ensures
            self@ < amount_bound(),
    {
        assert(self.lo < word_bound());
        assert(self.hi * word_bound() <= (word_bound() - 1) * word_bound());
    }

    /// The sum, or `Overflow` if it does not fit in 256 bits.
    pub fn checked_add(self, other: Self) -> (r: Result<Self, OverflowError>)
        ensures
            match r {
                Ok(v) => v@ == self@ + other@ && self@ + other@ < amount_bound(),
                Err(e) => e == OverflowError::Overflow && self@ + other@ >= amount_bound(),
            },
    {
        let lo = self.lo.wrapping_add(other.lo);
        let carry: u128 = if lo < self.lo {
            1
        } else {
            0
        };
        proof {
            assert(lo + carry * word_bound() == self.lo + other.lo);
        }
        match self.hi.checked_add(other.hi) {
            Some(h) => match h.checked_add(carry) {
                Some(hi) => {
                    let v = Uint256 { lo, hi };
                    proof {
                        assert(v@ == self@ + other@);
                        v.lemma_bounded();
                    }
                    Ok(v)
                },
                None => {
                    proof {
                        assert(self.hi + other.hi + carry >= word_bound());
                        assert((self.hi + other.hi + carry) * word_bound() >= word_bound()
                            * word_bound()) by {
                            assert((self.hi + other.hi + carry) * word_bound() >= word_bound()
                                * word_bound()) by (nonlinear_arith)
                                requires
                                    self.hi + other.hi + carry >= word_bound(),
                                    word_bound() > 0,
                            ;
                        }
                        assert(self@ + other@ == lo + (self.hi + other.hi + carry) * word_bound());
                    }
                    Err(OverflowError::Overflow)
                },
            },
            None => {
                proof {
                    assert(self.hi + other.hi >= word_bound());
                    assert((self.hi + other.hi + carry) * word_bound() >= word_bound()
                        * word_bound()) by (nonlinear_arith)
                        requires
                            self.hi + other.hi + carry >= word_bound(),
                            word_bound() > 0,
                    ;
                    assert(self@ + other@ == lo + (self.hi + other.hi + carry) * word_bound());
                }
                Err(OverflowError::Overflow)
            },
        }
    }

    /// The difference, or `Underflow` if the subtrahend is larger.
    pub fn checked_sub(self, other: Self) -> (r: Result<Self, OverflowError>)
        ensures
            match r {
                Ok(v) => v@ == self@ - other@ && other@ <= self@,
                Err(e) => e == OverflowError::Underflow && other@ > self@,
            },
    {
        let lo = self.lo.wrapping_sub(other.lo);
        let borrow: u128 = if self.lo < other.lo {
            1
        } else {
            0
        };
        proof {
            assert(lo == self.lo - other.lo + borrow * word_bound());
        }
        match self.hi.checked_sub(other.hi) {
            Some(h) => match h.checked_sub(borrow) {
                Some(hi) => {
                    let v = Uint256 { lo, hi };
                    proof {
                        assert(v@ == self@ - other@);
                    }
                    Ok(v)
                },
                None => {
                    proof {
                        assert(self.hi < other.hi + borrow);
                        assert(self.hi * word_bound() + word_bound() <= (other.hi + borrow)
                            * word_bound());
                        assert(self@ < other@ + borrow * word_bound() - lo + self.lo - other.lo);
                    }
                    Err(OverflowError::Underflow)
                },
            },
            None => {
                proof {
                    assert(self.hi < other.hi);
                    assert(self.hi * word_bound() + word_bound() <= other.hi * word_bound());
                }
                Err(OverflowError::Underflow)
            },
        }
    }
}

/// A 256-bit amount known to be positive; bridged quantities are never zero.
#[derive(Clone, Copy, Debug, PartialEq, Eq)]
pub struct NonZeroUint256 {
    value: Uint256,
}

impl View for NonZeroUint256 {
    type V = nat;

    closed spec fn view(&self) -> nat {
        self.value@
    }
}

impl NonZeroUint256 {
    #[verifier::type_invariant]
    closed spec fn positive(self) -> bool {
        self.value@ > 0
    }

    /// Accept any non-zero value; reject zero.
    pub fn new(value: Uint256) -> (r: Option<Self>)
        ensures
            match r {
                Some(v) => v@ == value@ && value@ > 0,
                None => value@ == 0,
            },
    {
        if value.is_zero() {
            None
        } else {
            Some(NonZeroUint256 { value })
        }
    }

    pub fn get(&self) -> (r: Uint256)
        ensures
            r@ == self@,
            self@ > 0,
    {
        proof {
            use_type_invariant(self);
        }
        self.value
    }
}

} // verus!
