//! Ring capacities that a bus accepts.
use vstd::prelude::*;
use vstd::arithmetic::power2::{is_pow2, is_pow2_exists, is_pow2_equiv, pow2, lemma_pow2};

verus! {

/// A capacity is accepted when it is at least 2 and a power of two.
pub open spec fn is_valid_capacity(capacity: int) -> bool {
    capacity >= 2 && is_pow2(capacity)
}

/// Why a requested capacity was refused.
#[derive(Debug, Clone, Copy, PartialEq, Eq, Structural)]
pub enum CapacityError {
    /// The capacity is smaller than 2.
    TooSmall,
    /// The capacity is at least 2 but not a power of two.
    NotPowerOfTwo,
}

/// A ring capacity that has been checked: at least 2 and a power of two.
pub struct Capacity {
    value: usize,
}

impl View for Capacity {
    type V = nat;

    closed spec fn view(&self) -> nat {
        self.value as nat
    }
}

impl Capacity {
    #[verifier::type_invariant]
    closed spec fn inv(self) -> bool {
        is_valid_capacity(self.value as int)
    }

    /// Checks a requested capacity. The smaller-than-two check comes first.
    pub fn new(value: usize) -> (res: Result<Capacity, CapacityError>)
        ensures
            res matches Ok(c) ==> c@ == value,
            res is Ok <==> is_valid_capacity(value as int),
            res == Err::<Capacity, CapacityError>(CapacityError::TooSmall) <==> value < 2,
            res == Err::<Capacity, CapacityError>(CapacityError::NotPowerOfTwo) <==> (value >= 2
                && !is_pow2(value as int)),
    {
        if value < 2 {
            return Err(CapacityError::TooSmall);
        }
        if !is_power_of_two(value) {
            return Err(CapacityError::NotPowerOfTwo);
        }
        Ok(Capacity { value })
    }

    /// The checked capacity.
    pub fn get(&self) -> (r: usize)
        ensures
            r == self@,
            is_valid_capacity(r as int),
    {
        proof {
            use_type_invariant(self);
        }
        self.value
    }
}

/// Whether `n` is a power of two, found by halving while the value stays even.
pub fn is_power_of_two(n: usize) -> (r: bool)
    ensures
        r == is_pow2(n as int),
{
    reveal(is_pow2);
    if n == 0 {
        return false;
    }
    let mut x: usize = n;
    while x > 1 && x % 2 == 0
        invariant
            x >= 1,
            is_pow2(x as int) == is_pow2(n as int),
        decreases x,
    {
        proof {
            reveal(is_pow2);
        }
        x = x / 2;
    }
    x == 1
}

/// A value is a power of two exactly when it is `2^k` for some `k`.
pub proof fn lemma_power_of_two_is_exponent(n: int)
    ensures
        is_pow2(n) <==> exists|k: nat| pow2(k) == n,
{
    is_pow2_equiv(n);
    if is_pow2_exists(n) {
        let k = choose|k: nat| vstd::arithmetic::power::pow(2, k) == n;
        lemma_pow2(k);
    }
    if exists|k: nat| pow2(k) == n {
        let k = choose|k: nat| pow2(k) == n;
        lemma_pow2(k);
    }
}

} // verus!
