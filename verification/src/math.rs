//! Small number-theoretic helpers.

use vstd::prelude::*;

verus! {

/// The odd part of `n`: what remains after all factors of 2 are removed.
/// 12 has odd factors 3, while 11 keeps its full value 11.
pub open spec fn odd_part(n: nat) -> nat
    decreases n,
{
    if n == 0 {
        0
    } else if n % 2 == 1 {
        n
    } else {
        odd_part(n / 2)
    }
}

/// Removes all factors of 2 from `n`.
pub fn odd_factors_u16(n: u16) -> (r: u16)
    ensures
        r == odd_part(n as nat),
{
    let mut m: u16 = n;
    while m != 0 && m % 2 == 0
        invariant
            odd_part(n as nat) == odd_part(m as nat),
        decreases m,
    {
        m = m / 2;
    }
    m
}

} // verus!
