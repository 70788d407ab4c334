use vstd::prelude::*;

verus! {

/// Turns a raw random number into one in `min..max`: the number modulo the
/// width of the range, shifted up by `min`. The raw number comes from the
/// ledger's runtime, which the caller reads.
pub fn seed(min: u128, max: u128, pseudorandom_number: u128) -> (r: u128)
    requires
        min < max,
    ensures
        r == pseudorandom_number % ((max - min) as u128) + min,
        min <= r < max,
{
    let magnitude: u128 = max - min;
    let seed: u128 = pseudorandom_number % magnitude + min;
    seed
}

} // verus!
