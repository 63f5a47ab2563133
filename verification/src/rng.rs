//! Trusted surface for the entropy source: the one call into the `rand`
//! crate that the automated opponent draws its candidate cells from.

use vstd::prelude::*;

verus! {

/// Relies on rand::random: draws a value from the thread-local generator.
/// Nothing is assumed about which value comes back.
pub assume_specification<T>[ rand::random::<T> ]() -> (r: T)
    where
        rand::distributions::Standard: rand::distributions::Distribution<T>,
;

} // verus!
