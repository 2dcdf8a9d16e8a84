//! Random choices, drawn by `rand`.

use rand::distributions::{Distribution, Uniform};
use vstd::prelude::*;

verus! {

/// `rand::rngs::ThreadRng`, carried as it is.
#[verifier::external_type_specification]
#[verifier::external_body]
pub struct ExThreadRng(rand::rngs::ThreadRng);

/// `rand::thread_rng`: this thread's generator, seeded by the system.
#[verifier::external_body]
pub(crate) fn thread_rng() -> rand::rngs::ThreadRng {
    rand::thread_rng()
}

/// `Uniform::from(0..n)` and `Distribution::sample`: a number below `n`,
/// each as likely as the other. The range must not be empty, or making the
/// distribution panics.
#[verifier::external_body]
pub(crate) fn sample_below(rng: &mut rand::rngs::ThreadRng, n: usize) -> (drawn: usize)
    requires
        n > 0,
    ensures
        drawn < n,
{
    Uniform::from(0..n).sample(rng)
}

} // verus!
