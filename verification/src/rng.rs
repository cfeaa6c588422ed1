use rand::rngs::StdRng;
use rand::rngs::ThreadRng;
use rand::RngExt;
use rand::SeedableRng;
use vstd::prelude::*;

verus! {

/// rand's seedable standard generator, carried through opaquely.
#[verifier::external_type_specification]
#[verifier::external_body]
pub struct ExStdRng(rand::rngs::StdRng);

/// rand's thread-local generator handle, carried through opaquely.
#[verifier::external_type_specification]
#[verifier::external_body]
pub struct ExThreadRng(rand::rngs::ThreadRng);

/// Calls `SeedableRng::seed_from_u64` for `StdRng`. Nothing is stated of the
/// generator it builds: rand documents its output as not portable across
/// versions and platforms.
#[verifier::external_body]
pub(crate) fn seeded_std_rng(seed: u64) -> StdRng {
    StdRng::seed_from_u64(seed)
}

/// Calls `RngExt::random_range` on a `StdRng` with the range `0..bound`.
/// Trusted: the value lies in the range (rand panics on an empty range,
/// which `requires` leaves out); which value comes is left open.
#[verifier::external_body]
pub(crate) fn std_rng_below(rng: &mut StdRng, bound: usize) -> (r: usize)
    requires
        bound > 0,
    ensures
        r < bound,
{
    rng.random_range(0..bound)
}

/// Calls `rand::rng`, the handle to the thread-local generator. Nothing is
/// stated of it; rand panics there only when the operating system gives no
/// seed, which no argument can rule out.
#[verifier::external_body]
pub(crate) fn thread_rng() -> ThreadRng {
    rand::rng()
}

/// Calls `RngExt::random_range` on a `ThreadRng` with the range
/// `low..high`. Trusted: the value lies in the range (rand panics on an
/// empty range, which `requires` leaves out); which value comes is left open.
#[verifier::external_body]
pub(crate) fn thread_rng_between(rng: &mut ThreadRng, low: i32, high: i32) -> (r: i32)
    requires
        low < high,
    ensures
        low <= r < high,
{
    rng.random_range(low..high)
}

} // verus!
