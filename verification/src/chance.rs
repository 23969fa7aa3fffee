use vstd::prelude::*;

verus! {

/// `rand::ThreadRng`, the handle of the thread-local generator. Nothing is
/// known of what is inside it.
#[verifier::external_type_specification]
#[verifier::external_body]
pub struct ExThreadRng(rand::ThreadRng);

/// `rand::thread_rng` hands out the calling thread's generator. Nothing is
/// claimed of the handle; the call fails only where the system has no entropy
/// to seed it.
pub assume_specification[ rand::thread_rng ]() -> (rng: rand::ThreadRng);

/// `Rng::gen_weighted_bool`: true with a chance of one in `n`. Of a single
/// draw only the degenerate case is certain: with `n` at most one the answer
/// is always true.
#[verifier::external_body]
pub(crate) fn one_in(rng: &mut rand::ThreadRng, n: u32) -> (hit: bool)
    ensures
        n <= 1 ==> hit,
{
    rand::Rng::gen_weighted_bool(rng, n)
}

/// `Rng::choose`: a uniformly drawn element of `values`, or `None` where the
/// slice is empty. Which element comes back is left open.
#[verifier::external_body]
pub(crate) fn pick_one<'a, T>(rng: &mut rand::ThreadRng, values: &'a [T]) -> (picked: Option<&'a T>)
    ensures
        picked is None <==> values@.len() == 0,
        picked matches Some(v) ==> values@.contains(*v),
{
    rand::Rng::choose(rng, values)
}

/// `Range::new(low, high)`, sampled once with `ind_sample`: a number drawn
/// from `low..high`, every one with the same chance. `Range::new` refuses an
/// empty range, so `low` must lie below `high`; the number drawn is at least
/// `low` and below `high`.
#[verifier::external_body]
pub(crate) fn sample_range(rng: &mut rand::ThreadRng, low: usize, high: usize) -> (n: usize)
    requires
        low < high,
    ensures
        low <= n < high,
{
    rand::distributions::IndependentSample::ind_sample(
        &rand::distributions::Range::new(low, high),
        rng,
    )
}

} // verus!
