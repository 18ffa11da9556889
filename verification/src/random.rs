//! Random first generations.
//!
//! Chance is a ratio of two integers: a cell is alive where a draw from
//! `0..denominator` falls below `numerator`. The draws come from the `rand`
//! crate; what is made of them is decided here.

use vstd::prelude::*;

verus! {

/// The type `rand::rngs::ThreadRng`, a handle to the generator of the calling
/// thread. Nothing inside it is visible to the proofs.
#[verifier::external_type_specification]
#[verifier::external_body]
pub struct ExThreadRng(rand::rngs::ThreadRng);

/// `rand::thread_rng` hands out the generator of the calling thread, seeded
/// by the operating system. Nothing is claimed of the handle. The function
/// panics where the operating system gives no seed.
pub assume_specification[ rand::thread_rng ]() -> (rng: rand::rngs::ThreadRng);

/// `rand::Rng::gen_range` on `u32` bounds: the draw lies in `low..high`,
/// which one is left open. The outside function panics on an empty range,
/// which `requires` keeps out.
#[verifier::external_body]
fn gen_range(rng: &mut rand::rngs::ThreadRng, low: u32, high: u32) -> (draw: u32)
    requires
        low < high,
    ensures
        low <= draw < high,
{
    rand::Rng::gen_range(rng, low, high)
}

/// Every draw lies below `bound`.
pub open spec fn draws_below(draws: Seq<u32>, bound: u32) -> bool {
    forall|i: int| 0 <= i < draws.len() ==> draws[i] < bound
}

/// The cells that a run of draws stands for: alive where the draw falls
/// below `numerator`.
pub open spec fn seeded_cells(draws: Seq<u32>, numerator: u32) -> Seq<bool> {
    Seq::new(draws.len(), |i: int| draws[i] < numerator)
}

/// Draws `count` numbers from `0..bound`.
pub fn draw_many(count: usize, bound: u32) -> (draws: Vec<u32>)
    requires
        0 < bound,
    ensures
        draws@.len() == count,
        draws_below(draws@, bound),
{
    let mut rng = rand::thread_rng();
    let mut draws: Vec<u32> = Vec::with_capacity(count);
    for drawn in 0..count
        invariant
            0 < bound,
            draws@.len() == drawn,
            draws_below(draws@, bound),
    {
        let draw = gen_range(&mut rng, 0, bound);
        draws.push(draw);
    }
    draws
}

/// Turns draws into cells.
pub fn seed_cells(draws: &[u32], numerator: u32) -> (cells: Vec<bool>)
    ensures
        cells@ == seeded_cells(draws@, numerator),
{
    let mut cells: Vec<bool> = Vec::with_capacity(draws.len());
    for at in 0..draws.len()
        invariant
            cells@ == seeded_cells(draws@.take(at as int), numerator),
    {
        if draws[at] < numerator {
            cells.push(true);
        } else {
            cells.push(false);
        }
    }
    assert(draws@.take(draws@.len() as int) == draws@);
    cells
}

} // verus!
