//! The randomness the games use, behind trusted declarations: rand's
//! thread-local generator draws which player opens a game and which
//! cell a bot tries. Nothing more than the range of a draw can be
//! promised, and every caller is verified for every value in range.

use vstd::prelude::*;
use rand::Rng;

verus! {

#[verifier::external_type_specification]
#[verifier::external_body]
pub struct ExThreadRng(rand::rngs::ThreadRng);

/// Relies on rand's `thread_rng`: a handle to the lazily-seeded
/// thread-local generator. Nothing is promised of it.
#[verifier::external_body]
fn fresh_generator() -> rand::rngs::ThreadRng {
    rand::thread_rng()
}

/// Relies on rand's `Rng::gen_range`: a draw from `low..high` lies in
/// that range, and only an empty range panics.
#[verifier::external_body]
fn draw_below(rng: &mut rand::rngs::ThreadRng, bound: u8) -> (r: u8)
    requires
        0 < bound,
    ensures
        r < bound,
{
    rng.gen_range(0..bound)
}

/// Draws which of the two tic-tac-toe players moves first.
pub fn random_first_pid() -> (r: u8)
    ensures
        r < 2,
{
    let mut rng = fresh_generator();
    draw_below(&mut rng, 2)
}

/// Draws a candidate cell of the tic-tac-toe board.
pub fn random_cell() -> (r: u8)
    ensures
        r < 9,
{
    let mut rng = fresh_generator();
    draw_below(&mut rng, 9)
}

} // verus!
