//! The tic-tac-toe bot's book-keeping: the free cells of the board and
//! each side's positions. The bot's shell reads its player index and
//! the opponent's moves from its input, draws random candidate cells
//! (see `random`) until one is free, and prints its move; the state it
//! reasons over is maintained here.

use vstd::prelude::*;
use std::collections::HashSet;
use crate::tictactoe_manager::winning_set;

verus! {

broadcast use vstd::std_specs::hash::group_hash_axioms;

/// Records a played move: the cell stops being available and joins the
/// mover's positions.
pub fn update_positions_and_moves(
    possible_moves: &mut HashSet<u8>,
    positions: &mut HashSet<u8>,
    position: u8,
)
    ensures
        final(possible_moves)@ == old(possible_moves)@.remove(position),
        final(positions)@ == old(positions)@.insert(position),
{
    possible_moves.remove(&position);
    positions.insert(position);
}

/// Whether the recorded positions complete one of the eight winning
/// lines.
pub fn contains_winning_combination(positions: &HashSet<u8>) -> (r: bool)
    ensures
        r == winning_set(positions@),
{
    (positions.contains(&0) && positions.contains(&1) && positions.contains(&2)) || (
    positions.contains(&3) && positions.contains(&4) && positions.contains(&5)) || (
    positions.contains(&6) && positions.contains(&7) && positions.contains(&8)) || (
    positions.contains(&0) && positions.contains(&3) && positions.contains(&6)) || (
    positions.contains(&1) && positions.contains(&4) && positions.contains(&7)) || (
    positions.contains(&2) && positions.contains(&5) && positions.contains(&8)) || (
    positions.contains(&0) && positions.contains(&4) && positions.contains(&8)) || (
    positions.contains(&6) && positions.contains(&4) && positions.contains(&2))
}

} // verus!
