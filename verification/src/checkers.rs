//! A checkers position on bitboards. There are 32 legal tiles; bit `i`
//! of a board is set when something stands on tile `i`. As bits go from
//! most to least significant, you go left-right, top-down on the board:
//! left shifts go left and up, right shifts go right and down.
//!
//! Tile numbering:
//! ```text
//!   31  30  29  28
//! 27  26  25  24
//!   23  22  21  20
//! 19  18  17  16
//!   15  14  13  12
//! 11  10  09  08
//!   07  06  05  04
//! 03  02  01  00
//! ```

use vstd::prelude::*;
use vstd::string::StrSliceExecFns;
use vstd::string::StringExecFns;

verus! {

pub type BitBoard = u32;

pub struct Position {
    pub black: BitBoard,
    pub white: BitBoard,
    pub kings: BitBoard,
}

pub enum GameStatus {
    /// The position is impossible; something went wrong.
    Illegal,
    Running,
    Draw,
    BlackWins,
    WhiteWins,
}

/// A position makes sense only when no tile holds both colours and
/// every king stands on an occupied tile.
pub open spec fn consistent_position(p: Position) -> bool {
    &&& p.black & p.white == 0
    &&& p.kings & !(p.black | p.white) == 0
}

/// The status a position denotes: an inconsistent or empty position is
/// illegal; otherwise the game runs until one colour has no pieces
/// left. (Draw detection is not implemented.)
pub open spec fn game_status_spec(p: Position) -> GameStatus {
    if !consistent_position(p) {
        GameStatus::Illegal
    } else if p.black != 0 && p.white != 0 {
        GameStatus::Running
    } else if p.black != 0 {
        GameStatus::BlackWins
    } else if p.white != 0 {
        GameStatus::WhiteWins
    } else {
        GameStatus::Illegal
    }
}

pub fn get_game_status(position: &Position) -> (r: GameStatus)
    ensures
        r == game_status_spec(*position),
{
    let w = position.white;
    let b = position.black;
    let k = position.kings;
    if w | b | k != w | b || w & b != 0 {
        proof {
            assert(((w | b | k != w | b) || (w & b != 0)) == !((b & w == 0) && (k & !(b | w)
                == 0))) by (bit_vector);
        }
        return GameStatus::Illegal;
    }
    proof {
        assert(((w | b | k != w | b) || (w & b != 0)) == !((b & w == 0) && (k & !(b | w) == 0)))
            by (bit_vector);
    }
    match (b == 0, w == 0) {
        (false, false) => GameStatus::Running,
        (false, true) => GameStatus::BlackWins,
        (true, false) => GameStatus::WhiteWins,
        (true, true) => GameStatus::Illegal,
    }
}

// Any given tile (bit) on the board has up to four diagonally adjacent
// tiles. Two are always reached by shifting four; the other two by
// shifting three or five, depending on the row, which these masks pick
// out.
pub const MASK_L3: BitBoard = 1 << 5 | 1 << 6 | 1 << 7 | 1 << 13 | 1 << 14 | 1 << 15 | 1 << 21
    | 1 << 22 | 1 << 23;

pub const MASK_R5: BitBoard = 1 << 5 | 1 << 6 | 1 << 7 | 1 << 13 | 1 << 14 | 1 << 15 | 1 << 21
    | 1 << 22 | 1 << 23 | 1 << 29 | 1 << 30 | 1 << 31;

pub const MASK_R3: BitBoard = 1 << 8 | 1 << 9 | 1 << 10 | 1 << 16 | 1 << 17 | 1 << 18 | 1 << 24
    | 1 << 25 | 1 << 26;

pub const MASK_L5: BitBoard = 1 << 0 | 1 << 1 | 1 << 2 | 1 << 8 | 1 << 9 | 1 << 10 | 1 << 16
    | 1 << 17 | 1 << 18 | 1 << 24 | 1 << 25 | 1 << 26;

/// The tiles diagonally south-adjacent to some tile of `empty`.
pub open spec fn southern_origins(empty: BitBoard) -> BitBoard {
    empty >> 4 | ((empty & MASK_R3) >> 3) | ((empty & MASK_R5) >> 5)
}

/// The tiles diagonally north-adjacent to some tile of `empty`.
pub open spec fn northern_origins(empty: BitBoard) -> BitBoard {
    empty << 4 | ((empty & MASK_L3) << 3) | ((empty & MASK_L5) << 5)
}

/// Given a board of empty tiles, the tiles adjacent to those tiles and
/// to the south.
pub fn valid_southern_origins(empty: BitBoard) -> (r: BitBoard)
    ensures
        r == southern_origins(empty),
{
    empty >> 4 | ((empty & MASK_R3) >> 3) | ((empty & MASK_R5) >> 5)
}

/// Given a board of empty tiles, the tiles adjacent to those tiles and
/// to the north.
pub fn valid_northern_origins(empty: BitBoard) -> (r: BitBoard)
    ensures
        r == northern_origins(empty),
{
    empty << 4 | ((empty & MASK_L3) << 3) | ((empty & MASK_L5) << 5)
}

/// The empty tiles of a position.
pub open spec fn empty_tiles(p: Position) -> BitBoard {
    !(p.black | p.white)
}

/// The black pieces with at least one move: a black man moves north
/// (black sits at the bottom of the board), a black king either way.
pub open spec fn black_movers_spec(p: Position) -> BitBoard {
    (southern_origins(empty_tiles(p)) | (northern_origins(empty_tiles(p)) & (p.black & p.kings)))
        & p.black
}

/// The white pieces with at least one move: a white man moves south, a
/// white king either way.
pub open spec fn white_movers_spec(p: Position) -> BitBoard {
    (northern_origins(empty_tiles(p)) | (southern_origins(empty_tiles(p)) & (p.white & p.kings)))
        & p.white
}

/// The line a rendered board opens with, for each status.
pub open spec fn status_message(s: GameStatus) -> Seq<char> {
    match s {
        GameStatus::Illegal => "Something's wrong with the game, do not trust this visualization..."@,
        GameStatus::Running => "Still playing..."@,
        GameStatus::Draw => "The game is a draw."@,
        GameStatus::BlackWins => "Black won!"@,
        GameStatus::WhiteWins => "White won!"@,
    }
}

/// What stands before a tile in the rendering: row breaks after every
/// fourth tile, with the odd rows indented.
pub open spec fn cell_prefix(pos: u32) -> Seq<char> {
    if pos % 8 == 3 {
        "\n"@
    } else if pos % 8 == 7 {
        "\n  "@
    } else {
        "  "@
    }
}

/// The two-character symbol of a tile: empty, a white or black man, a
/// white or black king, or an impossible doubly-occupied tile.
pub open spec fn cell_symbol(p: Position, pos: u32) -> Seq<char> {
    let black = p.black & (1u32 << pos) != 0;
    let white = p.white & (1u32 << pos) != 0;
    let king = p.kings & (1u32 << pos) != 0;
    if !black && !white {
        ".."@
    } else if !black && white && !king {
        ".W"@
    } else if !black && white && king {
        "WW"@
    } else if black && !white && !king {
        ".B"@
    } else if black && !white && king {
        "BB"@
    } else {
        "??"@
    }
}

/// The first `count` tiles of the rendering, walked from tile 31 down.
pub open spec fn rendered_cells(p: Position, count: int) -> Seq<char>
    recommends
        0 <= count <= 32,
    decreases count,
{
    if count <= 0 {
        Seq::empty()
    } else {
        rendered_cells(p, count - 1) + cell_prefix((32 - count) as u32) + cell_symbol(
            p,
            (32 - count) as u32,
        )
    }
}

/// The whole rendering: the status line, then all 32 tiles from the top
/// left to the bottom right.
pub open spec fn render_spec(p: Position) -> Seq<char> {
    status_message(game_status_spec(p)) + rendered_cells(p, 32)
}

impl Position {
    /// Renders the position for debugging and visualization (relatively
    /// unperformant, not meant for hot paths).
    pub fn render(&self) -> (r: String)
        ensures
            r@ == render_spec(*self),
    {
        proof {
            reveal_strlit("Something's wrong with the game, do not trust this visualization...");
            reveal_strlit("Still playing...");
            reveal_strlit("The game is a draw.");
            reveal_strlit("Black won!");
            reveal_strlit("White won!");
            reveal_strlit("\n");
            reveal_strlit("\n  ");
            reveal_strlit("  ");
            reveal_strlit("..");
            reveal_strlit(".W");
            reveal_strlit("WW");
            reveal_strlit(".B");
            reveal_strlit("BB");
            reveal_strlit("??");
        }
        let status = get_game_status(self);
        let status_str: &str = match status {
            GameStatus::Illegal => "Something's wrong with the game, do not trust this visualization...",
            GameStatus::Running => "Still playing...",
            GameStatus::Draw => "The game is a draw.",
            GameStatus::BlackWins => "Black won!",
            GameStatus::WhiteWins => "White won!",
        };
        let mut out = String::from_str(status_str);
        proof {
            assert(out@ =~= status_message(game_status_spec(*self)) + rendered_cells(*self, 0));
        }
        let mut i: usize = 0;
        while i < 32
            invariant
                i <= 32,
                out@ == status_message(game_status_spec(*self)) + rendered_cells(
                    *self,
                    i as int,
                ),
        decreases 32 - i,
        {
            proof {
                reveal_strlit("\n");
                reveal_strlit("\n  ");
                reveal_strlit("  ");
                reveal_strlit("..");
                reveal_strlit(".W");
                reveal_strlit("WW");
                reveal_strlit(".B");
                reveal_strlit("BB");
                reveal_strlit("??");
            }
            let pos: u32 = 31 - (i as u32);
            let prefix: &str = match pos % 8 {
                3 => "\n",
                7 => "\n  ",
                _ => "  ",
            };
            out.append(prefix);
            let symbol: &str = match (
                self.black & (1u32 << pos) != 0,
                self.white & (1u32 << pos) != 0,
                self.kings & (1u32 << pos) != 0,
            ) {
                (false, false, _) => "..",
                (false, true, false) => ".W",
                (false, true, true) => "WW",
                (true, false, false) => ".B",
                (true, false, true) => "BB",
                (true, true, _) => "??",
            };
            out.append(symbol);
            proof {
                assert(prefix@ == cell_prefix(pos));
                assert(symbol@ == cell_symbol(*self, pos));
                assert(out@ =~= status_message(game_status_spec(*self)) + rendered_cells(
                    *self,
                    i + 1,
                ));
            }
            i += 1;
        }
        out
    }
}

/// Black pieces that can move; every mover is a black piece.
pub fn black_movers(position: Position) -> (r: BitBoard)
    ensures
        r == black_movers_spec(position),
        r & !position.black == 0,
{
    let empty = !(position.black | position.white);
    let black_kings = position.black & position.kings;
    let mut movers = valid_southern_origins(empty);
    let ghost south = southern_origins(empty);
    let ghost north = northern_origins(empty);
    if black_kings != 0 {
        movers = movers | (valid_northern_origins(empty) & black_kings);
    } else {
        proof {
            assert(south | (north & 0) == south) by (bit_vector);
        }
    }
    let r = movers & position.black;
    proof {
        let b = position.black;
        let m = movers;
        assert((m & b) & !b == 0) by (bit_vector);
    }
    r
}

/// White pieces that can move; every mover is a white piece.
pub fn white_movers(position: Position) -> (r: BitBoard)
    ensures
        r == white_movers_spec(position),
        r & !position.white == 0,
{
    let empty = !(position.white | position.black);
    let white_kings = position.white & position.kings;
    let mut movers = valid_northern_origins(empty);
    let ghost south = southern_origins(empty);
    let ghost north = northern_origins(empty);
    if white_kings != 0 {
        movers = movers | (valid_southern_origins(empty) & white_kings);
    } else {
        proof {
            assert(north | (south & 0) == north) by (bit_vector);
        }
    }
    let ghost w = position.white;
    let ghost b = position.black;
    proof {
        assert(!(w | b) == !(b | w)) by (bit_vector);
    }
    let r = movers & position.white;
    proof {
        let m = movers;
        assert((m & w) & !w == 0) by (bit_vector);
    }
    r
}

} // verus!
