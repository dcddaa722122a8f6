use metamanager::checkers::black_movers;
use metamanager::checkers::get_game_status;
use metamanager::checkers::white_movers;
use metamanager::checkers::GameStatus;
use metamanager::checkers::Position;

// The standard opening position: black on tiles 0..=11, white on tiles
// 20..=31, no kings.
fn opening() -> Position {
    Position { black: 0x0000_0FFF, white: 0xFFF0_0000, kings: 0 }
}

#[test]
fn the_opening_position_is_running() {
    assert!(matches!(get_game_status(&opening()), GameStatus::Running));
}

#[test]
fn a_lone_colour_wins() {
    let p = Position { black: 1 << 5, white: 0, kings: 0 };
    assert!(matches!(get_game_status(&p), GameStatus::BlackWins));
    let p = Position { black: 0, white: 1 << 5, kings: 0 };
    assert!(matches!(get_game_status(&p), GameStatus::WhiteWins));
}

#[test]
fn impossible_positions_are_illegal() {
    // both colours on one tile
    let p = Position { black: 1 << 3, white: 1 << 3, kings: 0 };
    assert!(matches!(get_game_status(&p), GameStatus::Illegal));
    // a king on an unoccupied tile
    let p = Position { black: 1 << 3, white: 0, kings: 1 << 4 };
    assert!(matches!(get_game_status(&p), GameStatus::Illegal));
    // an empty board
    let p = Position { black: 0, white: 0, kings: 0 };
    assert!(matches!(get_game_status(&p), GameStatus::Illegal));
}

#[test]
fn in_the_opening_only_the_front_rows_can_move() {
    // black's third row (tiles 8..=11) faces the empty middle
    assert_eq!(black_movers(opening()), 0x0000_0F00);
    // white's sixth row (tiles 20..=23) faces it from the other side
    assert_eq!(white_movers(opening()), 0x00F0_0000);
}

#[test]
fn a_blocked_man_cannot_move() {
    // a black man on tile 0 with both its forward neighbours taken
    let p = Position { black: 1 | 1 << 4 | 1 << 5, white: 0, kings: 0 };
    let movers = black_movers(p);
    assert_eq!(movers & 1, 0);
}

#[test]
fn a_king_also_moves_backward() {
    // a lone white king in the middle of the board can move north,
    // which a white man cannot
    let man = Position { black: 0, white: 1 << 13, kings: 0 };
    let king = Position { black: 0, white: 1 << 13, kings: 1 << 13 };
    assert_eq!(white_movers(man), 1 << 13);
    assert_eq!(white_movers(king), 1 << 13);
    // a white man that reached the far row has nowhere further south,
    // but a king there can come back north
    let far_man = Position { black: 0, white: 1 << 0, kings: 0 };
    let far_king = Position { black: 0, white: 1 << 0, kings: 1 << 0 };
    assert_eq!(white_movers(far_man), 0);
    assert_eq!(white_movers(far_king), 1 << 0);
}

#[test]
fn an_empty_board_renders_as_all_free_tiles() {
    let p = Position { black: 0, white: 0, kings: 0 };
    let mut expected =
        String::from("Something's wrong with the game, do not trust this visualization...");
    for row in 0..8 {
        if row % 2 == 0 {
            expected.push_str("\n  ..  ..  ..  ..");
        } else {
            expected.push_str("\n..  ..  ..  ..");
        }
    }
    assert_eq!(p.render(), expected);
}

#[test]
fn pieces_render_with_their_colour_and_rank() {
    let p = Position { black: 1 << 0, white: 1 << 31, kings: 1 << 31 };
    let rendered = p.render();
    assert!(rendered.starts_with("Still playing...\n  WW"));
    assert!(rendered.ends_with("  .B"));
}
