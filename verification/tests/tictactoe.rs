use std::collections::HashSet;

use metamanager::random::random_cell;
use metamanager::random::random_first_pid;
use metamanager::tictactoe_manager::build_message;
use metamanager::tictactoe_manager::contains_winning_combination;
use metamanager::tictactoe_manager::get_next_pid;
use metamanager::tictactoe_manager::opening_lines;
use metamanager::tictactoe_manager::GameEvent;
use metamanager::tictactoe_manager::GameState;
use metamanager::tictactoe_manager::Message;
use metamanager::tictactoe_manager::StepOutcome;
use metamanager::tictactoe_player;

#[test]
fn messages_parse_as_pid_and_cell() {
    let m = build_message(String::from("0:4")).unwrap();
    assert_eq!(m.user_pid, 0);
    assert_eq!(m.position, 4);
    // the cell may carry surrounding whitespace
    let m = build_message(String::from("1: 8 ")).unwrap();
    assert_eq!(m.user_pid, 1);
    assert_eq!(m.position, 8);
    // only the segment up to the second delimiter names the cell
    let m = build_message(String::from("0:4:9")).unwrap();
    assert_eq!(m.user_pid, 0);
    assert_eq!(m.position, 4);
    // a leading plus sign is how numbers parse
    let m = build_message(String::from("+1:+3")).unwrap();
    assert_eq!(m.user_pid, 1);
    assert_eq!(m.position, 3);
}

#[test]
fn unusable_lines_give_no_message() {
    assert!(build_message(String::from("abc")).is_none());
    assert!(build_message(String::from("5")).is_none());
    assert!(build_message(String::from("0:x")).is_none());
    assert!(build_message(String::from("x:0")).is_none());
    assert!(build_message(String::from("300:1")).is_none());
    assert!(build_message(String::from("0:300")).is_none());
    assert!(build_message(String::from(":4")).is_none());
    assert!(build_message(String::from("0:")).is_none());
}

#[test]
fn messages_render_back_to_the_wire_form() {
    assert_eq!(Message { user_pid: 1, position: 7 }.render(), "1:7");
    assert_eq!(Message { user_pid: 0, position: 0 }.render(), "0:0");
}

#[test]
fn winning_lines_are_recognized() {
    assert!(contains_winning_combination(&HashSet::from([0, 1, 2])));
    assert!(contains_winning_combination(&HashSet::from([2, 5, 8])));
    assert!(contains_winning_combination(&HashSet::from([0, 4, 8])));
    assert!(contains_winning_combination(&HashSet::from([6, 4, 2])));
    assert!(contains_winning_combination(&HashSet::from([7, 0, 4, 8, 3])));
    assert!(!contains_winning_combination(&HashSet::from([1, 2, 3])));
    assert!(!contains_winning_combination(&HashSet::new()));
    assert!(!contains_winning_combination(&HashSet::from([0, 1, 3, 4])));
}

#[test]
fn the_turn_alternates_between_the_two_pids() {
    assert_eq!(get_next_pid(0), 1);
    assert_eq!(get_next_pid(1), 0);
}

#[test]
fn the_opening_tells_each_player_its_turn_order() {
    assert_eq!(opening_lines(0), (String::from("0:0"), String::from("1:1")));
    assert_eq!(opening_lines(1), (String::from("1:0"), String::from("0:1")));
}

#[test]
fn a_good_move_is_announced_to_the_next_player() {
    let mut game = GameState::new(0);
    assert!(!game.is_over());
    match game.advance(GameEvent::Line(String::from("0:4"))) {
        StepOutcome::Notify { line, winning_move } => {
            assert_eq!(line, "1:4");
            assert!(!winning_move);
        },
        StepOutcome::Stop { .. } => panic!("a good move must not stop the game"),
    }
    assert_eq!(game.current_pid, 1);
}

#[test]
fn moving_out_of_turn_loses() {
    let mut game = GameState::new(0);
    match game.advance(GameEvent::Line(String::from("1:4"))) {
        StepOutcome::Stop { loser } => assert_eq!(loser, 1),
        StepOutcome::Notify { .. } => panic!("an out-of-turn move must stop the game"),
    }
}

#[test]
fn taking_a_taken_cell_loses() {
    let mut game = GameState::new(0);
    game.advance(GameEvent::Line(String::from("0:4")));
    match game.advance(GameEvent::Line(String::from("1:4"))) {
        StepOutcome::Stop { loser } => assert_eq!(loser, 1),
        StepOutcome::Notify { .. } => panic!("a repeated cell must stop the game"),
    }
}

#[test]
fn an_unreadable_line_loses_the_turn_holder() {
    let mut game = GameState::new(1);
    match game.advance(GameEvent::Line(String::from("gibberish"))) {
        StepOutcome::Stop { loser } => assert_eq!(loser, 1),
        StepOutcome::Notify { .. } => panic!("gibberish must stop the game"),
    }
}

#[test]
fn a_timeout_loses_the_turn_holder() {
    let mut game = GameState::new(0);
    match game.advance(GameEvent::Timeout) {
        StepOutcome::Stop { loser } => assert_eq!(loser, 0),
        StepOutcome::Notify { .. } => panic!("a timeout must stop the game"),
    }
}

#[test]
fn completing_a_line_is_reported_as_a_winning_move() {
    let mut game = GameState::new(0);
    let moves = ["0:0", "1:3", "0:1", "1:4"];
    for m in moves {
        match game.advance(GameEvent::Line(String::from(m))) {
            StepOutcome::Notify { winning_move, .. } => assert!(!winning_move),
            StepOutcome::Stop { .. } => panic!("the game must still run"),
        }
    }
    match game.advance(GameEvent::Line(String::from("0:2"))) {
        StepOutcome::Notify { line, winning_move } => {
            assert_eq!(line, "1:2");
            assert!(winning_move);
        },
        StepOutcome::Stop { .. } => panic!("the winning move is still announced"),
    }
}

#[test]
fn the_game_ends_when_no_cell_is_free() {
    let mut game = GameState::new(0);
    // fill all nine cells in a drawn pattern: no three in a line
    let moves = ["0:0", "1:1", "0:2", "1:4", "0:3", "1:5", "0:7", "1:6", "0:8"];
    for m in moves {
        assert!(!game.is_over());
        game.advance(GameEvent::Line(String::from(m)));
    }
    assert!(game.is_over());
}

#[test]
fn the_bot_records_moves_by_moving_cells_between_sets() {
    let mut possible: HashSet<u8> = HashSet::from([0, 1, 2, 3]);
    let mut mine: HashSet<u8> = HashSet::new();
    tictactoe_player::update_positions_and_moves(&mut possible, &mut mine, 2);
    assert_eq!(possible, HashSet::from([0, 1, 3]));
    assert_eq!(mine, HashSet::from([2]));
}

#[test]
fn the_bot_recognizes_winning_lines_too() {
    assert!(tictactoe_player::contains_winning_combination(&HashSet::from([3, 4, 5])));
    assert!(!tictactoe_player::contains_winning_combination(&HashSet::from([3, 5])));
}

#[test]
fn random_draws_stay_in_range() {
    for _ in 0..100 {
        assert!(random_first_pid() < 2);
        assert!(random_cell() < 9);
    }
}
