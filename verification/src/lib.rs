//! A process-orchestration library: a manager process and a set of player
//! processes exchange newline-terminated messages through an orchestrator
//! that multiplexes every player's output into one tagged stream for the
//! manager and routes the manager's tagged output back to the addressed
//! player.
//!
//! The verified core covers the tagged-line protocol, the two routing
//! state machines (fan-in and fan-out), orchestration planning, and the
//! game logic that rides on top of the protocol (a checkers bitboard
//! engine and a tic-tac-toe manager and bot). Actual process spawning and
//! pipe I/O live outside the library and drive these state machines.

pub mod checkers;
pub mod fan_in;
pub mod fan_out;
pub mod orchestrator;
pub mod protocol;
pub mod random;
pub mod tictactoe_manager;
pub mod tictactoe_player;
