//! The tic-tac-toe manager: it referees two players over the tagged-line
//! protocol. Each received line names the moving player and a cell; the
//! manager checks the turn and the cell, records the move, and announces
//! it to the next player. The game loop's reads, timeouts, and prints
//! are the caller's work; every decision of the loop stands here.

use vstd::prelude::*;
use std::collections::HashSet;
use vstd::string::StrSliceExecFns;
use vstd::string::StringExecFns;
use crate::protocol::all_digits;
use crate::protocol::decimal_chars;
use crate::protocol::digits_value;
use crate::protocol::find_char;
use crate::protocol::first_occurrence;
use crate::protocol::lemma_digits_value_take_le;
use crate::protocol::push_char;
use crate::protocol::push_decimal;

verus! {

broadcast use vstd::std_specs::hash::group_hash_axioms;

/// One game message: the id of the player it concerns and a cell of the
/// board (0 through 8).
pub struct Message {
    pub user_pid: u8,
    pub position: u8,
}

impl Message {
    /// The wire rendering `<user_pid>:<position>`.
    pub fn render(&self) -> (r: String)
        ensures
            r@ == decimal_chars(self.user_pid as int) + seq![':'] + decimal_chars(
                self.position as int,
            ),
    {
        let mut out = String::new();
        push_decimal(&mut out, self.user_pid as usize);
        push_char(&mut out, ':');
        push_decimal(&mut out, self.position as usize);
        proof {
            assert(out@ =~= decimal_chars(self.user_pid as int) + seq![':'] + decimal_chars(
                self.position as int,
            ));
        }
        out
    }
}

/// The characters `str::trim` strips: Unicode whitespace.
pub open spec fn is_whitespace_char(c: char) -> bool {
    let v = c as u32;
    ||| v == 0x20
    ||| (0x09 <= v && v <= 0x0D)
    ||| v == 0x85
    ||| v == 0xA0
    ||| v == 0x1680
    ||| (0x2000 <= v && v <= 0x200A)
    ||| v == 0x2028
    ||| v == 0x2029
    ||| v == 0x202F
    ||| v == 0x205F
    ||| v == 0x3000
}

fn is_whitespace_exec(c: char) -> (r: bool)
    ensures
        r == is_whitespace_char(c),
{
    let v = c as u32;
    v == 0x20 || (0x09 <= v && v <= 0x0D) || v == 0x85 || v == 0xA0 || v == 0x1680 || (0x2000 <= v
        && v <= 0x200A) || v == 0x2028 || v == 0x2029 || v == 0x202F || v == 0x205F || v == 0x3000
}

/// `s` with leading and trailing whitespace removed.
pub open spec fn trim_spec(s: Seq<char>) -> Seq<char>
    decreases s.len(),
{
    if s.len() == 0 {
        s
    } else if is_whitespace_char(s[0]) {
        trim_spec(s.skip(1))
    } else if is_whitespace_char(s.last()) {
        trim_spec(s.take(s.len() - 1))
    } else {
        s
    }
}

fn trim_exec(s: &str) -> (r: String)
    ensures
        r@ == trim_spec(s@),
    decreases s@.len(),
{
    let len = s.unicode_len();
    if len == 0 {
        return s.to_owned();
    }
    if is_whitespace_exec(s.get_char(0)) {
        let rest = s.substring_char(1, len);
        proof {
            assert(rest@ =~= s@.skip(1));
        }
        return trim_exec(rest);
    }
    if is_whitespace_exec(s.get_char(len - 1)) {
        let rest = s.substring_char(0, len - 1);
        proof {
            assert(rest@ =~= s@.take(s@.len() - 1));
        }
        return trim_exec(rest);
    }
    s.to_owned()
}

/// What `str::parse::<u8>` accepts: an optional leading `+`, then a
/// non-empty run of decimal digits whose value fits in a byte.
pub open spec fn parse_u8_spec(s: Seq<char>) -> Option<u8> {
    let digits = if s.len() > 0 && s[0] == '+' {
        s.skip(1)
    } else {
        s
    };
    if digits.len() > 0 && all_digits(digits) && digits_value(digits) <= 255 {
        Some(digits_value(digits) as u8)
    } else {
        None
    }
}

/// Parses a byte as `str::parse::<u8>` does.
pub fn parse_u8(s: &str) -> (r: Option<u8>)
    ensures
        r == parse_u8_spec(s@),
{
    let len = s.unicode_len();
    let mut start: usize = 0;
    if len > 0 && s.get_char(0) == '+' {
        start = 1;
    }
    let ghost digits = if s@.len() > 0 && s@[0] == '+' {
        s@.skip(1)
    } else {
        s@
    };
    if start >= len {
        proof {
            assert(digits.len() == 0);
        }
        return None;
    }
    let mut i: usize = start;
    let mut val: u16 = 0;
    while i < len
        invariant
            start <= i <= len,
            start <= 1,
            start < len,
            len == s@.len(),
            start == 1 <==> (s@.len() > 0 && s@[0] == '+'),
            digits == (if s@.len() > 0 && s@[0] == '+' {
                s@.skip(1)
            } else {
                s@
            }),
            digits.len() == len - start,
            forall|j: int| 0 <= j < digits.len() ==> digits[j] == s@[j + start],
            all_digits(digits.take(i - start)),
            val == digits_value(digits.take(i - start)),
            val <= 255,
        decreases len - i,
    {
        let c = s.get_char(i);
        let v = c as u32;
        if v < 48 || v > 57 {
            proof {
                assert(digits[i - start] == s@[i as int]);
                assert(!all_digits(digits));
            }
            return None;
        }
        let dv = (v - 48) as u16;
        proof {
            assert(digits.take(i - start + 1).drop_last() =~= digits.take(i - start));
            assert(digits.take(i - start + 1).last() == digits[i - start]);
            assert(digits[i - start] == s@[i as int]);
            assert(all_digits(digits.take(i - start + 1))) by {
                assert(forall|j: int|
                    0 <= j < i - start ==> #[trigger] digits.take(i - start + 1)[j] == digits.take(
                        i - start,
                    )[j]);
            }
            assert(digits_value(digits.take(i - start + 1)) == val * 10 + dv);
        }
        if val > 25 || (val == 25 && dv > 5) {
            proof {
                assert(digits_value(digits.take(i - start + 1)) > 255);
                if all_digits(digits) && digits_value(digits) <= 255 {
                    lemma_digits_value_take_le(digits, i - start + 1);
                    assert(false);
                }
            }
            return None;
        }
        val = val * 10 + dv;
        i += 1;
    }
    proof {
        assert(digits.take(len - start) =~= digits);
    }
    Some(val as u8)
}

/// What a game line means. The prefix before the first `:` names the
/// moving player; the segment between the first and second `:` (or the
/// rest of the line), trimmed of whitespace, names the cell. `None`
/// means the line is unusable.
pub open spec fn build_message_spec(s: Seq<char>) -> Option<Message> {
    let k = first_occurrence(s, ':');
    if k < 0 {
        None
    } else {
        match parse_u8_spec(s.subrange(0, k)) {
            None => None,
            Some(pid) => {
                let rest = s.skip(k + 1);
                let k2 = first_occurrence(rest, ':');
                let seg = if k2 < 0 {
                    rest
                } else {
                    rest.subrange(0, k2)
                };
                match parse_u8_spec(trim_spec(seg)) {
                    None => None,
                    Some(pos) => Some(Message { user_pid: pid, position: pos }),
                }
            },
        }
    }
}

/// Parses one received game line into a message.
pub fn build_message(line: String) -> (r: Option<Message>)
    ensures
        r == build_message_spec(line@),
{
    let s = line.as_str();
    let len = s.unicode_len();
    let k = match find_char(s, ':') {
        None => {
            return None;
        },
        Some(k) => k,
    };
    let prefix = s.substring_char(0, k);
    let user_pid = match parse_u8(prefix) {
        None => {
            return None;
        },
        Some(p) => p,
    };
    let rest = s.substring_char(k + 1, len);
    proof {
        assert(rest@ =~= s@.skip(k as int + 1));
    }
    let seg = match find_char(rest, ':') {
        None => rest,
        Some(k2) => rest.substring_char(0, k2),
    };
    let trimmed = trim_exec(seg);
    let position = match parse_u8(trimmed.as_str()) {
        None => {
            return None;
        },
        Some(p) => p,
    };
    Some(Message { user_pid, position })
}

/// The eight winning lines of the board: three in a row, column, or
/// diagonal.
pub open spec fn winning_set(s: Set<u8>) -> bool {
    ||| (s.contains(0) && s.contains(1) && s.contains(2))
    ||| (s.contains(3) && s.contains(4) && s.contains(5))
    ||| (s.contains(6) && s.contains(7) && s.contains(8))
    ||| (s.contains(0) && s.contains(3) && s.contains(6))
    ||| (s.contains(1) && s.contains(4) && s.contains(7))
    ||| (s.contains(2) && s.contains(5) && s.contains(8))
    ||| (s.contains(0) && s.contains(4) && s.contains(8))
    ||| (s.contains(6) && s.contains(4) && s.contains(2))
}

/// Whether the recorded moves complete one of the eight winning lines.
pub fn contains_winning_combination(moves: &HashSet<u8>) -> (r: bool)
    ensures
        r == winning_set(moves@),
{
    (moves.contains(&0) && moves.contains(&1) && moves.contains(&2)) || (moves.contains(&3)
        && moves.contains(&4) && moves.contains(&5)) || (moves.contains(&6) && moves.contains(&7)
        && moves.contains(&8)) || (moves.contains(&0) && moves.contains(&3) && moves.contains(&6))
        || (moves.contains(&1) && moves.contains(&4) && moves.contains(&7)) || (moves.contains(&2)
        && moves.contains(&5) && moves.contains(&8)) || (moves.contains(&0) && moves.contains(&4)
        && moves.contains(&8)) || (moves.contains(&6) && moves.contains(&4) && moves.contains(&2))
}

/// Announcing a decisive result to the players is deliberately
/// disabled: they are shut down instead, and telling them used to break
/// their pipes. The call sites remain so the policy has one place.
pub fn print_decisive_result(loser_pid: u8) {
    let _ = loser_pid;
}

/// The id of the other player.
pub fn get_next_pid(pid: u8) -> (r: u8)
    requires
        pid < 255,
    ensures
        r == (pid + 1) % 2,
        r < 2,
{
    (pid + 1) % 2
}

/// One tic-tac-toe game as the manager tracks it: whose turn it is,
/// which cells are still free, and each player's recorded moves.
pub struct GameState {
    pub current_pid: u8,
    pub possible_moves: HashSet<u8>,
    pub first_player_positions: HashSet<u8>,
    pub second_player_positions: HashSet<u8>,
}

/// One completion of the manager's wait for a line: a line arrived, or
/// the read timed out, failed, or hit end-of-stream.
pub enum GameEvent {
    Line(String),
    Timeout,
}

/// What the game loop must do after one event: forward `line` to the
/// players and keep going, or stop the game with `loser` having lost.
pub enum StepOutcome {
    Notify { line: String, winning_move: bool },
    Stop { loser: u8 },
}

/// The turn holder and the board agree with each other.
pub open spec fn same_game(a: GameState, b: GameState) -> bool {
    &&& a.current_pid == b.current_pid
    &&& a.possible_moves@ == b.possible_moves@
    &&& a.first_player_positions@ == b.first_player_positions@
    &&& a.second_player_positions@ == b.second_player_positions@
}

impl GameState {
    pub open spec fn wf(&self) -> bool {
        self.current_pid < 2
    }

    /// A fresh game: all nine cells free, no moves recorded, and
    /// `first_pid` to move.
    pub fn new(first_pid: u8) -> (r: Self)
        requires
            first_pid < 2,
        ensures
            r.wf(),
            r.current_pid == first_pid,
            forall|m: u8| r.possible_moves@.contains(m) <==> m < 9,
            r.first_player_positions@ == Set::<u8>::empty(),
            r.second_player_positions@ == Set::<u8>::empty(),
    {
        let mut possible_moves: HashSet<u8> = HashSet::new();
        let mut m: u8 = 0;
        while m < 9
            invariant
                m <= 9,
                forall|x: u8| possible_moves@.contains(x) <==> x < m,
            decreases 9 - m,
        {
            possible_moves.insert(m);
            m += 1;
        }
        GameState {
            current_pid: first_pid,
            possible_moves,
            first_player_positions: HashSet::new(),
            second_player_positions: HashSet::new(),
        }
    }

    /// The game ends when no cell is free.
    pub fn is_over(&self) -> (r: bool)
        ensures
            r == (self.possible_moves@.len() == 0),
    {
        self.possible_moves.len() == 0
    }

    /// Decides one event of the game loop. A timeout or an unusable
    /// line costs the player to move the game; so does moving out of
    /// turn (the mover loses) or taking an occupied or impossible cell.
    /// A good move is recorded, the turn passes, and the move is
    /// announced to the player now on turn; `winning_move` reports
    /// whether it completed a winning line.
    pub fn advance(&mut self, event: GameEvent) -> (r: StepOutcome)
        requires
            old(self).wf(),
        ensures
            final(self).wf(),
            ({
                let cur = old(self).current_pid;
                match event {
                    GameEvent::Timeout => r == (StepOutcome::Stop { loser: cur }) && same_game(
                        *final(self),
                        *old(self),
                    ),
                    GameEvent::Line(line) => match build_message_spec(line@) {
                        None => r == (StepOutcome::Stop { loser: cur }) && same_game(
                            *final(self),
                            *old(self),
                        ),
                        Some(m) => if m.user_pid != cur {
                            r == (StepOutcome::Stop { loser: m.user_pid }) && same_game(
                                *final(self),
                                *old(self),
                            )
                        } else if !old(self).possible_moves@.contains(m.position) {
                            r == (StepOutcome::Stop { loser: cur }) && same_game(
                                *final(self),
                                *old(self),
                            )
                        } else {
                            let pre = *old(self);
                            let post = *final(self);
                            &&& post.current_pid == (cur + 1) % 2
                            &&& post.possible_moves@ == pre.possible_moves@.remove(m.position)
                            &&& (cur == 0 ==> post.first_player_positions@
                                == pre.first_player_positions@.insert(m.position)
                                && post.second_player_positions@ == pre.second_player_positions@)
                            &&& (cur == 1 ==> post.second_player_positions@
                                == pre.second_player_positions@.insert(m.position)
                                && post.first_player_positions@ == pre.first_player_positions@)
                            &&& (r matches StepOutcome::Notify { line: out, winning_move }
                                && out@ == decimal_chars(post.current_pid as int) + seq![':']
                                + decimal_chars(m.position as int)
                                && winning_move == winning_set(if cur == 0 {
                                    post.first_player_positions@
                                } else {
                                    post.second_player_positions@
                                }))
                        },
                    },
                }
            }),
    {
        let line = match event {
            GameEvent::Timeout => {
                return StepOutcome::Stop { loser: self.current_pid };
            },
            GameEvent::Line(l) => l,
        };
        let message = match build_message(line) {
            None => {
                return StepOutcome::Stop { loser: self.current_pid };
            },
            Some(m) => m,
        };
        // moving out of turn is invalid: the mover auto-loses
        if message.user_pid != self.current_pid {
            return StepOutcome::Stop { loser: message.user_pid };
        }
        // an impossible move is invalid: the player to move auto-loses
        if !self.possible_moves.remove(&message.position) {
            proof {
                assert(old(self).possible_moves@.remove(message.position)
                    =~= old(self).possible_moves@);
            }
            return StepOutcome::Stop { loser: self.current_pid };
        }
        let moved = message.position;
        let winning_move: bool;
        if self.current_pid == 0 {
            self.first_player_positions.insert(moved);
            winning_move = contains_winning_combination(&self.first_player_positions);
        } else {
            self.second_player_positions.insert(moved);
            winning_move = contains_winning_combination(&self.second_player_positions);
        }
        if winning_move {
            print_decisive_result(get_next_pid(self.current_pid));
        }
        // pass the turn and announce the move to the player now on turn
        self.current_pid = get_next_pid(self.current_pid);
        let notify = Message { user_pid: self.current_pid, position: moved };
        StepOutcome::Notify { line: notify.render(), winning_move }
    }
}

/// The two announcements before the game loop: the opening player is
/// told `<pid>:0`, the other `<pid>:1`.
pub fn opening_lines(first_pid: u8) -> (r: (String, String))
    requires
        first_pid < 2,
    ensures
        r.0@ == decimal_chars(first_pid as int) + seq![':'] + decimal_chars(0),
        r.1@ == decimal_chars(((first_pid + 1) % 2) as int) + seq![':'] + decimal_chars(1),
{
    let first = Message { user_pid: first_pid, position: 0 };
    let second = Message { user_pid: get_next_pid(first_pid), position: 1 };
    (first.render(), second.render())
}

} // verus!
