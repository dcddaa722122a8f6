//! The fan-in router: merges every player's output into the manager's
//! single input stream, tagging each line with the id of the player that
//! produced it.
//!
//! Here the router is the state machine alone: the caller owns the
//! player output streams, races a pending read per still-open player,
//! and reports each completion — a line or end-of-stream — to the
//! router. The router keeps the wait set, produces the exact bytes to
//! write to the manager's input (one atomic write per line), and is done
//! when the wait set is empty.

use vstd::prelude::*;
use crate::orchestrator::OrchestrationError;
use crate::protocol::decode_spec;
use crate::protocol::encode;
use crate::protocol::encode_spec;
use crate::protocol::is_digit;
use crate::protocol::lemma_encode_decode_round_trip;
use crate::protocol::push_char;

verus! {

/// How many players an open-flag sequence still holds in the wait set.
pub open spec fn count_open(s: Seq<bool>) -> int
    decreases s.len(),
{
    if s.len() == 0 {
        0
    } else {
        count_open(s.drop_last()) + (if s.last() {
            1int
        } else {
            0
        })
    }
}

proof fn lemma_count_open_bounds(s: Seq<bool>)
    ensures
        0 <= count_open(s) <= s.len(),
    decreases s.len(),
{
    if s.len() > 0 {
        lemma_count_open_bounds(s.drop_last());
    }
}

proof fn lemma_count_open_all_closed(s: Seq<bool>)
    requires
        forall|j: int| 0 <= j < s.len() ==> !s[j],
    ensures
        count_open(s) == 0,
    decreases s.len(),
{
    if s.len() > 0 {
        assert(forall|j: int| 0 <= j < s.len() - 1 ==> !s.drop_last()[j]);
        lemma_count_open_all_closed(s.drop_last());
        assert(!s.last());
    }
}

proof fn lemma_count_open_member(s: Seq<bool>, i: int)
    requires
        0 <= i < s.len(),
        s[i],
    ensures
        count_open(s) >= 1,
    decreases s.len(),
{
    lemma_count_open_bounds(s.drop_last());
    if i < s.len() - 1 {
        lemma_count_open_member(s.drop_last(), i);
    }
}

proof fn lemma_count_open_close_one(s: Seq<bool>, i: int)
    requires
        0 <= i < s.len(),
        s[i],
    ensures
        count_open(s.update(i, false)) == count_open(s) - 1,
    decreases s.len(),
{
    let t = s.update(i, false);
    if i == s.len() - 1 {
        assert(t.drop_last() =~= s.drop_last());
        assert(!t.last());
        assert(s.last());
    } else {
        assert(t.drop_last() =~= s.drop_last().update(i, false));
        assert(t.last() == s.last());
        lemma_count_open_close_one(s.drop_last(), i);
    }
}

/// The fan-in router's state: which players are still in the wait set,
/// the delimiter used to tag lines, and (as history, for the ordering
/// statements) every line forwarded so far as the pair of its origin id
/// and its payload, in arrival order.
pub struct FanInRouter {
    open_players: Vec<bool>,
    delimiter: char,
    forwarded: Ghost<Seq<(int, Seq<char>)>>,
}

impl FanInRouter {
    /// True at the indices of players still in the wait set.
    pub closed spec fn wait_set(&self) -> Seq<bool> {
        self.open_players@
    }

    /// The configured delimiter.
    pub closed spec fn delim(&self) -> char {
        self.delimiter
    }

    /// Every line forwarded so far: origin id and payload, in the order
    /// the completions arrived (and hence in the order the lines stand
    /// on the manager's input).
    pub closed spec fn log(&self) -> Seq<(int, Seq<char>)> {
        self.forwarded@
    }

    /// Starts a round with every one of the `players` streams in the
    /// wait set and nothing forwarded yet.
    pub fn new(players: usize, delimiter: char) -> (r: Self)
        ensures
            r.wait_set().len() == players as int,
            forall|i: int| 0 <= i < players as int ==> r.wait_set()[i],
            r.delim() == delimiter,
            r.log() == Seq::<(int, Seq<char>)>::empty(),
    {
        let mut open_players: Vec<bool> = Vec::new();
        let mut i: usize = 0;
        while i < players
            invariant
                i <= players,
                open_players@.len() == i as int,
                forall|j: int| 0 <= j < i as int ==> open_players@[j],
            decreases players - i,
        {
            open_players.push(true);
            i += 1;
        }
        FanInRouter { open_players, delimiter, forwarded: Ghost(Seq::empty()) }
    }

    /// How many players the router was started with.
    pub fn player_count(&self) -> (r: usize)
        ensures
            r == self.wait_set().len(),
    {
        self.open_players.len()
    }

    /// Whether a player is still in the wait set.
    pub fn is_open(&self, player: usize) -> (r: bool)
        requires
            (player as int) < self.wait_set().len(),
        ensures
            r == self.wait_set()[player as int],
    {
        self.open_players[player]
    }

    /// A player's line arrived: tag it with the player's id and hand
    /// back the exact bytes — tag, delimiter, payload, newline — to be
    /// written to the manager's input as one atomic write. The wait set
    /// is unchanged; the caller re-arms a read for this player.
    pub fn handle_line(&mut self, player: usize, payload: &str) -> (line: String)
        requires
            (player as int) < old(self).wait_set().len(),
            old(self).wait_set()[player as int],
        ensures
            line@ == encode_spec(player as int, payload@, old(self).delim()) + seq!['\n'],
            final(self).wait_set() == old(self).wait_set(),
            final(self).delim() == old(self).delim(),
            final(self).log() == old(self).log().push((player as int, payload@)),
    {
        let mut line = encode(player, payload, self.delimiter);
        push_char(&mut line, '\n');
        proof {
            assert(line@ =~= encode_spec(player as int, payload@, self.delimiter)
                + seq!['\n']);
            self.forwarded@ = self.forwarded@.push((player as int, payload@));
        }
        line
    }

    /// A player's stream reached end-of-stream: the player leaves the
    /// wait set for good, and the wait set shrinks by exactly one; no
    /// other player's membership and nothing already forwarded changes.
    pub fn handle_eof(&mut self, player: usize)
        requires
            (player as int) < old(self).wait_set().len(),
            old(self).wait_set()[player as int],
        ensures
            final(self).wait_set() == old(self).wait_set().update(player as int, false),
            count_open(final(self).wait_set()) == count_open(old(self).wait_set()) - 1,
            final(self).delim() == old(self).delim(),
            final(self).log() == old(self).log(),
    {
        proof {
            lemma_count_open_close_one(self.open_players@, player as int);
        }
        self.open_players.set(player, false);
    }

    /// Decides one completion of the multi-way wait, carrying the
    /// stream-failure policy: a line is tagged and forwarded (the
    /// caller re-arms that player's read); end-of-stream retires the
    /// player; a failed read of a player's stream ends that player's
    /// participation exactly like end-of-stream — recorded by the
    /// caller, never fatal; a failed write to the manager's input is
    /// fatal, since no player can be reached without it.
    pub fn handle_event(&mut self, event: FanInEvent) -> (r: FanInStep)
        requires
            ({
                let pre = *old(self);
                match event {
                    FanInEvent::Line { player, .. } => (player as int) < pre.wait_set().len()
                        && pre.wait_set()[player as int],
                    FanInEvent::EndOfStream { player } => (player as int)
                        < pre.wait_set().len() && pre.wait_set()[player as int],
                    FanInEvent::ReadFailure { player } => (player as int)
                        < pre.wait_set().len() && pre.wait_set()[player as int],
                    FanInEvent::ManagerWriteFailure => true,
                }
            }),
        ensures
            ({
                let pre = *old(self);
                let post = *final(self);
                &&& post.delim() == pre.delim()
                &&& match event {
                    FanInEvent::Line { player, payload } => r matches FanInStep::Forward {
                        line,
                    } && line@ == encode_spec(player as int, payload@, pre.delim())
                        + seq!['\n'] && post.wait_set() == pre.wait_set() && post.log()
                        == pre.log().push((player as int, payload@)),
                    FanInEvent::EndOfStream { player } => r is Retire && post.wait_set()
                        == pre.wait_set().update(player as int, false) && count_open(
                        post.wait_set(),
                    ) == count_open(pre.wait_set()) - 1 && post.log() == pre.log(),
                    FanInEvent::ReadFailure { player } => r is Retire && post.wait_set()
                        == pre.wait_set().update(player as int, false) && count_open(
                        post.wait_set(),
                    ) == count_open(pre.wait_set()) - 1 && post.log() == pre.log(),
                    FanInEvent::ManagerWriteFailure => r matches FanInStep::Fail(e)
                        && e is StreamIOFailure && post.wait_set() == pre.wait_set()
                        && post.log() == pre.log(),
                }
            }),
    {
        match event {
            FanInEvent::Line { player, payload } => FanInStep::Forward {
                line: self.handle_line(player, payload.as_str()),
            },
            FanInEvent::EndOfStream { player } => {
                self.handle_eof(player);
                FanInStep::Retire
            },
            FanInEvent::ReadFailure { player } => {
                self.handle_eof(player);
                FanInStep::Retire
            },
            FanInEvent::ManagerWriteFailure => FanInStep::Fail(
                OrchestrationError::StreamIOFailure,
            ),
        }
    }

    /// True exactly when the wait set is empty: every player stream has
    /// reached end-of-stream and the router's run is complete.
    pub fn is_done(&self) -> (r: bool)
        ensures
            r == (count_open(self.wait_set()) == 0),
    {
        let mut i: usize = 0;
        while i < self.open_players.len()
            invariant
                i <= self.open_players@.len(),
                forall|j: int| 0 <= j < i as int ==> !self.open_players@[j],
            decreases self.open_players@.len() - i,
        {
            if self.open_players[i] {
                proof {
                    lemma_count_open_member(self.open_players@, i as int);
                }
                return false;
            }
            i += 1;
        }
        proof {
            lemma_count_open_all_closed(self.open_players@);
        }
        true
    }
}

/// One completion of the fan-in router's multi-way wait: a line from a
/// player, the end of a player's stream, a failed read of one, or a
/// failed write of a forwarded line to the manager's input.
pub enum FanInEvent {
    Line { player: usize, payload: String },
    EndOfStream { player: usize },
    ReadFailure { player: usize },
    ManagerWriteFailure,
}

/// What the fan-in router asks its caller to do next: write `line` to
/// the manager's input as one atomic write and re-arm the player's
/// read, drop the player for good, or fail the run.
pub enum FanInStep {
    Forward { line: String },
    Retire,
    Fail(OrchestrationError),
}

/// The payloads in `log` that came from player `id`, in arrival order:
/// what the player itself emitted, in its own order.
pub open spec fn payloads_from(log: Seq<(int, Seq<char>)>, id: int) -> Seq<Seq<char>>
    decreases log.len(),
{
    if log.len() == 0 {
        Seq::empty()
    } else {
        let rest = payloads_from(log.drop_last(), id);
        if log.last().0 == id {
            rest.push(log.last().1)
        } else {
            rest
        }
    }
}

/// The tagged lines the manager's input receives for `log`, in order
/// (each without its terminating newline).
pub open spec fn wire_lines(log: Seq<(int, Seq<char>)>, delimiter: char) -> Seq<Seq<char>>
    decreases log.len(),
{
    if log.len() == 0 {
        Seq::empty()
    } else {
        wire_lines(log.drop_last(), delimiter).push(
            encode_spec(log.last().0, log.last().1, delimiter),
        )
    }
}

/// The payloads a reader of `lines` attributes to player `id` after
/// decoding each line and keeping those addressed from `id`, in order.
pub open spec fn decoded_payloads_for(lines: Seq<Seq<char>>, delimiter: char, id: int) -> Seq<
    Seq<char>,
>
    decreases lines.len(),
{
    if lines.len() == 0 {
        Seq::empty()
    } else {
        let rest = decoded_payloads_for(lines.drop_last(), delimiter, id);
        match decode_spec(lines.last(), delimiter) {
            Some(p) => if p.0 == id {
                rest.push(p.1)
            } else {
                rest
            },
            None => rest,
        }
    }
}

/// Per-source order preservation: whatever way completions from
/// different players interleave in `log`, the manager — decoding the
/// merged stream line by line and keeping the lines tagged with player
/// `id` — observes exactly the payload sequence that player emitted, in
/// the same relative order.
pub proof fn lemma_order_preserved_per_source(
    log: Seq<(int, Seq<char>)>,
    delimiter: char,
    id: int,
)
    requires
        !is_digit(delimiter),
        forall|j: int| 0 <= j < log.len() ==> #[trigger] log[j].0 >= 0,
    ensures
        decoded_payloads_for(wire_lines(log, delimiter), delimiter, id) == payloads_from(
            log,
            id,
        ),
    decreases log.len(),
{
    if log.len() > 0 {
        assert(forall|j: int| 0 <= j < log.len() - 1 ==> #[trigger] log.drop_last()[j].0 >= 0);
        lemma_order_preserved_per_source(log.drop_last(), delimiter, id);
        let last = log.last();
        assert(log[log.len() - 1].0 >= 0);
        lemma_encode_decode_round_trip(last.0, last.1, delimiter);
        let lines = wire_lines(log, delimiter);
        assert(lines.drop_last() =~= wire_lines(log.drop_last(), delimiter));
        assert(lines.last() == encode_spec(last.0, last.1, delimiter));
    }
}

} // verus!
