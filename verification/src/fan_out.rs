//! The fan-out router: reads the manager's tagged output line by line,
//! decodes the destination id, and delivers the untagged payload (plus a
//! terminating newline) to the addressed player's input.
//!
//! Here only the routing decision is made; the caller owns the manager's
//! output stream and the routing table of player input sinks, feeds each
//! line in, and performs the delivery the decision calls for.

use vstd::prelude::*;
use crate::orchestrator::OrchestrationError;
use crate::protocol::decode_spec;
use crate::protocol::push_char;
use crate::protocol::scan_tag;
use crate::protocol::ProtocolError;
use crate::protocol::TagScan;

verus! {

/// One delivery the fan-out router asks for: write `message` (the
/// payload with its newline restored) to the input of player
/// `recipient`.
pub struct Delivery {
    pub recipient: usize,
    pub message: String,
}

/// What the fan-out router must do with one line of manager output, as
/// a function of the line, the delimiter, and the routing-table size:
/// deliver the payload to the decoded id, or fail the line as malformed
/// or as addressed outside the table.
pub open spec fn route_spec(line: Seq<char>, delimiter: char, players: int) -> Result<
    (int, Seq<char>),
    ProtocolError,
> {
    match decode_spec(line, delimiter) {
        None => Err(ProtocolError::MalformedTag),
        Some(p) => if p.0 < players {
            Ok(p)
        } else {
            Err(ProtocolError::RecipientOutOfRange)
        },
    }
}

/// The fan-out router's immutable configuration: the routing table has
/// `players` entries (player ids `0 .. players`), and tags are read with
/// `delimiter`.
pub struct FanOutRouter {
    players: usize,
    delimiter: char,
}

impl FanOutRouter {
    /// The number of entries in the routing table.
    pub closed spec fn player_count(&self) -> int {
        self.players as int
    }

    /// The configured delimiter.
    pub closed spec fn delim(&self) -> char {
        self.delimiter
    }

    pub fn new(players: usize, delimiter: char) -> (r: Self)
        ensures
            r.player_count() == players as int,
            r.delim() == delimiter,
    {
        FanOutRouter { players, delimiter }
    }

    /// Decides one line of manager output. A malformed line and a line
    /// addressed beyond the routing table are both protocol violations;
    /// otherwise the payload, with a newline restored, is handed back
    /// for delivery to the addressed player.
    pub fn route(&self, line: &str) -> (r: Result<Delivery, ProtocolError>)
        ensures
            ({
                let s = route_spec(line@, self.delim(), self.player_count());
                match r {
                    Ok(d) => s == Ok::<_, ProtocolError>((d.recipient as int, d.message@.drop_last()))
                        && d.recipient < self.player_count()
                        && d.message@.len() >= 1
                        && d.message@.last() == '\n',
                    Err(e) => s == Err::<(int, Seq<char>), _>(e),
                }
            }),
    {
        match scan_tag(line, self.delimiter) {
            TagScan::Valid(t) => {
                if t.id < self.players {
                    let ghost p = t.payload@;
                    let mut message = t.payload;
                    push_char(&mut message, '\n');
                    proof {
                        assert(message@.drop_last() =~= p);
                    }
                    Ok(Delivery { recipient: t.id, message })
                } else {
                    Err(ProtocolError::RecipientOutOfRange)
                }
            },
            TagScan::Oversized => {
                // the id is grammatical but larger than any possible
                // routing table, so no entry can exist for it
                Err(ProtocolError::RecipientOutOfRange)
            },
            TagScan::Invalid => Err(ProtocolError::MalformedTag),
        }
    }

    /// Decides one completion of the fan-out router's work, carrying
    /// the stream-failure policy: a line is routed; end-of-stream on
    /// the manager's output ends the router successfully; a failed read
    /// of the manager's output is fatal, since no command can arrive
    /// without it; a failed delivery to one player is recoverable — it
    /// is recorded by the caller and routing to the others goes on.
    pub fn handle_event(&self, event: FanOutEvent) -> (r: FanOutStep)
        ensures
            match event {
                FanOutEvent::Line(line) => match route_spec(
                    line@,
                    self.delim(),
                    self.player_count(),
                ) {
                    Ok(p) => r matches FanOutStep::Deliver(d) && d.recipient as int == p.0
                        && d.message@ == p.1.push('\n'),
                    Err(e) => r matches FanOutStep::Fail(oe) && (e is MalformedTag
                        ==> oe is MalformedTag) && (e is RecipientOutOfRange
                        ==> oe is RecipientOutOfRange),
                },
                FanOutEvent::EndOfStream => r is Finish,
                FanOutEvent::ReadFailure => r matches FanOutStep::Fail(oe)
                    && oe is StreamIOFailure,
                FanOutEvent::DeliveryFailure => r is Continue,
            },
    {
        match event {
            FanOutEvent::Line(line) => match self.route(line.as_str()) {
                Ok(delivery) => {
                    proof {
                        let p = route_spec(
                            line@,
                            self.delim(),
                            self.player_count(),
                        )->Ok_0;
                        assert(delivery.message@ =~= p.1.push('\n'));
                    }
                    FanOutStep::Deliver(delivery)
                },
                Err(violation) => FanOutStep::Fail(
                    OrchestrationError::from_protocol(violation),
                ),
            },
            FanOutEvent::EndOfStream => FanOutStep::Finish,
            FanOutEvent::ReadFailure => FanOutStep::Fail(OrchestrationError::StreamIOFailure),
            FanOutEvent::DeliveryFailure => FanOutStep::Continue,
        }
    }
}

/// One completion of the fan-out router's wait: a line of manager
/// output, the end of that output, a failed read of it, or a failed
/// delivery to the player addressed last.
pub enum FanOutEvent {
    Line(String),
    EndOfStream,
    ReadFailure,
    DeliveryFailure,
}

/// What the fan-out router asks its caller to do next: perform a
/// delivery, keep going, finish successfully, or fail the run.
pub enum FanOutStep {
    Deliver(Delivery),
    Continue,
    Finish,
    Fail(OrchestrationError),
}

} // verus!
