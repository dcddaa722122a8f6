//! Orchestration planning and failure policy: validating the set of
//! executable paths, fixing which process is the manager and which are
//! the players, and combining the two routers' outcomes into the run's
//! result. Spawning the processes and driving the pipes is the caller's
//! work; it follows the plan produced here.

use vstd::prelude::*;
use vstd::string::StrSliceExecFns;
use vstd::string::StringExecFns;
use crate::protocol::ProtocolError;
use crate::protocol::DEFAULT_DELIMITER;

verus! {

/// Why an orchestration run failed.
#[derive(Debug)]
pub enum OrchestrationError {
    /// Fewer than one manager and one player were supplied; nothing was
    /// spawned.
    InsufficientProcesses,
    /// An executable could not be launched; the whole run is aborted
    /// before any routing starts.
    SpawnFailure { path: String },
    /// A participant emitted a line that breaks the tagged-line
    /// grammar; fatal to the router that read it.
    MalformedTag,
    /// A tagged line addressed an id with no routing-table entry; same
    /// fatal policy as a malformed tag.
    RecipientOutOfRange,
    /// A read or write on the manager's own stream failed; no player
    /// can be reached without it.
    StreamIOFailure,
    /// A participant failed to respond within an externally imposed
    /// deadline.
    Timeout,
}

impl OrchestrationError {
    /// Protocol violations surface as the orchestration's own failure,
    /// variant for variant.
    pub fn from_protocol(e: ProtocolError) -> (r: Self)
        ensures
            e == ProtocolError::MalformedTag ==> r is MalformedTag,
            e == ProtocolError::RecipientOutOfRange ==> r is RecipientOutOfRange,
    {
        match e {
            ProtocolError::MalformedTag => OrchestrationError::MalformedTag,
            ProtocolError::RecipientOutOfRange => OrchestrationError::RecipientOutOfRange,
        }
    }

    /// The diagnostic for this failure.
    pub open spec fn describe_spec(&self) -> Seq<char> {
        match self {
            OrchestrationError::InsufficientProcesses => "at least a manager and one player are needed"@,
            OrchestrationError::SpawnFailure { path } => "could not launch "@ + path@,
            OrchestrationError::MalformedTag => "a line broke the tagged-line grammar"@,
            OrchestrationError::RecipientOutOfRange => "a line addressed a player outside the routing table"@,
            OrchestrationError::StreamIOFailure => "the manager's stream failed"@,
            OrchestrationError::Timeout => "a participant did not respond in time"@,
        }
    }

    /// Renders the diagnostic a failed run reports before exiting with
    /// a non-zero status.
    pub fn describe(&self) -> (r: String)
        ensures
            r@ == self.describe_spec(),
    {
        match self {
            OrchestrationError::InsufficientProcesses => String::from_str(
                "at least a manager and one player are needed",
            ),
            OrchestrationError::SpawnFailure { path } => {
                let mut r = String::from_str("could not launch ");
                r.append(path.as_str());
                r
            },
            OrchestrationError::MalformedTag => String::from_str(
                "a line broke the tagged-line grammar",
            ),
            OrchestrationError::RecipientOutOfRange => String::from_str(
                "a line addressed a player outside the routing table",
            ),
            OrchestrationError::StreamIOFailure => String::from_str(
                "the manager's stream failed",
            ),
            OrchestrationError::Timeout => String::from_str(
                "a participant did not respond in time",
            ),
        }
    }
}

/// The validated shape of one orchestration run: the first path is the
/// manager's, the rest are the players' in the order given; player ids
/// are 0-based positions in `player_paths`, which is the routing table's
/// order and size.
pub struct OrchestrationPlan {
    pub manager_path: String,
    pub player_paths: Vec<String>,
    pub delimiter: char,
}

/// Validates the executable paths for a run. Fails with
/// `InsufficientProcesses` exactly when fewer than two paths — one
/// manager, at least one player — are supplied, before anything is
/// spawned; otherwise fixes the manager/player split and the delimiter.
pub fn plan_orchestration(paths: &Vec<String>) -> (r: Result<
    OrchestrationPlan,
    OrchestrationError,
>)
    ensures
        r is Ok <==> paths@.len() >= 2,
        r matches Err(e) ==> e is InsufficientProcesses,
        r matches Ok(plan) ==> {
            &&& plan.manager_path@ == paths@[0]@
            &&& plan.player_paths@.len() == paths@.len() - 1
            &&& forall|i: int|
                0 <= i < plan.player_paths@.len() ==> plan.player_paths@[i]@ == paths@[i + 1]@
            &&& plan.delimiter == DEFAULT_DELIMITER
        },
{
    if paths.len() < 2 {
        return Err(OrchestrationError::InsufficientProcesses);
    }
    let manager_path = paths[0].clone();
    let mut player_paths: Vec<String> = Vec::new();
    let mut i: usize = 1;
    while i < paths.len()
        invariant
            1 <= i <= paths@.len(),
            player_paths@.len() == i - 1,
            forall|j: int| 0 <= j < player_paths@.len() ==> player_paths@[j]@ == paths@[j + 1]@,
        decreases paths@.len() - i,
    {
        player_paths.push(paths[i].clone());
        i += 1;
    }
    Ok(OrchestrationPlan { manager_path, player_paths, delimiter: DEFAULT_DELIMITER })
}

/// The run's overall result once both routers have finished: the
/// fan-out router's failure takes precedence, then the fan-in router's;
/// the run succeeds only when both finished cleanly.
pub fn combine_outcomes(
    fan_out: Result<(), OrchestrationError>,
    fan_in: Result<(), OrchestrationError>,
) -> (r: Result<(), OrchestrationError>)
    ensures
        fan_out is Err ==> r == fan_out,
        fan_out is Ok ==> r == fan_in,
{
    match fan_out {
        Err(e) => Err(e),
        Ok(()) => fan_in,
    }
}

} // verus!
