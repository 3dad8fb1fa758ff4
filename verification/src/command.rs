//! Commands the manager sends to workers in each reply, and their stable
//! wire tags. The wire format requires `WAIT`, `RUN` and `EXIT` to keep the
//! tags 0, 1 and 2 across versions.

use vstd::prelude::*;

verus! {

/// A command sent from the manager to a worker in reply to a worker poll.
#[derive(Clone, Copy, Debug, PartialEq, Eq, Structural)]
pub enum GooseClientCommand {
    /// Not all expected workers have connected yet: keep polling.
    WAIT,
    /// The load test is running: keep issuing requests and shipping metrics.
    RUN,
    /// The load test is over (or this worker was rejected): shut down.
    EXIT,
}

/// The stable wire tag of a command: `WAIT = 0`, `RUN = 1`, `EXIT = 2`.
pub open spec fn spec_command_tag(c: GooseClientCommand) -> u8 {
    match c {
        GooseClientCommand::WAIT => 0,
        GooseClientCommand::RUN => 1,
        GooseClientCommand::EXIT => 2,
    }
}

/// Encode a command as its stable wire tag.
pub fn command_tag(c: GooseClientCommand) -> (r: u8)
    ensures
        r == spec_command_tag(c),
{
    match c {
        GooseClientCommand::WAIT => 0,
        GooseClientCommand::RUN => 1,
        GooseClientCommand::EXIT => 2,
    }
}

/// Decode a wire tag back into a command; tags other than 0, 1 and 2 are
/// malformed and rejected.
pub fn command_from_tag(tag: u8) -> (r: Option<GooseClientCommand>)
    ensures
        tag <= 2 ==> r is Some && spec_command_tag(r->0) == tag,
        tag > 2 ==> r is None,
{
    match tag {
        0 => Some(GooseClientCommand::WAIT),
        1 => Some(GooseClientCommand::RUN),
        2 => Some(GooseClientCommand::EXIT),
        _ => None,
    }
}

/// Round trip: every command survives encoding to its wire tag and decoding.
pub proof fn lemma_command_tag_round_trip(c: GooseClientCommand)
    ensures
        command_tag_round_trips(c),
{
}

/// A command decodes back from its own tag.
pub open spec fn command_tag_round_trips(c: GooseClientCommand) -> bool {
    spec_command_tag(c) <= 2 && forall|d: GooseClientCommand|
        spec_command_tag(d) == spec_command_tag(c) ==> d == c
}

} // verus!
