//! The events pushed to every `/live` subscriber, and the rule that decides
//! what a subscriber's connection does with each thing that happens to it.

use vstd::prelude::*;

verus! {

/// A real-time event. On the wire each is a JSON object whose `event` field
/// names the variant (`new_vote`, `new_agent`, `matchup_created`,
/// `matchup_resolved`).
#[derive(Debug, Clone)]
pub enum LiveEvent {
    NewVote { matchup_id: String, agent_voted_for: String, comment: Option<String> },
    NewAgent { name: String, tagline: String },
    MatchupCreated { matchup_id: String, agent_a: String, agent_b: String },
    MatchupResolved { matchup_id: String, winner: Option<String>, hot_take: Option<String> },
}

/// What happens to a `/live` connection, as the loop that serves it sees it.
#[derive(Clone, Copy, Debug, PartialEq, Eq)]
pub enum LiveInput {
    /// The broadcast channel delivered an event.
    Event,
    /// The subscriber fell behind and the channel dropped events for it.
    Lagged,
    /// The broadcast channel closed.
    ChannelClosed,
    /// Sending an event to the client failed.
    SendFailed,
    /// The client sent a close frame, or its stream ended.
    ClientClosed,
    /// The client sent anything else (a text, binary or ping frame, or a
    /// frame that could not be read).
    ClientOther,
}

/// What the loop serving a `/live` connection does next.
#[derive(Clone, Copy, Debug, PartialEq, Eq)]
pub enum LiveAction {
    /// Send the event to the client and keep going.
    Forward,
    /// Close the connection.
    Disconnect,
    /// Keep going without sending anything.
    Ignore,
}

/// The decision of the loop serving a `/live` connection: events are
/// forwarded, a slow subscriber that lagged behind is dropped (backpressure:
/// drop and disconnect), as is one whose channel closed, whose send failed or
/// that closed its side; anything else the client sends is ignored.
pub fn live_step(input: LiveInput) -> (a: LiveAction)
    ensures
        a == match input {
            LiveInput::Event => LiveAction::Forward,
            LiveInput::ClientOther => LiveAction::Ignore,
            _ => LiveAction::Disconnect,
        },
{
    match input {
        LiveInput::Event => LiveAction::Forward,
        LiveInput::ClientOther => LiveAction::Ignore,
        LiveInput::Lagged => LiveAction::Disconnect,
        LiveInput::ChannelClosed => LiveAction::Disconnect,
        LiveInput::SendFailed => LiveAction::Disconnect,
        LiveInput::ClientClosed => LiveAction::Disconnect,
    }
}

} // verus!
