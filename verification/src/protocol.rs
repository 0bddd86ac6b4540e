//! The messages that cross the two bounded queues between the view and the
//! poller: actions travel from the view to the poller, events travel back.

use vstd::prelude::*;
use crate::summary::{ContainerSummary, NetworkSummary};

verus! {

/// A command that the operator issued, to be executed against the runtime.
#[derive(Debug)]
pub enum DockerAction {
    Start(String),
    Stop(String),
    Kill(String),
    Remove(String),
    StreamLogs { container_id: String },
    StopLogStream,
}

/// What an action says, with the container identity as a sequence of
/// characters.
pub enum ActionView {
    Start(Seq<char>),
    Stop(Seq<char>),
    Kill(Seq<char>),
    Remove(Seq<char>),
    StreamLogs { container_id: Seq<char> },
    StopLogStream,
}

impl View for DockerAction {
    type V = ActionView;

    open spec fn view(&self) -> ActionView {
        match self {
            DockerAction::Start(id) => ActionView::Start(id@),
            DockerAction::Stop(id) => ActionView::Stop(id@),
            DockerAction::Kill(id) => ActionView::Kill(id@),
            DockerAction::Remove(id) => ActionView::Remove(id@),
            DockerAction::StreamLogs { container_id } => ActionView::StreamLogs {
                container_id: container_id@,
            },
            DockerAction::StopLogStream => ActionView::StopLogStream,
        }
    }
}

/// A state update from the poller.
#[derive(Debug)]
pub enum DockerEvent {
    ContainersUpdated(Vec<ContainerSummary>),
    NetworksUpdated(Vec<NetworkSummary>),
    LogLine(String),
    LogStreamEnded,
    ActionResult { success: bool, message: String },
}

/// What an event says, with lists as sequences and text as sequences of
/// characters.
pub enum EventView {
    ContainersUpdated(Seq<ContainerSummary>),
    NetworksUpdated(Seq<NetworkSummary>),
    LogLine(Seq<char>),
    LogStreamEnded,
    ActionResult { success: bool, message: Seq<char> },
}

impl View for DockerEvent {
    type V = EventView;

    open spec fn view(&self) -> EventView {
        match self {
            DockerEvent::ContainersUpdated(rows) => EventView::ContainersUpdated(rows@),
            DockerEvent::NetworksUpdated(rows) => EventView::NetworksUpdated(rows@),
            DockerEvent::LogLine(text) => EventView::LogLine(text@),
            DockerEvent::LogStreamEnded => EventView::LogStreamEnded,
            DockerEvent::ActionResult { success, message } => EventView::ActionResult {
                success: *success,
                message: message@,
            },
        }
    }
}

/// What each event of a list says.
pub open spec fn events_view(events: Seq<DockerEvent>) -> Seq<EventView> {
    Seq::new(events.len(), |i: int| events[i]@)
}

/// What each action of a list says.
pub open spec fn actions_view(actions: Seq<DockerAction>) -> Seq<ActionView> {
    Seq::new(actions.len(), |i: int| actions[i]@)
}

} // verus!
