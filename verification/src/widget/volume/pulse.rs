//! The volume of the default PulseAudio sink.

use crate::format::Format;
use crate::widget::base::{Refresh, Snapshot};
use crossbeam_channel::Sender;
use vstd::prelude::*;

verus! {

/// How one iteration of the audio client's main loop ended.
#[derive(Clone, Copy, Debug, PartialEq, Eq, Structural)]
pub enum Iteration {
    /// Events were dispatched, or none were pending.
    Success,
    /// The loop was asked to quit.
    Quit,
    /// The loop failed.
    Failed,
}

/// The state of the connection to the audio server.
#[derive(Clone, Copy, Debug, PartialEq, Eq, Structural)]
pub enum Connection {
    /// Not connected yet.
    Unconnected,
    /// A connection is being established.
    Connecting,
    /// The client is authorizing itself.
    Authorizing,
    /// The client is passing its name.
    SettingName,
    /// The connection is established.
    Ready,
    /// The connection failed or was cut.
    Failed,
    /// The connection was closed cleanly.
    Terminated,
}

/// What the watcher does next while it waits for the connection.
#[derive(Clone, Copy, Debug, PartialEq, Eq, Structural)]
pub enum Startup {
    /// Iterate the main loop once more.
    Wait,
    /// Subscribe to the sink's events.
    Proceed,
    /// End the watcher: the widget keeps its value and sends no token.
    GiveUp,
}

/// Decides, after one iteration of the main loop, how the watcher goes on. It
/// proceeds once the connection is ready and gives up when the loop ended or
/// the connection is lost; until then it waits.
pub fn startup(iteration: Iteration, state: Connection) -> (next: Startup)
    ensures
        next == Startup::Proceed <==> iteration == Iteration::Success && state == Connection::Ready,
        next == Startup::GiveUp <==> iteration != Iteration::Success || state == Connection::Failed
            || state == Connection::Terminated,
{
    match iteration {
        Iteration::Quit | Iteration::Failed => Startup::GiveUp,
        Iteration::Success => match state {
            Connection::Ready => Startup::Proceed,
            Connection::Failed | Connection::Terminated => Startup::GiveUp,
            _ => Startup::Wait,
        },
    }
}

/// The value shown for the volume. It is empty until the audio server has
/// reported the sink for the first time.
pub struct Pulse {
    last_value: Snapshot,
}

impl Pulse {
    /// The cell that holds the value.
    pub closed spec fn cell(&self) -> Snapshot {
        self.last_value
    }

    /// A backend that shows nothing yet and may come to show any value.
    pub fn new() -> (backend: Pulse)
        ensures
            forall|value: Format| backend.cell().admits(value),
    {
        Pulse { last_value: Snapshot::new(Format::Str(String::new())) }
    }

    /// The value for the latest report of the sink.
    pub fn current_value(&self) -> (value: Format)
        ensures
            self.cell().admits(value),
    {
        self.last_value.load()
    }

    /// Another handle to the same backend, for its watcher.
    pub fn share(&self) -> (other: Self)
        ensures
            other == *self,
    {
        Pulse { last_value: self.last_value.share() }
    }

    /// What the watcher does with an answer of the audio server: `report` is
    /// the value for the sink that the answer described, if it described one.
    /// Only then is the value shown replaced and a token sent on `tx`.
    pub fn report(&self, report: Option<Format>, tx: &Sender<()>) -> (outcome: Refresh)
        requires
            report matches Some(value) ==> self.cell().admits(value),
        ensures
            outcome == Refresh::Skipped <==> report.is_none(),
    {
        self.last_value.publish(report, tx)
    }
}

} // verus!
