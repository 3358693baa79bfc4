//! The notification listener: what it does next, given where it stands and
//! what happened. The task that owns the connection performs each action and
//! reports back the event that followed.
//!
//! | state        | event               | next state   | action     |
//! |--------------|---------------------|--------------|------------|
//! | any          | `Shutdown`          | Disconnected | `Stop`     |
//! | Disconnected | `Start`             | Subscribed   | `Open`     |
//! | Subscribed   | `Opened`            | Receiving    | `Receive`  |
//! | Subscribed   | `StreamFailed`      | Subscribed   | `Backoff`  |
//! | Subscribed   | `Waited`            | Subscribed   | `Open`     |
//! | Receiving    | `Notified(Job(id))` | Receiving    | `Fetch(id)`|
//! | Receiving    | `Notified(Other)`   | Receiving    | `Receive`  |
//! | Receiving    | `StreamFailed`      | Subscribed   | `Backoff`  |
//!
//! Any other pair leaves the state as it is and asks for nothing.

use vstd::prelude::*;
use crate::job::{LinkView, WireLink, WireForm, decode_link, decoded_link};
use crate::snapshot::Snapshot;

verus! {

/// Where the listener stands.
#[derive(Clone, Copy, Debug, PartialEq, Eq, Structural)]
pub enum ListenerState {
    /// Not started yet, or shut down for good.
    Disconnected,
    /// About to open the notification stream, or waiting to open it again.
    Subscribed,
    /// The stream is open.
    Receiving,
}

/// What a notification says, as far as the listener cares.
#[derive(Debug, PartialEq, Eq)]
pub enum Notice {
    /// Something happened to the job with this identifier.
    Job(String),
    /// Any other notification.
    Other,
}

/// What happened.
#[derive(Debug, PartialEq, Eq)]
pub enum ListenerEvent {
    /// The listener was started.
    Start,
    /// The notification stream was opened.
    Opened,
    /// A notification arrived.
    Notified(Notice),
    /// The stream failed, or could not be opened.
    StreamFailed,
    /// The backoff interval has passed.
    Waited,
    /// The connection to the download manager was shut down.
    Shutdown,
}

/// What to do next.
#[derive(Debug, PartialEq, Eq)]
pub enum ListenerAction {
    /// Open the notification stream, then report `Opened` or `StreamFailed`.
    Open,
    /// Wait for the next notification, then report it, or `StreamFailed`.
    Receive,
    /// Query the status of this job, apply the answer with `point_update`,
    /// propose the result, and go on as for `Receive`.
    Fetch(String),
    /// Note the failure, wait the backoff interval, then report `Waited`.
    Backoff,
    /// End the task.
    Stop,
    /// The event does not belong to the state: nothing to do.
    Nothing,
}

/// The transition table.
pub open spec fn stepped(state: ListenerState, event: ListenerEvent) -> (
    ListenerState,
    ListenerAction,
) {
    match (state, event) {
        (_, ListenerEvent::Shutdown) => (ListenerState::Disconnected, ListenerAction::Stop),
        (ListenerState::Disconnected, ListenerEvent::Start) => (
            ListenerState::Subscribed,
            ListenerAction::Open,
        ),
        (ListenerState::Subscribed, ListenerEvent::Opened) => (
            ListenerState::Receiving,
            ListenerAction::Receive,
        ),
        (ListenerState::Subscribed, ListenerEvent::StreamFailed) => (
            ListenerState::Subscribed,
            ListenerAction::Backoff,
        ),
        (ListenerState::Subscribed, ListenerEvent::Waited) => (
            ListenerState::Subscribed,
            ListenerAction::Open,
        ),
        (ListenerState::Receiving, ListenerEvent::Notified(Notice::Job(gid))) => (
            ListenerState::Receiving,
            ListenerAction::Fetch(gid),
        ),
        (ListenerState::Receiving, ListenerEvent::Notified(Notice::Other)) => (
            ListenerState::Receiving,
            ListenerAction::Receive,
        ),
        (ListenerState::Receiving, ListenerEvent::StreamFailed) => (
            ListenerState::Subscribed,
            ListenerAction::Backoff,
        ),
        (s, _) => (s, ListenerAction::Nothing),
    }
}

/// One step of the listener.
pub fn step(state: ListenerState, event: ListenerEvent) -> (r: (ListenerState, ListenerAction))
    ensures
        r == stepped(state, event),
{
    match event {
        ListenerEvent::Shutdown => (ListenerState::Disconnected, ListenerAction::Stop),
        ListenerEvent::Start => match state {
            ListenerState::Disconnected => (ListenerState::Subscribed, ListenerAction::Open),
            _ => (state, ListenerAction::Nothing),
        },
        ListenerEvent::Opened => match state {
            ListenerState::Subscribed => (ListenerState::Receiving, ListenerAction::Receive),
            _ => (state, ListenerAction::Nothing),
        },
        ListenerEvent::StreamFailed => match state {
            ListenerState::Disconnected => (state, ListenerAction::Nothing),
            _ => (ListenerState::Subscribed, ListenerAction::Backoff),
        },
        ListenerEvent::Waited => match state {
            ListenerState::Subscribed => (ListenerState::Subscribed, ListenerAction::Open),
            _ => (state, ListenerAction::Nothing),
        },
        ListenerEvent::Notified(notice) => match state {
            ListenerState::Receiving => match notice {
                Notice::Job(gid) => (ListenerState::Receiving, ListenerAction::Fetch(gid)),
                Notice::Other => (ListenerState::Receiving, ListenerAction::Receive),
            },
            _ => (state, ListenerAction::Nothing),
        },
    }
}

/// A failure of the stream never ends the listener: only a shutdown asks it to
/// stop, and a shutdown always does.
pub proof fn lemma_only_shutdown_stops(state: ListenerState, event: ListenerEvent)
    ensures
        stepped(state, event).1 is Stop <==> event is Shutdown,
        event is Shutdown ==> stepped(state, event).0 == ListenerState::Disconnected,
{
}

/// The snapshot after a targeted status query for the job `gid`. An answer
/// that decodes and is about that job replaces the job's record; a query that
/// failed (`None`), an answer that is malformed, and one about another job
/// take the job out.
pub open spec fn point_updated(
    m: Map<Seq<char>, LinkView>,
    gid: Seq<char>,
    fetched: Option<WireForm>,
) -> Map<Seq<char>, LinkView> {
    match fetched {
        Some(w) => match decoded_link(w) {
            Ok(l) => if l.gid == gid {
                m.insert(gid, l)
            } else {
                m.remove(gid)
            },
            Err(_) => m.remove(gid),
        },
        None => m.remove(gid),
    }
}

/// The wire record behind an optional reference, as plain values.
pub open spec fn fetched_view(fetched: Option<&WireLink>) -> Option<WireForm> {
    match fetched {
        Some(w) => Some(w@),
        None => None,
    }
}

/// Applies the answer of a targeted status query to a snapshot. Every job but
/// `gid` stays as it is.
pub fn point_update(snapshot: &Snapshot, gid: &String, fetched: Option<&WireLink>) -> (r: Snapshot)
    ensures
        r@ == point_updated(snapshot@, gid@, fetched_view(fetched)),
        forall|g: Seq<char>|
            g != gid@ ==> (r@.contains_key(g) <==> snapshot@.contains_key(g)) && (
            snapshot@.contains_key(g) ==> r@[g] == snapshot@[g]),
{
    match fetched {
        Some(w) => match decode_link(w) {
            Ok(l) => {
                if l.gid == *gid {
                    snapshot.with_record(l)
                } else {
                    snapshot.without(gid)
                }
            },
            Err(_) => snapshot.without(gid),
        },
        None => snapshot.without(gid),
    }
}

} // verus!
