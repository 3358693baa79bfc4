//! The mutation gateway: adding and removing jobs on behalf of a viewer.
//!
//! A request is carried out as a short run of calls to the download manager.
//! `start` gives the first call; `advance` takes the answer to the call in
//! flight and gives the next call, or the end of the request: its outcome and,
//! where the snapshot is to change, the snapshot to propose.
//!
//! Adding: the add call, then a status query for the new job, whose answer is
//! filed in the snapshot. A failed add ends the request with the error as it
//! came and proposes nothing.
//!
//! Removing: first the job's entry among the results is cleared, and a failure
//! of that call is passed over; then the job is removed by force, and a failure
//! of that call is the outcome. A removal proposes nothing: the job leaves the
//! snapshot when the download manager no longer reports it.

use vstd::prelude::*;
use crate::job::{LinkView, WireLink, WireForm};
use crate::listener::{point_update, point_updated};
use crate::snapshot::Snapshot;

verus! {

/// What a viewer asks for.
#[derive(Debug, PartialEq, Eq)]
pub enum Request {
    /// Download what this link points to.
    AddUri(String),
    /// Download this torrent, given as the content of the torrent file.
    AddTorrent(String),
    /// Remove the job with this identifier.
    Remove(String),
}

/// A call to the download manager.
#[derive(Debug, PartialEq, Eq)]
pub enum Call {
    AddUri(String),
    AddTorrent(String),
    TellStatus(String),
    RemoveDownloadResult(String),
    ForceRemove(String),
}

/// The call that is in flight.
#[derive(Debug, PartialEq, Eq)]
pub enum Stage {
    /// An add call.
    Adding,
    /// The status query for the job that was added.
    Fetching(String),
    /// Clearing the job's entry among the results.
    Clearing(String),
    /// Removing the job by force.
    Removing(String),
}

/// What a call that succeeded returned.
#[derive(Debug)]
pub enum Reply {
    /// The identifier of a new job.
    Gid(String),
    /// The wire record of a job.
    Status(WireLink),
    /// Nothing but success.
    Done,
}

/// Why a request failed.
#[derive(Debug, PartialEq, Eq)]
pub enum MutationError {
    /// The download manager refused the call; the text is its own.
    Upstream(String),
    /// The add call succeeded but did not return an identifier.
    UnexpectedReply,
}

/// How a request ended.
#[derive(Debug, PartialEq, Eq)]
pub enum Outcome {
    /// The job was added under this identifier.
    Added(String),
    /// The job was removed.
    Removed,
    /// The request failed.
    Failed(MutationError),
}

/// What follows an answer.
#[derive(Debug)]
pub enum Step {
    /// Make this call next; it is then the call in flight.
    Call(Call, Stage),
    /// The request is over, with this outcome and this snapshot to propose.
    Finished(Outcome, Option<Snapshot>),
}

/// A `Step` with its snapshot as plain values.
pub ghost enum StepView {
    Call(Call, Stage),
    Finished(Outcome, Option<Map<Seq<char>, LinkView>>),
}

impl View for Step {
    type V = StepView;

    open spec fn view(&self) -> StepView {
        match self {
            Step::Call(c, s) => StepView::Call(*c, *s),
            Step::Finished(o, p) => StepView::Finished(
                *o,
                match p {
                    Some(s) => Some(s@),
                    None => None,
                },
            ),
        }
    }
}

/// The first call of a request, and the stage it opens.
pub open spec fn started(request: Request) -> (Call, Stage) {
    match request {
        Request::AddUri(uri) => (Call::AddUri(uri), Stage::Adding),
        Request::AddTorrent(torrent) => (Call::AddTorrent(torrent), Stage::Adding),
        Request::Remove(gid) => (Call::RemoveDownloadResult(gid), Stage::Clearing(gid)),
    }
}

/// The wire record in an answer to a status query, if there is one.
pub open spec fn status_of(reply: Result<Reply, String>) -> Option<WireForm> {
    match reply {
        Ok(Reply::Status(w)) => Some(w@),
        _ => None,
    }
}

/// What follows the answer `reply` to the call in flight, with `m` the current
/// snapshot.
pub open spec fn advanced(stage: Stage, reply: Result<Reply, String>, m: Map<Seq<char>, LinkView>)
    -> StepView {
    match stage {
        Stage::Adding => match reply {
            Ok(Reply::Gid(gid)) => StepView::Call(Call::TellStatus(gid), Stage::Fetching(gid)),
            Ok(_) => StepView::Finished(Outcome::Failed(MutationError::UnexpectedReply), None),
            Err(e) => StepView::Finished(Outcome::Failed(MutationError::Upstream(e)), None),
        },
        Stage::Fetching(gid) => StepView::Finished(
            Outcome::Added(gid),
            Some(point_updated(m, gid@, status_of(reply))),
        ),
        Stage::Clearing(gid) => StepView::Call(Call::ForceRemove(gid), Stage::Removing(gid)),
        Stage::Removing(gid) => match reply {
            Ok(_) => StepView::Finished(Outcome::Removed, None),
            Err(e) => StepView::Finished(Outcome::Failed(MutationError::Upstream(e)), None),
        },
    }
}

/// Starts a request.
pub fn start(request: Request) -> (r: (Call, Stage))
    ensures
        r == started(request),
{
    match request {
        Request::AddUri(uri) => (Call::AddUri(uri), Stage::Adding),
        Request::AddTorrent(torrent) => (Call::AddTorrent(torrent), Stage::Adding),
        Request::Remove(gid) => {
            let again = gid.clone();
            (Call::RemoveDownloadResult(again), Stage::Clearing(gid))
        },
    }
}

/// Takes the answer to the call in flight: `Ok` with what the call returned,
/// or `Err` with the download manager's own words.
pub fn advance(stage: Stage, reply: Result<Reply, String>, snapshot: &Snapshot) -> (r: Step)
    ensures
        r@ == advanced(stage, reply, snapshot@),
{
    match stage {
        Stage::Adding => match reply {
            Ok(Reply::Gid(gid)) => {
                let again = gid.clone();
                Step::Call(Call::TellStatus(again), Stage::Fetching(gid))
            },
            Ok(_) => Step::Finished(Outcome::Failed(MutationError::UnexpectedReply), None),
            Err(e) => Step::Finished(Outcome::Failed(MutationError::Upstream(e)), None),
        },
        Stage::Fetching(gid) => {
            let next = match &reply {
                Ok(Reply::Status(w)) => point_update(snapshot, &gid, Some(w)),
                _ => point_update(snapshot, &gid, None),
            };
            Step::Finished(Outcome::Added(gid), Some(next))
        },
        Stage::Clearing(gid) => {
            let again = gid.clone();
            Step::Call(Call::ForceRemove(again), Stage::Removing(gid))
        },
        Stage::Removing(_) => match reply {
            Ok(_) => Step::Finished(Outcome::Removed, None),
            Err(e) => Step::Finished(Outcome::Failed(MutationError::Upstream(e)), None),
        },
    }
}

/// A request changes the snapshot only by filing the answer for the job it
/// added: a failed request and a removal propose nothing, and the proposal of
/// an add leaves every other job as it was.
pub proof fn lemma_mutation_is_local(
    stage: Stage,
    reply: Result<Reply, String>,
    m: Map<Seq<char>, LinkView>,
)
    ensures
        match advanced(stage, reply, m) {
            StepView::Call(_, _) => true,
            StepView::Finished(outcome, proposal) => match proposal {
                None => !(outcome is Added),
                Some(p) => stage is Fetching && outcome == Outcome::Added(stage->Fetching_0)
                    && forall|g: Seq<char>|
                    g != stage->Fetching_0@ ==> (p.contains_key(g) <==> m.contains_key(g)) && (
                    m.contains_key(g) ==> p[g] == m[g]),
            },
        },
{
}

} // verus!
