//! The bridge task: what it does next, given what has just happened.
//!
//! The task opens the destination, then pulls the body stream chunk by
//! chunk, writing each chunk before it asks for the next. The first failure
//! of the stream or of the storage ends the consumption. The task then
//! sends its outcome on the completion signal, once, and is over.
//!
//! The task itself touches nothing. It hands out an [`Action`] for its
//! caller to perform and takes back the [`Event`] that came of it.

use crate::destination::{destination_name, destination_of};
use crate::outcome::{outcome_view, Outcome, OutcomeView, UploadError, UploadErrorView};
use vstd::prelude::*;

verus! {

/// Where a bridge task stands.
#[derive(Clone, Copy, Debug, PartialEq, Eq, Structural)]
pub enum Phase {
    /// Waiting for the destination to be opened.
    Opening,
    /// The destination is open; waiting for the next item of the stream.
    Pulling,
    /// Waiting for a chunk to be written.
    Writing,
    /// The outcome is known; waiting for it to be sent.
    Reporting,
    /// The outcome was delivered. Terminal.
    Finished,
    /// The outcome could not be delivered. Terminal.
    Aborted,
}

/// What came of the last action.
#[derive(Debug, PartialEq, Eq)]
pub enum Event {
    /// The destination is open and empty.
    Opened,
    /// The destination could not be opened.
    OpenFailed(String),
    /// The stream delivered a chunk.
    Chunk(Vec<u8>),
    /// The stream ended.
    EndOfStream,
    /// The stream failed.
    StreamFailed(String),
    /// The chunk was written in full.
    Written,
    /// The chunk could not be written in full.
    WriteFailed(String),
    /// The outcome was handed to the signal.
    Delivered,
    /// Nobody listens to the signal any more; the outcome came back.
    Undelivered(Outcome),
}

/// What the caller is to do next.
#[derive(Debug, PartialEq, Eq)]
pub enum Action {
    /// Create the destination of this name, or empty it if it exists.
    Open(String),
    /// Ask the stream for its next item.
    Pull,
    /// Write these bytes to the destination, all of them.
    Write(Vec<u8>),
    /// Send this outcome on the completion signal.
    Send(Outcome),
    /// Release the destination; the task is over.
    Finish,
    /// Release the destination and end the task as failed: this outcome
    /// reached nobody.
    Abort(Outcome),
}

/// What an [`Event`] stands for in contracts.
pub enum EventView {
    Opened,
    OpenFailed(Seq<char>),
    Chunk(Seq<u8>),
    EndOfStream,
    StreamFailed(Seq<char>),
    Written,
    WriteFailed(Seq<char>),
    Delivered,
    Undelivered(OutcomeView),
}

/// What an [`Action`] stands for in contracts.
pub enum ActionView {
    Open(Seq<char>),
    Pull,
    Write(Seq<u8>),
    Send(OutcomeView),
    Finish,
    Abort(OutcomeView),
}

impl View for Event {
    type V = EventView;

    open spec fn view(&self) -> EventView {
        match self {
            Event::Opened => EventView::Opened,
            Event::OpenFailed(cause) => EventView::OpenFailed(cause@),
            Event::Chunk(bytes) => EventView::Chunk(bytes@),
            Event::EndOfStream => EventView::EndOfStream,
            Event::StreamFailed(cause) => EventView::StreamFailed(cause@),
            Event::Written => EventView::Written,
            Event::WriteFailed(cause) => EventView::WriteFailed(cause@),
            Event::Delivered => EventView::Delivered,
            Event::Undelivered(outcome) => EventView::Undelivered(outcome_view(*outcome)),
        }
    }
}

impl View for Action {
    type V = ActionView;

    open spec fn view(&self) -> ActionView {
        match self {
            Action::Open(name) => ActionView::Open(name@),
            Action::Pull => ActionView::Pull,
            Action::Write(bytes) => ActionView::Write(bytes@),
            Action::Send(outcome) => ActionView::Send(outcome_view(*outcome)),
            Action::Finish => ActionView::Finish,
            Action::Abort(outcome) => ActionView::Abort(outcome_view(*outcome)),
        }
    }
}

/// Whether a task in this phase is over.
pub open spec fn is_terminal(phase: Phase) -> bool {
    phase == Phase::Finished || phase == Phase::Aborted
}

/// How a task begins on a request path: by opening the destination that the
/// path names, or, where it names none, by reporting that.
pub open spec fn start(path: Seq<char>) -> (Phase, ActionView) {
    match destination_of(path) {
        Some(name) => (Phase::Opening, ActionView::Open(name)),
        None => (Phase::Reporting, ActionView::Send(Err(UploadErrorView::Path))),
    }
}

/// The phase that a task in `phase` goes to on `event`, and the action that
/// it asks for; `None` where the phase does not wait for such an event.
pub open spec fn transition(phase: Phase, event: EventView) -> Option<(Phase, ActionView)> {
    match (phase, event) {
        (Phase::Opening, EventView::Opened) => Some((Phase::Pulling, ActionView::Pull)),
        (Phase::Opening, EventView::OpenFailed(cause)) => Some(
            (Phase::Reporting, ActionView::Send(Err(UploadErrorView::Storage(cause)))),
        ),
        (Phase::Pulling, EventView::Chunk(bytes)) => Some(
            (Phase::Writing, ActionView::Write(bytes)),
        ),
        (Phase::Pulling, EventView::EndOfStream) => Some(
            (Phase::Reporting, ActionView::Send(Ok(()))),
        ),
        (Phase::Pulling, EventView::StreamFailed(cause)) => Some(
            (Phase::Reporting, ActionView::Send(Err(UploadErrorView::Stream(cause)))),
        ),
        (Phase::Writing, EventView::Written) => Some((Phase::Pulling, ActionView::Pull)),
        (Phase::Writing, EventView::WriteFailed(cause)) => Some(
            (Phase::Reporting, ActionView::Send(Err(UploadErrorView::Storage(cause)))),
        ),
        (Phase::Reporting, EventView::Delivered) => Some((Phase::Finished, ActionView::Finish)),
        (Phase::Reporting, EventView::Undelivered(outcome)) => Some(
            (Phase::Aborted, ActionView::Abort(outcome)),
        ),
        _ => None,
    }
}

/// A task that is over takes no event: nothing leads back from the end.
pub proof fn a_finished_task_takes_no_event(phase: Phase, event: EventView)
    requires
        is_terminal(phase),
    ensures
        transition(phase, event) is None,
{
}

/// A task that has its outcome only ends: once a failure or the end of the
/// stream is met, nothing more is pulled and nothing more is written.
pub proof fn a_reporting_task_only_ends(event: EventView)
    ensures
        transition(Phase::Reporting, event) matches Some((next, action)) ==> is_terminal(next)
            && (action is Finish || action is Abort),
{
}

/// An outcome is sent on the step that makes the task a reporting one, and
/// on no other; and a reporting task never becomes one again. So a task
/// sends one outcome at most.
pub proof fn an_outcome_is_sent_once(phase: Phase, event: EventView)
    ensures
        transition(phase, event) matches Some((next, action)) ==> (action is Send <==> next
            == Phase::Reporting),
        transition(phase, event) matches Some((next, action)) ==> !(phase == Phase::Reporting
            && next == Phase::Reporting),
{
}

/// A bridge task.
#[derive(Debug)]
pub struct Bridge {
    phase: Phase,
}

impl Bridge {
    /// Where the task stands.
    pub closed spec fn phase_of(&self) -> Phase {
        self.phase
    }

    /// Begins a task for the request path, and says what to do first.
    pub fn start(path: &str) -> (begun: (Bridge, Action))
        ensures
            (begun.0.phase_of(), begun.1@) == start(path@),
    {
        match destination_name(path) {
            Some(name) => (Bridge { phase: Phase::Opening }, Action::Open(name)),
            None => (Bridge { phase: Phase::Reporting }, Action::Send(Err(UploadError::Path))),
        }
    }

    /// Where the task stands.
    pub fn phase(&self) -> (phase: Phase)
        ensures
            phase == self.phase_of(),
    {
        self.phase
    }

    /// Whether the task is over.
    pub fn is_over(&self) -> (over: bool)
        ensures
            over == is_terminal(self.phase_of()),
    {
        match self.phase {
            Phase::Finished => true,
            Phase::Aborted => true,
            _ => false,
        }
    }

    /// Takes what came of the last action and says what to do next. An event
    /// that the task does not wait for is refused with `None`, and the task
    /// stays as it was.
    pub fn step(&mut self, event: Event) -> (action: Option<Action>)
        ensures
            match transition(old(self).phase_of(), event@) {
                Some((phase, expected)) => final(self).phase_of() == phase && (
                action matches Some(found) && found@ == expected),
                None => final(self).phase_of() == old(self).phase_of() && action is None,
            },
    {
        match (self.phase, event) {
            (Phase::Opening, Event::Opened) => {
                self.phase = Phase::Pulling;
                Some(Action::Pull)
            },
            (Phase::Opening, Event::OpenFailed(cause)) => {
                self.phase = Phase::Reporting;
                Some(Action::Send(Err(UploadError::Storage(cause))))
            },
            (Phase::Pulling, Event::Chunk(bytes)) => {
                self.phase = Phase::Writing;
                Some(Action::Write(bytes))
            },
            (Phase::Pulling, Event::EndOfStream) => {
                self.phase = Phase::Reporting;
                Some(Action::Send(Ok(())))
            },
            (Phase::Pulling, Event::StreamFailed(cause)) => {
                self.phase = Phase::Reporting;
                Some(Action::Send(Err(UploadError::Stream(cause))))
            },
            (Phase::Writing, Event::Written) => {
                self.phase = Phase::Pulling;
                Some(Action::Pull)
            },
            (Phase::Writing, Event::WriteFailed(cause)) => {
                self.phase = Phase::Reporting;
                Some(Action::Send(Err(UploadError::Storage(cause))))
            },
            (Phase::Reporting, Event::Delivered) => {
                self.phase = Phase::Finished;
                Some(Action::Finish)
            },
            (Phase::Reporting, Event::Undelivered(outcome)) => {
                self.phase = Phase::Aborted;
                Some(Action::Abort(outcome))
            },
            _ => None,
        }
    }
}

} // verus!
