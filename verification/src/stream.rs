//! How the answer of an invocation is framed for a host: as a stream of
//! events, and as an error record.

use crate::failure::{InvokeFailure, InvokeFailureView};
use crate::views::result_view;
use vstd::prelude::*;

verus! {

/// One event of a streamed answer.
#[derive(Debug)]
pub enum StreamEvent {
    /// How far the work has come, in percent.
    Progress(u8),
    /// The JSON text of the result.
    Data(String),
    /// The end of the stream.
    Done,
    /// The message of the failure that ended the invocation.
    Error(String),
}

/// A [`StreamEvent`] as plain values.
pub enum StreamEventView {
    Progress(u8),
    Data(Seq<char>),
    Done,
    Error(Seq<char>),
}

impl View for StreamEvent {
    type V = StreamEventView;

    open spec fn view(&self) -> StreamEventView {
        match self {
            StreamEvent::Progress(percent) => StreamEventView::Progress(*percent),
            StreamEvent::Data(text) => StreamEventView::Data(text@),
            StreamEvent::Done => StreamEventView::Done,
            StreamEvent::Error(message) => StreamEventView::Error(message@),
        }
    }
}

/// The events of an answer: progress at nought, the result and the end; or
/// the one error.
pub open spec fn events_of(answer: Result<Seq<char>, InvokeFailureView>) -> Seq<StreamEventView> {
    match answer {
        Ok(text) => seq![
            StreamEventView::Progress(0),
            StreamEventView::Data(text),
            StreamEventView::Done,
        ],
        Err(failure) => seq![StreamEventView::Error(failure.message())],
    }
}

/// The views of a list of events.
pub open spec fn events_view(events: Seq<StreamEvent>) -> Seq<StreamEventView> {
    Seq::new(events.len(), |i: int| events[i]@)
}

/// Frames an answer as a stream of events.
pub fn stream_events(answer: Result<String, InvokeFailure>) -> (events: Vec<StreamEvent>)
    ensures
        events_view(events@) == events_of(result_view(answer)),
{
    let mut events: Vec<StreamEvent> = Vec::new();
    match answer {
        Ok(text) => {
            events.push(StreamEvent::Progress(0));
            events.push(StreamEvent::Data(text));
            events.push(StreamEvent::Done);
        },
        Err(failure) => {
            events.push(StreamEvent::Error(failure.message()));
        },
    }
    events
}

/// A failure as a host records it.
#[derive(Debug)]
pub struct NodeError {
    /// The code of the error.
    pub code: String,
    /// The message of the failure.
    pub message: String,
    /// Whether the host may try again; never.
    pub retryable: bool,
    /// How long the host is to wait before it tries again.
    pub backoff_ms: Option<u64>,
    /// More about the error.
    pub details: Option<String>,
}

/// Records a failure under `code`: with its message, not to be tried again.
pub fn to_node_error(code: &str, failure: &InvokeFailure) -> (error: NodeError)
    ensures
        error.code@ == code@,
        error.message@ == failure@.message(),
        !error.retryable,
        error.backoff_ms is None,
        error.details is None,
{
    NodeError {
        code: code.to_owned(),
        message: failure.message(),
        retryable: false,
        backoff_ms: None,
        details: None,
    }
}

} // verus!
