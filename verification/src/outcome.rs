//! The outcome of an upload: stored, or the first failure met, tagged by
//! where it came from.

use vstd::prelude::*;
use vstd::string::*;

verus! {

/// Why an upload failed. The cause is kept as the text that describes it.
#[derive(Debug, PartialEq, Eq)]
pub enum UploadError {
    /// The request path holds no destination name.
    Path,
    /// Opening the destination or writing to it failed.
    Storage(String),
    /// The body stream failed before it ended.
    Stream(String),
}

/// What an [`UploadError`] stands for in contracts.
pub enum UploadErrorView {
    Path,
    Storage(Seq<char>),
    Stream(Seq<char>),
}

impl View for UploadError {
    type V = UploadErrorView;

    open spec fn view(&self) -> UploadErrorView {
        match self {
            UploadError::Path => UploadErrorView::Path,
            UploadError::Storage(cause) => UploadErrorView::Storage(cause@),
            UploadError::Stream(cause) => UploadErrorView::Stream(cause@),
        }
    }
}

/// What a bridge task reports when it is done.
pub type Outcome = Result<(), UploadError>;

/// What an [`Outcome`] stands for in contracts.
pub type OutcomeView = Result<(), UploadErrorView>;

/// The view of an outcome.
pub open spec fn outcome_view(outcome: Outcome) -> OutcomeView {
    match outcome {
        Ok(_) => Ok(()),
        Err(error) => Err(error@),
    }
}

/// The text that describes a failure: its tag, and its cause in brackets
/// where it has one.
pub open spec fn description(error: UploadErrorView) -> Seq<char> {
    match error {
        UploadErrorView::Path => "PathError"@,
        UploadErrorView::Storage(cause) => "StorageError("@ + cause + ")"@,
        UploadErrorView::Stream(cause) => "StreamError("@ + cause + ")"@,
    }
}

impl UploadError {
    /// Describes the failure, tag and cause, for a human reader.
    pub fn describe(&self) -> (text: String)
        ensures
            text@ == description(self@),
    {
        match self {
            UploadError::Path => String::from_str("PathError"),
            UploadError::Storage(cause) => {
                let mut text = String::from_str("StorageError(");
                text.append(cause.as_str());
                text.append(")");
                text
            },
            UploadError::Stream(cause) => {
                let mut text = String::from_str("StreamError(");
                text.append(cause.as_str());
                text.append(")");
                text
            },
        }
    }
}

} // verus!
