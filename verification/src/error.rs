//! The failure taxonomy of a transcription attempt. Every kind carries a
//! human-readable description; `message` renders the one line an operator
//! sees for it.
use vstd::prelude::*;
use vstd::string::StringExecFns;

verus! {

/// Why a transcription attempt failed.
#[derive(Debug, Clone)]
pub enum TranscriptionError {
    /// A configuration field lies outside its fixed enumeration; detected at
    /// validation.
    InvalidConfiguration(String),
    /// The audio file is missing, or its path is not representable.
    InvalidPath(String),
    /// The path carries no extension, or one outside the recognized set.
    UnsupportedFormat(String),
    /// The external collaborator could not construct or load a model; this
    /// covers a missing dependency and a load failure alike, distinguished
    /// only by the description.
    ModelInitError(String),
    /// The collaborator's transcription call itself failed, after the model
    /// initialized.
    TranscriptionFailed(String),
}

/// Mathematical image of a `TranscriptionError`.
pub enum TranscriptionErrorView {
    InvalidConfiguration(Seq<char>),
    InvalidPath(Seq<char>),
    UnsupportedFormat(Seq<char>),
    ModelInitError(Seq<char>),
    TranscriptionFailed(Seq<char>),
}

impl View for TranscriptionError {
    type V = TranscriptionErrorView;

    open spec fn view(&self) -> TranscriptionErrorView {
        match self {
            TranscriptionError::InvalidConfiguration(m) => TranscriptionErrorView::InvalidConfiguration(
                m@,
            ),
            TranscriptionError::InvalidPath(m) => TranscriptionErrorView::InvalidPath(m@),
            TranscriptionError::UnsupportedFormat(m) => TranscriptionErrorView::UnsupportedFormat(
                m@,
            ),
            TranscriptionError::ModelInitError(m) => TranscriptionErrorView::ModelInitError(m@),
            TranscriptionError::TranscriptionFailed(m) => TranscriptionErrorView::TranscriptionFailed(
                m@,
            ),
        }
    }
}

impl DeepView for TranscriptionError {
    type V = TranscriptionErrorView;

    open spec fn deep_view(&self) -> TranscriptionErrorView {
        self.view()
    }
}

/// The one-line description of an error: a fixed prefix naming the kind,
/// followed by the carried description.
pub open spec fn error_message(e: TranscriptionErrorView) -> Seq<char> {
    match e {
        TranscriptionErrorView::InvalidConfiguration(m) => "Invalid configuration: "@ + m,
        TranscriptionErrorView::InvalidPath(m) => "Invalid file path: "@ + m,
        TranscriptionErrorView::UnsupportedFormat(m) => "Unsupported audio format: "@ + m,
        TranscriptionErrorView::ModelInitError(m) => "Model initialization failed: "@ + m,
        TranscriptionErrorView::TranscriptionFailed(m) => "Transcription failed: "@ + m,
    }
}

impl TranscriptionError {
    /// Renders the error as its one-line description.
    pub fn message(&self) -> (r: String)
        ensures
            r@ == error_message(self@),
    {
        match self {
            TranscriptionError::InvalidConfiguration(m) => {
                let mut s = String::from_str("Invalid configuration: ");
                s.append(m.as_str());
                s
            },
            TranscriptionError::InvalidPath(m) => {
                let mut s = String::from_str("Invalid file path: ");
                s.append(m.as_str());
                s
            },
            TranscriptionError::UnsupportedFormat(m) => {
                let mut s = String::from_str("Unsupported audio format: ");
                s.append(m.as_str());
                s
            },
            TranscriptionError::ModelInitError(m) => {
                let mut s = String::from_str("Model initialization failed: ");
                s.append(m.as_str());
                s
            },
            TranscriptionError::TranscriptionFailed(m) => {
                let mut s = String::from_str("Transcription failed: ");
                s.append(m.as_str());
                s
            },
        }
    }
}

} // verus!
