//! Failures of the document engine and of the service around it.

use crate::decimal::{decimal, push_decimal};
use vstd::prelude::*;

verus! {

/// A failure of one operation on a document.
#[derive(Debug, Clone, PartialEq, Eq)]
pub enum PdfParseError {
    /// The document could not be loaded, or is not loaded.
    LoadError(String),
    /// The document has no page with this index.
    PageOutOfRange(usize),
    /// The page could not be rendered or read.
    RenderError(String),
}

/// The mathematical content of a [`PdfParseError`].
pub enum PdfParseErrorView {
    LoadError(Seq<char>),
    PageOutOfRange(usize),
    RenderError(Seq<char>),
}

impl View for PdfParseError {
    type V = PdfParseErrorView;

    open spec fn view(&self) -> PdfParseErrorView {
        match self {
            PdfParseError::LoadError(reason) => PdfParseErrorView::LoadError(reason@),
            PdfParseError::PageOutOfRange(page) => PdfParseErrorView::PageOutOfRange(*page),
            PdfParseError::RenderError(reason) => PdfParseErrorView::RenderError(reason@),
        }
    }
}

impl PdfParseErrorView {
    /// The text that describes the failure.
    pub open spec fn message(self) -> Seq<char> {
        match self {
            PdfParseErrorView::LoadError(reason) => "Failed to load PDF: "@ + reason,
            PdfParseErrorView::PageOutOfRange(page) => "Page "@ + decimal(page as nat)
                + " is out of range"@,
            PdfParseErrorView::RenderError(reason) => "Failed to render page: "@ + reason,
        }
    }
}

/// The failure reported for an operation on a document that is not loaded.
pub open spec fn not_loaded(book_id: Seq<char>) -> PdfParseErrorView {
    PdfParseErrorView::LoadError("PDF "@ + book_id + " not loaded"@)
}

impl PdfParseError {
    /// The failure reported for an operation on a document that is not
    /// loaded under `book_id`.
    pub fn not_loaded(book_id: &str) -> (error: PdfParseError)
        ensures
            error@ == not_loaded(book_id@),
    {
        let mut reason = String::from_str("PDF ");
        reason.append(book_id);
        reason.append(" not loaded");
        PdfParseError::LoadError(reason)
    }

    /// The text that describes the failure.
    pub fn message(&self) -> (text: String)
        ensures
            text@ == self@.message(),
    {
        match self {
            PdfParseError::LoadError(reason) => {
                String::from_str("Failed to load PDF: ").concat(reason.as_str())
            },
            PdfParseError::PageOutOfRange(page) => {
                let mut text = String::from_str("Page ");
                push_decimal(&mut text, *page as u64);
                text.append(" is out of range");
                text
            },
            PdfParseError::RenderError(reason) => {
                String::from_str("Failed to render page: ").concat(reason.as_str())
            },
        }
    }
}

/// A failure of the service: of its start, of the way to the actor, or of the
/// operation itself.
#[derive(Debug, Clone, PartialEq, Eq)]
pub enum PdfServiceError {
    /// The native library could not be bound.
    InitError(String),
    /// The actor has left its loop.
    ActorStopped,
    /// The job could not be handed to the actor.
    SendError(String),
    /// The actor's answer never came.
    RecvError(String),
    /// The operation itself failed.
    ParseError(PdfParseError),
}

/// The mathematical content of a [`PdfServiceError`].
pub enum PdfServiceErrorView {
    InitError(Seq<char>),
    ActorStopped,
    SendError(Seq<char>),
    RecvError(Seq<char>),
    ParseError(PdfParseErrorView),
}

impl View for PdfServiceError {
    type V = PdfServiceErrorView;

    open spec fn view(&self) -> PdfServiceErrorView {
        match self {
            PdfServiceError::InitError(reason) => PdfServiceErrorView::InitError(reason@),
            PdfServiceError::ActorStopped => PdfServiceErrorView::ActorStopped,
            PdfServiceError::SendError(reason) => PdfServiceErrorView::SendError(reason@),
            PdfServiceError::RecvError(reason) => PdfServiceErrorView::RecvError(reason@),
            PdfServiceError::ParseError(error) => PdfServiceErrorView::ParseError(error@),
        }
    }
}

impl PdfServiceErrorView {
    /// Whether the failure says that the actor could not be reached, rather
    /// than that an operation failed.
    pub open spec fn is_unavailable(self) -> bool {
        self is ActorStopped || self is SendError || self is RecvError
    }

    /// The text that describes the failure.
    pub open spec fn message(self) -> Seq<char> {
        match self {
            PdfServiceErrorView::InitError(reason) => "Failed to initialize PDFium: "@ + reason,
            PdfServiceErrorView::ActorStopped => "PDF service actor has stopped"@,
            PdfServiceErrorView::SendError(reason) => "Failed to send job to actor: "@ + reason,
            PdfServiceErrorView::RecvError(reason) => "Failed to receive response from actor: "@
                + reason,
            PdfServiceErrorView::ParseError(error) => "PDF parse error: "@ + error.message(),
        }
    }
}

impl PdfServiceError {
    /// Whether the failure says that the actor could not be reached, rather
    /// than that an operation failed.
    pub fn is_unavailable(&self) -> (unavailable: bool)
        ensures
            unavailable == self@.is_unavailable(),
    {
        match self {
            PdfServiceError::ActorStopped => true,
            PdfServiceError::SendError(_) => true,
            PdfServiceError::RecvError(_) => true,
            _ => false,
        }
    }

    /// The text that describes the failure.
    pub fn message(&self) -> (text: String)
        ensures
            text@ == self@.message(),
    {
        match self {
            PdfServiceError::InitError(reason) => {
                String::from_str("Failed to initialize PDFium: ").concat(reason.as_str())
            },
            PdfServiceError::ActorStopped => String::from_str("PDF service actor has stopped"),
            PdfServiceError::SendError(reason) => {
                String::from_str("Failed to send job to actor: ").concat(reason.as_str())
            },
            PdfServiceError::RecvError(reason) => {
                String::from_str("Failed to receive response from actor: ").concat(
                    reason.as_str(),
                )
            },
            PdfServiceError::ParseError(error) => {
                let inner = error.message();
                String::from_str("PDF parse error: ").concat(inner.as_str())
            },
        }
    }
}

impl From<PdfParseError> for PdfServiceError {
    fn from(error: PdfParseError) -> (wrapped: PdfServiceError)
        ensures
            wrapped == PdfServiceError::ParseError(error),
    {
        PdfServiceError::ParseError(error)
    }
}

impl vstd::std_specs::convert::FromSpecImpl<PdfParseError> for PdfServiceError {
    open spec fn obeys_from_spec() -> bool {
        true
    }

    open spec fn from_spec(error: PdfParseError) -> PdfServiceError {
        PdfServiceError::ParseError(error)
    }
}

} // verus!
