//! What can go wrong with an envelope.
use crate::fault::{HeaderError, HeaderFault};
use vstd::prelude::*;

verus! {

/// What can go wrong when reading an envelope.
#[derive(Debug)]
pub enum EnvelopeError {
    /// The envelope ends before the payload of an item does, or before its headers start.
    UnexpectedEof,
    /// There is nothing but whitespace.
    MissingHeader,
    /// Something other than a newline follows a header or a payload.
    MissingNewline,
    /// The headers of the envelope cannot be read.
    InvalidHeader(HeaderError),
    /// The named header of the envelope contradicts the request.
    HeaderMismatch(&'static str),
    /// The headers of an item cannot be read.
    InvalidItemHeader(HeaderError),
}

/// What an [`EnvelopeError`] stands for. What the JSON reader reports is left out.
pub enum Failure {
    /// See [`EnvelopeError::UnexpectedEof`].
    UnexpectedEof,
    /// See [`EnvelopeError::MissingHeader`].
    MissingHeader,
    /// See [`EnvelopeError::MissingNewline`].
    MissingNewline,
    /// See [`EnvelopeError::InvalidHeader`].
    InvalidHeader(HeaderFault),
    /// See [`EnvelopeError::HeaderMismatch`].
    HeaderMismatch(Seq<char>),
    /// See [`EnvelopeError::InvalidItemHeader`].
    InvalidItemHeader(HeaderFault),
}

impl View for EnvelopeError {
    type V = Failure;

    open spec fn view(&self) -> Failure {
        match self {
            EnvelopeError::UnexpectedEof => Failure::UnexpectedEof,
            EnvelopeError::MissingHeader => Failure::MissingHeader,
            EnvelopeError::MissingNewline => Failure::MissingNewline,
            EnvelopeError::InvalidHeader(error) => Failure::InvalidHeader(error.fault),
            EnvelopeError::HeaderMismatch(name) => Failure::HeaderMismatch(name@),
            EnvelopeError::InvalidItemHeader(error) => Failure::InvalidItemHeader(error.fault),
        }
    }
}

impl EnvelopeError {
    /// Whether there is a report of the JSON reader exactly where it was the reader that failed.
    pub open spec fn wf(self) -> bool {
        match self {
            EnvelopeError::InvalidHeader(error) => error.wf(),
            EnvelopeError::InvalidItemHeader(error) => error.wf(),
            _ => true,
        }
    }
}

/// The message for a failure.
pub open spec fn failure_message(failure: Failure) -> Seq<char> {
    match failure {
        Failure::UnexpectedEof => "unexpected end of file"@,
        Failure::MissingHeader => "missing envelope header"@,
        Failure::MissingNewline => "missing newline after header or payload"@,
        Failure::InvalidHeader(_) => "invalid envelope header"@,
        Failure::HeaderMismatch(name) => name + " header mismatch between envelope and request"@,
        Failure::InvalidItemHeader(_) => "invalid item header"@,
    }
}

impl EnvelopeError {
    /// The message for the error.
    pub fn message(&self) -> (r: String)
        ensures
            r@ == failure_message(self@),
    {
        match self {
            EnvelopeError::UnexpectedEof => String::from("unexpected end of file"),
            EnvelopeError::MissingHeader => String::from("missing envelope header"),
            EnvelopeError::MissingNewline => {
                String::from("missing newline after header or payload")
            },
            EnvelopeError::InvalidHeader(_) => String::from("invalid envelope header"),
            EnvelopeError::HeaderMismatch(name) => {
                let mut message = String::from(*name);
                message.append(" header mismatch between envelope and request");
                message
            },
            EnvelopeError::InvalidItemHeader(_) => String::from("invalid item header"),
        }
    }
}

} // verus!
