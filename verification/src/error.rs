//! The one error type of the library: a kind to branch on and a message to show.

use vstd::prelude::*;
use vstd::string::StringExecFns;

verus! {

/// Why bytes are not a micro form, or why an address has none.
#[derive(Debug, Clone, Copy, PartialEq, Eq, Structural)]
pub enum CodecError {
    /// The bytes end before the fixed header does.
    TooShort,
    /// The first byte names a version of the format that is not known.
    UnsupportedVersion,
    /// The second byte names no kind of authority address.
    UnknownAddressKind,
    /// The number of bytes is not the one that the kind of address calls for.
    LengthMismatch,
    /// The address lacks a number that the micro form carries, or holds one too large for it.
    NotMicroForm,
}

/// What went wrong.
#[derive(Debug, Clone, Copy, PartialEq, Eq, Structural)]
pub enum ErrorKind {
    /// The text to parse is empty.
    EmptyInput,
    /// The text has too few segments to name even an entity.
    MissingEntityOrResource,
    /// The text of a remote address has a blank authority.
    MissingAuthority,
    /// The version is there but is no unsigned 32-bit integer.
    InvalidVersion,
    /// The address to serialize has no authority, no entity and no resource.
    EmptyAddress,
    /// The long form handed to the resolver is empty.
    EmptyLongForm,
    /// The micro form handed to the resolver is empty.
    EmptyMicroForm,
    /// The micro form gave no authority.
    MicroMissingAuthority,
    /// The micro form gave no entity.
    MicroMissingEntity,
    /// The long form gave no resource.
    LongMissingResource,
    /// Long and micro form were merged, but the result is not resolved.
    UnresolvableAddress,
    /// The micro form could not be read or written.
    Codec(CodecError),
    /// An error that a caller made from a message of its own.
    Other,
}

/// An error as contracts see it.
pub struct ErrorView {
    pub kind: ErrorKind,
    pub message: Seq<char>,
}

/// The message of a codec error.
pub open spec fn codec_message(e: CodecError) -> Seq<char> {
    match e {
        CodecError::TooShort => "Micro URI is shorter than its header"@,
        CodecError::UnsupportedVersion => "Micro URI has an unsupported version"@,
        CodecError::UnknownAddressKind => "Micro URI has an unknown kind of authority address"@,
        CodecError::LengthMismatch => "Micro URI has the wrong length for its authority address"@,
        CodecError::NotMicroForm => "URI is not in micro form"@,
    }
}

/// The message of each kind of error. For `InvalidVersion` and `UnresolvableAddress` it is
/// the start of the message: the offending text follows.
pub open spec fn kind_message(kind: ErrorKind) -> Seq<char> {
    match kind {
        ErrorKind::EmptyInput => "URI is empty"@,
        ErrorKind::MissingEntityOrResource => "URI missing UEntity or UResource"@,
        ErrorKind::MissingAuthority => "Remote URI missing UAuthority"@,
        ErrorKind::InvalidVersion => "Could not parse version number - expected an unsigned integer, got "@,
        ErrorKind::EmptyAddress => "URI is empty"@,
        ErrorKind::EmptyLongForm => "Long URI is empty"@,
        ErrorKind::EmptyMicroForm => "Micro URI is empty"@,
        ErrorKind::MicroMissingAuthority => "Micro URI is missing UAuthority"@,
        ErrorKind::MicroMissingEntity => "Micro URI is missing UEntity"@,
        ErrorKind::LongMissingResource => "Long URI is missing UResource"@,
        ErrorKind::UnresolvableAddress => "Could not resolve uri "@,
        ErrorKind::Codec(e) => codec_message(e),
        ErrorKind::Other => Seq::empty(),
    }
}

/// The error of a kind, with the message of that kind.
pub open spec fn failure(kind: ErrorKind) -> ErrorView {
    ErrorView { kind, message: kind_message(kind) }
}

/// The error of a kind whose message ends in `detail`.
pub open spec fn failure_with(kind: ErrorKind, detail: Seq<char>) -> ErrorView {
    ErrorView { kind, message: kind_message(kind) + detail }
}

/// The message of a codec error.
pub fn codec_message_text(e: CodecError) -> (m: &'static str)
    ensures
        m@ == codec_message(e),
{
    match e {
        CodecError::TooShort => "Micro URI is shorter than its header",
        CodecError::UnsupportedVersion => "Micro URI has an unsupported version",
        CodecError::UnknownAddressKind => "Micro URI has an unknown kind of authority address",
        CodecError::LengthMismatch => "Micro URI has the wrong length for its authority address",
        CodecError::NotMicroForm => "URI is not in micro form",
    }
}

/// The message of a kind of error.
pub fn kind_message_text(kind: ErrorKind) -> (m: &'static str)
    ensures
        m@ == kind_message(kind),
{
    match kind {
        ErrorKind::EmptyInput => "URI is empty",
        ErrorKind::MissingEntityOrResource => "URI missing UEntity or UResource",
        ErrorKind::MissingAuthority => "Remote URI missing UAuthority",
        ErrorKind::InvalidVersion => "Could not parse version number - expected an unsigned integer, got ",
        ErrorKind::EmptyAddress => "URI is empty",
        ErrorKind::EmptyLongForm => "Long URI is empty",
        ErrorKind::EmptyMicroForm => "Micro URI is empty",
        ErrorKind::MicroMissingAuthority => "Micro URI is missing UAuthority",
        ErrorKind::MicroMissingEntity => "Micro URI is missing UEntity",
        ErrorKind::LongMissingResource => "Long URI is missing UResource",
        ErrorKind::UnresolvableAddress => "Could not resolve uri ",
        ErrorKind::Codec(e) => codec_message_text(e),
        ErrorKind::Other => {
            proof {
                reveal_strlit("");
            }
            ""
        },
    }
}

/// An error of parsing, serializing or resolving an address.
#[derive(Debug, Clone, PartialEq, Eq)]
pub struct SerializationError {
    kind: ErrorKind,
    message: String,
}

impl View for SerializationError {
    type V = ErrorView;

    closed spec fn view(&self) -> ErrorView {
        ErrorView { kind: self.kind, message: self.message@ }
    }
}

impl SerializationError {
    /// An error with a message of the caller's own. Its kind is `Other`.
    pub fn new(message: &str) -> (e: SerializationError)
        ensures
            e@ == (ErrorView { kind: ErrorKind::Other, message: message@ }),
    {
        SerializationError { kind: ErrorKind::Other, message: String::from_str(message) }
    }

    /// The error of a kind, with the message of that kind.
    pub fn of_kind(kind: ErrorKind) -> (e: SerializationError)
        ensures
            e@ == failure(kind),
    {
        SerializationError { kind, message: String::from_str(kind_message_text(kind)) }
    }

    /// The error of a kind whose message ends in `detail`.
    pub fn with_detail(kind: ErrorKind, detail: &str) -> (e: SerializationError)
        ensures
            e@ == failure_with(kind, detail@),
    {
        let mut message = String::from_str(kind_message_text(kind));
        message.append(detail);
        SerializationError { kind, message }
    }

    /// What went wrong.
    pub fn kind(&self) -> (kind: ErrorKind)
        ensures
            kind == self@.kind,
    {
        self.kind
    }

    /// The message to show.
    pub fn message(&self) -> (message: &str)
        ensures
            message@ == self@.message,
    {
        self.message.as_str()
    }
}

} // verus!
