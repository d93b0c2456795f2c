//! Errors of the reader and the editor.

use crate::text::{decimal_text, push_decimal};
use vstd::prelude::*;

verus! {

/// The error type of the standard library's input and output. The crate
/// only carries such a value; it never looks inside.
#[verifier::external_type_specification]
#[verifier::external_body]
pub struct ExIoError(std::io::Error);

/// What went wrong while reading or decoding input.
#[derive(Debug)]
pub enum EditorError {
    /// The underlying input failed.
    Io { source: std::io::Error },
    /// A byte sequence is not valid in the chosen encoding.
    InvalidEncoding {
        /// Index, within the encoded unit, of the offending byte.
        position: usize,
        /// What was expected.
        details: String,
        /// The bytes of the unit read so far, the offending one last.
        invalid_bytes: Vec<u8>,
    },
    /// A sequence that started with an escape is no known escape sequence.
    InvalidSequence {
        /// The characters of the sequence.
        sequence: String,
        /// How many characters it has.
        length: usize,
    },
    /// The input ended inside a unit.
    UnexpectedEof {
        /// What was still expected.
        expected: String,
        /// How many bytes of the unit had been read.
        actual: usize,
    },
    /// No decoder exists for the requested encoding.
    UnsupportedEncoding {
        /// The name that was asked for.
        encoding: String,
        /// The names that are known.
        available: Vec<&'static str>,
    },
    /// An escape sequence was not completed in time.
    ParseTimeout {
        /// The characters collected so far.
        sequence: String,
        /// How long was waited, in milliseconds.
        duration_ms: u64,
    },
    /// A bounded resource ran out.
    ResourceExhausted {
        /// The resource.
        resource: String,
        /// Its limit.
        limit: usize,
    },
}

/// How serious an error is.
#[derive(Debug, Clone, Copy, PartialEq, Eq, Structural)]
pub enum ErrorSeverity {
    /// Recoverable; the main function is not affected.
    Warning,
    /// A function is affected, but not fatally.
    Error,
    /// The session or its data may be lost.
    Critical,
}

/// The mathematical content of an [`EditorError`].
pub enum ErrorView {
    Io,
    InvalidEncoding { position: nat, details: Seq<char>, invalid_bytes: Seq<u8> },
    InvalidSequence { sequence: Seq<char>, length: nat },
    UnexpectedEof { expected: Seq<char>, actual: nat },
    UnsupportedEncoding { encoding: Seq<char>, available: Seq<Seq<char>> },
    ParseTimeout { sequence: Seq<char>, duration_ms: nat },
    ResourceExhausted { resource: Seq<char>, limit: nat },
}

impl ErrorView {
    /// The message of the error, for a reader; for a failure of the input
    /// only how it starts.
    pub open spec fn message(self) -> Seq<char> {
        match self {
            ErrorView::Io => "I/O operation failed: "@,
            ErrorView::InvalidEncoding { position, details, .. } => {
                "Invalid encoding detected at position "@ + decimal_text(position) + ": "@ + details
            },
            ErrorView::InvalidSequence { sequence, .. } => "Invalid escape sequence: "@ + sequence,
            ErrorView::UnexpectedEof { expected, actual } => {
                "Unexpected end of input while expecting "@ + expected + " (got "@ + decimal_text(
                    actual,
                ) + " bytes)"@
            },
            ErrorView::UnsupportedEncoding { encoding, available } => {
                "Encoding '"@ + encoding + "' is not supported. Available encodings: "@
                    + join_names(available)
            },
            ErrorView::ParseTimeout { sequence, duration_ms } => {
                "Parsing timeout: sequence '"@ + sequence + "' incomplete after "@ + decimal_text(
                    duration_ms,
                ) + "ms"@
            },
            ErrorView::ResourceExhausted { resource, limit } => {
                "Resource exhausted: "@ + resource + " limit of "@ + decimal_text(limit)
                    + " exceeded"@
            },
        }
    }

    /// Whether `text` is the message of the error: the message itself, and
    /// for a failure of the input the message and the text of its cause.
    pub open spec fn has_message(self, text: Seq<char>) -> bool {
        if self is Io {
            exists|cause: Seq<char>| text == self.message() + cause
        } else {
            text == self.message()
        }
    }

    /// Whether reading can go on after the error: after an encoding, a
    /// sequence, a timeout or a resource error it can.
    pub open spec fn is_recoverable(self) -> bool {
        self is InvalidEncoding || self is InvalidSequence || self is ParseTimeout
            || self is ResourceExhausted
    }

    /// How serious the error is.
    pub open spec fn severity(self) -> ErrorSeverity {
        match self {
            ErrorView::Io => ErrorSeverity::Critical,
            ErrorView::InvalidEncoding { .. } => ErrorSeverity::Warning,
            ErrorView::InvalidSequence { .. } => ErrorSeverity::Warning,
            ErrorView::UnexpectedEof { .. } => ErrorSeverity::Error,
            ErrorView::UnsupportedEncoding { .. } => ErrorSeverity::Error,
            ErrorView::ParseTimeout { .. } => ErrorSeverity::Warning,
            ErrorView::ResourceExhausted { .. } => ErrorSeverity::Critical,
        }
    }
}

/// The names of `names` in order, with a comma and a space between them.
pub open spec fn join_names(names: Seq<Seq<char>>) -> Seq<char>
    decreases names.len(),
{
    if names.len() == 0 {
        Seq::empty()
    } else if names.len() == 1 {
        names[0]
    } else {
        join_names(names.drop_last()) + ", "@ + names.last()
    }
}

/// `ToString::to_string` on a `std::io::Error` gives the text that its
/// `Display` writes. Nothing is stated of the text.
#[verifier::external_body]
fn io_error_text(source: &std::io::Error) -> (text: String) {
    source.to_string()
}

/// The names in a list of encodings, each as a sequence of characters.
pub open spec fn names_view(names: Seq<&'static str>) -> Seq<Seq<char>> {
    Seq::new(names.len(), |i: int| names[i]@)
}

impl View for EditorError {
    type V = ErrorView;

    open spec fn view(&self) -> ErrorView {
        match *self {
            EditorError::Io { .. } => ErrorView::Io,
            EditorError::InvalidEncoding { position, details, invalid_bytes } => {
                ErrorView::InvalidEncoding {
                    position: position as nat,
                    details: details@,
                    invalid_bytes: invalid_bytes@,
                }
            },
            EditorError::InvalidSequence { sequence, length } => ErrorView::InvalidSequence {
                sequence: sequence@,
                length: length as nat,
            },
            EditorError::UnexpectedEof { expected, actual } => ErrorView::UnexpectedEof {
                expected: expected@,
                actual: actual as nat,
            },
            EditorError::UnsupportedEncoding { encoding, available } => {
                ErrorView::UnsupportedEncoding {
                    encoding: encoding@,
                    available: names_view(available@),
                }
            },
            EditorError::ParseTimeout { sequence, duration_ms } => ErrorView::ParseTimeout {
                sequence: sequence@,
                duration_ms: duration_ms as nat,
            },
            EditorError::ResourceExhausted { resource, limit } => ErrorView::ResourceExhausted {
                resource: resource@,
                limit: limit as nat,
            },
        }
    }
}

impl From<std::io::Error> for EditorError {
    /// A failure of the input or output as an error of the editor.
    fn from(source: std::io::Error) -> (e: EditorError) {
        EditorError::Io { source }
    }
}

impl vstd::std_specs::convert::FromSpecImpl<std::io::Error> for EditorError {
    open spec fn obeys_from_spec() -> bool {
        true
    }

    open spec fn from_spec(source: std::io::Error) -> EditorError {
        EditorError::Io { source }
    }
}

/// The result of an operation that may fail with an [`EditorError`].
pub type Result<T> = std::result::Result<T, EditorError>;

impl EditorError {
    /// An encoding error at `position` of a unit, with the bytes read so far.
    pub fn invalid_encoding(position: usize, details: String, invalid_bytes: Vec<u8>) -> (e: Self)
        ensures
            e@ == (ErrorView::InvalidEncoding {
                position: position as nat,
                details: details@,
                invalid_bytes: invalid_bytes@,
            }),
    {
        EditorError::InvalidEncoding { position, details, invalid_bytes }
    }

    /// An escape-sequence error for the `length` characters of `sequence`.
    pub fn invalid_sequence(sequence: String, length: usize) -> (e: Self)
        ensures
            e@ == (ErrorView::InvalidSequence { sequence: sequence@, length: length as nat }),
    {
        EditorError::InvalidSequence { sequence, length }
    }

    /// An end of input after `actual` bytes, where `expected` was still due.
    pub fn unexpected_eof(expected: String, actual: usize) -> (e: Self)
        ensures
            e@ == (ErrorView::UnexpectedEof { expected: expected@, actual: actual as nat }),
    {
        EditorError::UnexpectedEof { expected, actual }
    }

    /// A request for an encoding that is not among `available`.
    pub fn unsupported_encoding(encoding: String, available: Vec<&'static str>) -> (e: Self)
        ensures
            e@ == (ErrorView::UnsupportedEncoding {
                encoding: encoding@,
                available: names_view(available@),
            }),
    {
        EditorError::UnsupportedEncoding { encoding, available }
    }

    /// A sequence left incomplete after `duration_ms` milliseconds.
    pub fn parse_timeout(sequence: String, duration_ms: u64) -> (e: Self)
        ensures
            e@ == (ErrorView::ParseTimeout {
                sequence: sequence@,
                duration_ms: duration_ms as nat,
            }),
    {
        EditorError::ParseTimeout { sequence, duration_ms }
    }

    /// A resource whose `limit` was exceeded.
    pub fn resource_exhausted(resource: String, limit: usize) -> (e: Self)
        ensures
            e@ == (ErrorView::ResourceExhausted { resource: resource@, limit: limit as nat }),
    {
        EditorError::ResourceExhausted { resource, limit }
    }

    /// The message of the error, for a reader.
    pub fn message(&self) -> (text: String)
        ensures
            self@.has_message(text@),
    {
        match self {
            EditorError::Io { source } => {
                let mut text = String::from_str("I/O operation failed: ");
                let cause = io_error_text(source);
                text.append(cause.as_str());
                assert(text@ == self@.message() + cause@);
                text
            },
            EditorError::InvalidEncoding { position, details, .. } => {
                let mut text = String::from_str("Invalid encoding detected at position ");
                push_decimal(&mut text, *position as u128);
                text.append(": ");
                text.append(details.as_str());
                text
            },
            EditorError::InvalidSequence { sequence, .. } => {
                let mut text = String::from_str("Invalid escape sequence: ");
                text.append(sequence.as_str());
                text
            },
            EditorError::UnexpectedEof { expected, actual } => {
                let mut text = String::from_str("Unexpected end of input while expecting ");
                text.append(expected.as_str());
                text.append(" (got ");
                push_decimal(&mut text, *actual as u128);
                text.append(" bytes)");
                text
            },
            EditorError::UnsupportedEncoding { encoding, available } => {
                let mut text = String::from_str("Encoding '");
                text.append(encoding.as_str());
                text.append("' is not supported. Available encodings: ");
                let ghost lead = text@;
                let mut i: usize = 0;
                while i < available.len()
                    invariant
                        i <= available@.len(),
                        text@ == lead + join_names(names_view(available@).take(i as int)),
                    decreases available@.len() - i,
                {
                    let ghost names = names_view(available@);
                    assert(names.take(i + 1).drop_last() =~= names.take(i as int));
                    assert(names.take(i + 1).last() == available@[i as int]@);
                    if i > 0 {
                        text.append(", ");
                    }
                    text.append(available[i]);
                    i += 1;
                    assert(text@ =~= lead + join_names(names.take(i as int)));
                }
                assert(names_view(available@).take(available@.len() as int) =~= names_view(
                    available@,
                ));
                text
            },
            EditorError::ParseTimeout { sequence, duration_ms } => {
                let mut text = String::from_str("Parsing timeout: sequence '");
                text.append(sequence.as_str());
                text.append("' incomplete after ");
                push_decimal(&mut text, *duration_ms as u128);
                text.append("ms");
                text
            },
            EditorError::ResourceExhausted { resource, limit } => {
                let mut text = String::from_str("Resource exhausted: ");
                text.append(resource.as_str());
                text.append(" limit of ");
                push_decimal(&mut text, *limit as u128);
                text.append(" exceeded");
                text
            },
        }
    }

    /// Whether reading can go on after this error: true of encoding,
    /// sequence, timeout and resource errors, false of all others.
    pub fn is_recoverable(&self) -> (r: bool)
        ensures
            r == self@.is_recoverable(),
    {
        match self {
            EditorError::Io { .. } => false,
            EditorError::InvalidEncoding { .. } => true,
            EditorError::InvalidSequence { .. } => true,
            EditorError::UnexpectedEof { .. } => false,
            EditorError::UnsupportedEncoding { .. } => false,
            EditorError::ParseTimeout { .. } => true,
            EditorError::ResourceExhausted { .. } => true,
        }
    }

    /// How serious this error is.
    pub fn severity(&self) -> (s: ErrorSeverity)
        ensures
            s == self@.severity(),
    {
        match self {
            EditorError::Io { .. } => ErrorSeverity::Critical,
            EditorError::InvalidEncoding { .. } => ErrorSeverity::Warning,
            EditorError::InvalidSequence { .. } => ErrorSeverity::Warning,
            EditorError::UnexpectedEof { .. } => ErrorSeverity::Error,
            EditorError::UnsupportedEncoding { .. } => ErrorSeverity::Error,
            EditorError::ParseTimeout { .. } => ErrorSeverity::Warning,
            EditorError::ResourceExhausted { .. } => ErrorSeverity::Critical,
        }
    }
}

impl ErrorSeverity {
    /// The name of the severity in capitals.
    pub fn as_str(&self) -> (s: &'static str)
        ensures
            s@ == match *self {
                ErrorSeverity::Warning => "WARNING"@,
                ErrorSeverity::Error => "ERROR"@,
                ErrorSeverity::Critical => "CRITICAL"@,
            },
    {
        match self {
            ErrorSeverity::Warning => "WARNING",
            ErrorSeverity::Error => "ERROR",
            ErrorSeverity::Critical => "CRITICAL",
        }
    }
}

} // verus!
