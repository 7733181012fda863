//! Errors of the serial transport.

use crate::text::push_text;
use crate::text::text;
use vstd::prelude::*;
use vstd::string::*;

verus! {

/// Device open and configuration failures.
///
/// An operating-system error is carried as the text it is shown with.
#[derive(Debug, PartialEq, Eq)]
pub enum SerialError {
    Io(String),
    InvalidConfig(String),
    DeviceNotFound(String),
    PermissionDenied(String),
}

/// Result type for serial configuration/open operations.
pub type SerialResult<T> = Result<T, SerialError>;

impl SerialError {
    /// The line an operator reads.
    pub open spec fn message_spec(self) -> Seq<char> {
        match self {
            SerialError::Io(e) => "IO error: "@ + e@,
            SerialError::InvalidConfig(e) => "Invalid configuration: "@ + e@,
            SerialError::DeviceNotFound(e) => "Device not found: "@ + e@,
            SerialError::PermissionDenied(e) => "Permission denied: "@ + e@,
        }
    }

    /// The line an operator reads.
    pub fn message(&self) -> (r: String)
        ensures
            r@ == self.message_spec(),
    {
        match self {
            SerialError::Io(e) => {
                let mut out = text("IO error: ");
                push_text(&mut out, e.as_str());
                out
            },
            SerialError::InvalidConfig(e) => {
                let mut out = text("Invalid configuration: ");
                push_text(&mut out, e.as_str());
                out
            },
            SerialError::DeviceNotFound(e) => {
                let mut out = text("Device not found: ");
                push_text(&mut out, e.as_str());
                out
            },
            SerialError::PermissionDenied(e) => {
                let mut out = text("Permission denied: ");
                push_text(&mut out, e.as_str());
                out
            },
        }
    }
}

/// A runtime failure of a byte transport.
///
/// An operating-system error is carried as its kind and the text it is shown
/// with.
#[derive(Debug, PartialEq, Eq)]
pub enum TransportError {
    ReadTimeout,
    WriteTimeout,
    Io(IoFailure),
    Other(String),
}

/// What the operating system said.
#[derive(Debug, PartialEq, Eq)]
pub struct IoFailure {
    pub kind: IoKind,
    pub message: String,
}

/// The kinds of operating-system error the transports tell apart.
#[derive(Debug, Clone, Copy, PartialEq, Eq, Structural)]
pub enum IoKind {
    UnexpectedEof,
    BrokenPipe,
    Interrupted,
    Other,
}

/// Whether an exchange brought an answer back.
#[derive(Debug, Clone, Copy, PartialEq, Eq, Structural)]
pub enum ResponseDisposition {
    ResponseWritten,
    NoResponse,
}

impl ResponseDisposition {
    /// An empty answer is no answer.
    pub open spec fn of_len(len: nat) -> ResponseDisposition {
        if len == 0 {
            ResponseDisposition::NoResponse
        } else {
            ResponseDisposition::ResponseWritten
        }
    }

    /// An empty answer is no answer.
    pub fn of(response: &[u8]) -> (r: ResponseDisposition)
        ensures
            r == ResponseDisposition::of_len(response@.len()),
    {
        if response.len() == 0 {
            ResponseDisposition::NoResponse
        } else {
            ResponseDisposition::ResponseWritten
        }
    }
}

/// A failed operating-system call that carries `message`.
pub fn io_failure(kind: IoKind, message: &str) -> (r: IoFailure)
    ensures
        r.kind == kind,
        r.message@ == message@,
{
    IoFailure { kind, message: text(message) }
}

/// An exchange brought an answer exactly where it brought bytes.
pub proof fn no_bytes_are_no_answer(len: nat)
    ensures
        ResponseDisposition::of_len(len) == ResponseDisposition::NoResponse <==> len == 0,
{
}

/// An error says what it is about behind what kind of error it is, and no two
/// kinds read alike.
pub proof fn an_error_says_what_it_is_about(e: SerialError, f: SerialError)
    ensures
        ({
            let about = match e {
                SerialError::Io(s) => s@,
                SerialError::InvalidConfig(s) => s@,
                SerialError::DeviceNotFound(s) => s@,
                SerialError::PermissionDenied(s) => s@,
            };
            let m = e.message_spec();
            &&& m.len() >= about.len()
            &&& m.skip(m.len() - about.len()) == about
        }),
        e.message_spec()[1] == f.message_spec()[1] && e.message_spec()[0] == f.message_spec()[0]
            ==> ((e is Io <==> f is Io) && (e is InvalidConfig <==> f is InvalidConfig) && (
        e is DeviceNotFound <==> f is DeviceNotFound)),
{
    reveal_strlit("IO error: ");
    reveal_strlit("Invalid configuration: ");
    reveal_strlit("Device not found: ");
    reveal_strlit("Permission denied: ");
    let about = match e {
        SerialError::Io(s) => s@,
        SerialError::InvalidConfig(s) => s@,
        SerialError::DeviceNotFound(s) => s@,
        SerialError::PermissionDenied(s) => s@,
    };
    let m = e.message_spec();
    assert(m.skip(m.len() - about.len()) =~= about);
    assert(e is Io ==> e.message_spec()[0] == 'I' && e.message_spec()[1] == 'O');
    assert(f is Io ==> f.message_spec()[0] == 'I' && f.message_spec()[1] == 'O');
    assert(e is InvalidConfig ==> e.message_spec()[0] == 'I' && e.message_spec()[1] == 'n');
    assert(f is InvalidConfig ==> f.message_spec()[0] == 'I' && f.message_spec()[1] == 'n');
    assert(e is DeviceNotFound ==> e.message_spec()[0] == 'D');
    assert(f is DeviceNotFound ==> f.message_spec()[0] == 'D');
    assert(e is PermissionDenied ==> e.message_spec()[0] == 'P');
    assert(f is PermissionDenied ==> f.message_spec()[0] == 'P');
}

} // verus!
