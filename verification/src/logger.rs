//! The logger bridge: owns a log-handling capability and exposes the
//! callback entry point the native layer invokes.
//!
//! The native layer reports a severity code and a message pointer. The
//! callback entry point [`Logger::log_callback`] models the foreign call: a
//! missing message (a null pointer at the boundary) is dropped without
//! invoking the handler, an unknown severity code or a message that is not
//! valid UTF-8 is dropped silently, and only a well-formed event reaches
//! the handler. [`callback_event`] is the pure decision behind it.
//!
//! A [`Logger`] must outlive every builder and runtime that borrows it;
//! those borrowers hold a shared reference to it, so the borrow checker
//! enforces the teardown order structurally.

use vstd::prelude::*;
use vstd::utf8::*;
use core::cmp::Ordering;
use std::io::Write;
use vstd::std_specs::cmp::PartialOrdSpec;

use crate::error::Error;
use crate::text;

verus! {

/// Severity level of a log message, from most to least severe.
#[derive(Debug, Clone, Copy, Eq, Ord)]
pub enum Severity {
    /// An internal error of the native layer (most severe).
    InternalError,
    /// An error.
    Error,
    /// A warning.
    Warning,
    /// Informational output.
    Info,
    /// Detailed diagnostic output (least severe).
    Verbose,
}

/// Numeric rank of a severity: lower rank means more severe.
pub open spec fn severity_rank(s: Severity) -> int {
    match s {
        Severity::InternalError => 0,
        Severity::Error => 1,
        Severity::Warning => 2,
        Severity::Info => 3,
        Severity::Verbose => 4,
    }
}

/// What `<` means on severities: strictly more severe.
pub open spec fn severity_lt(a: Severity, b: Severity) -> bool {
    severity_rank(a) < severity_rank(b)
}

impl Severity {
    /// The rank of this severity as a machine integer.
    fn rank(&self) -> (r: u8)
        ensures
            r == severity_rank(*self),
    {
        match self {
            Severity::InternalError => 0,
            Severity::Error => 1,
            Severity::Warning => 2,
            Severity::Info => 3,
            Severity::Verbose => 4,
        }
    }

    /// The name of this severity, as a diagnostic stream shows it.
    pub fn label(&self) -> (r: &'static str)
        ensures
            r@ == spec_label(*self),
    {
        match self {
            Severity::InternalError => "InternalError",
            Severity::Error => "Error",
            Severity::Warning => "Warning",
            Severity::Info => "Info",
            Severity::Verbose => "Verbose",
        }
    }
}

/// The name of a severity, as a diagnostic stream shows it.
pub open spec fn spec_label(s: Severity) -> Seq<char> {
    match s {
        Severity::InternalError => "InternalError"@,
        Severity::Error => "Error"@,
        Severity::Warning => "Warning"@,
        Severity::Info => "Info"@,
        Severity::Verbose => "Verbose"@,
    }
}

impl PartialEq for Severity {
    fn eq(&self, other: &Severity) -> (r: bool) {
        self.rank() == other.rank()
    }
}

impl vstd::std_specs::cmp::PartialEqSpecImpl for Severity {
    open spec fn obeys_eq_spec() -> bool {
        true
    }

    open spec fn eq_spec(&self, other: &Severity) -> bool {
        *self == *other
    }
}

impl PartialOrd for Severity {
    fn partial_cmp(&self, other: &Severity) -> (r: Option<Ordering>) {
        let a = self.rank();
        let b = other.rank();
        if a < b {
            Some(Ordering::Less)
        } else if a == b {
            Some(Ordering::Equal)
        } else {
            Some(Ordering::Greater)
        }
    }
}

impl vstd::std_specs::cmp::PartialOrdSpecImpl for Severity {
    open spec fn obeys_partial_cmp_spec() -> bool {
        true
    }

    open spec fn partial_cmp_spec(&self, other: &Severity) -> Option<Ordering> {
        if severity_lt(*self, *other) {
            Some(Ordering::Less)
        } else if *self == *other {
            Some(Ordering::Equal)
        } else {
            Some(Ordering::Greater)
        }
    }
}

/// The severity order is total and fixed: every pair of severities is
/// comparable exactly one way, the order is transitive, and it runs
/// InternalError < Error < Warning < Info < Verbose.
pub proof fn lemma_severity_order_total()
    ensures
        forall|a: Severity, b: Severity|
            #[trigger] severity_lt(a, b) || severity_lt(b, a) || a == b,
        forall|a: Severity, b: Severity| !(#[trigger] severity_lt(a, b) && severity_lt(b, a)),
        forall|a: Severity, b: Severity| #[trigger] severity_lt(a, b) ==> a != b,
        forall|a: Severity, b: Severity, c: Severity|
            #![trigger severity_lt(a, b), severity_lt(b, c)]
            severity_lt(a, b) && severity_lt(b, c) ==> severity_lt(a, c),
        severity_lt(Severity::InternalError, Severity::Error),
        severity_lt(Severity::Error, Severity::Warning),
        severity_lt(Severity::Warning, Severity::Info),
        severity_lt(Severity::Info, Severity::Verbose),
        forall|a: Severity, b: Severity|
            a.partial_cmp_spec(&b) == Some(Ordering::Less) <==> #[trigger] severity_lt(a, b),
{
}

/// Receives the log messages the native layer emits through a logger.
pub trait LogHandler: Send + Sync {
    /// Called for every well-formed log event.
    fn log(&self, severity: Severity, message: &str);
}

/// Log handler that writes every event to the diagnostic stream as
/// "[TensorRT severity] message".
#[derive(Debug)]
pub struct StderrLogger;

impl LogHandler for StderrLogger {
    fn log(&self, severity: Severity, message: &str) {
        let line = format_log_line(severity.label(), message);
        write_stderr_line(line.as_str());
    }
}

/// The line a log event takes on the diagnostic stream: the severity's
/// name in brackets, then the message.
fn format_log_line(label: &str, message: &str) -> (s: String)
    ensures
        s@ == "[TensorRT "@ + label@ + "] "@ + message@,
{
    let mut s = "[TensorRT ".to_owned();
    text::append_str(&mut s, label);
    text::append_str(&mut s, "] ");
    text::append_str(&mut s, message);
    s
}

/// Relies on std::io::stderr: writes the given line to the diagnostic
/// stream, followed by a newline; the write result is deliberately
/// ignored.
#[verifier::external_body]
fn write_stderr_line(line: &str) {
    let _ = writeln!(std::io::stderr(), "{}", line);
}

/// The severity a native severity code maps to, if any.
pub open spec fn spec_severity_from_code(code: i32) -> Option<Severity> {
    if code == 0 {
        Some(Severity::InternalError)
    } else if code == 1 {
        Some(Severity::Error)
    } else if code == 2 {
        Some(Severity::Warning)
    } else if code == 3 {
        Some(Severity::Info)
    } else if code == 4 {
        Some(Severity::Verbose)
    } else {
        None
    }
}

/// Maps a native severity code to the severity enumeration.
pub fn severity_from_code(code: i32) -> (r: Option<Severity>)
    ensures
        r == spec_severity_from_code(code),
{
    if code == 0 {
        Some(Severity::InternalError)
    } else if code == 1 {
        Some(Severity::Error)
    } else if code == 2 {
        Some(Severity::Warning)
    } else if code == 3 {
        Some(Severity::Info)
    } else if code == 4 {
        Some(Severity::Verbose)
    } else {
        None
    }
}

/// The event a callback invocation delivers, if any: a missing message (a
/// null pointer at the native boundary), an unknown severity code or a
/// message that is not valid UTF-8 all deliver nothing.
pub open spec fn spec_callback_event(code: i32, message: Option<Seq<u8>>) -> Option<
    (Severity, Seq<char>),
> {
    match message {
        None => None,
        Some(bytes) => match spec_severity_from_code(code) {
            None => None,
            Some(sev) => if valid_utf8(bytes) {
                Some((sev, decode_utf8(bytes)))
            } else {
                None
            },
        },
    }
}

/// The pure decision of the callback entry point: which event, if any, an
/// invocation with the given severity code and message bytes delivers to
/// the handler.
pub fn callback_event(code: i32, message: Option<&[u8]>) -> (r: Option<(Severity, String)>)
    ensures
        match r {
            Some(p) => {
                &&& spec_callback_event(code, view_of_message(message)) matches Some(q) && p.0
                    == q.0 && p.1@ == q.1
            },
            None => spec_callback_event(code, view_of_message(message)) is None,
        },
        message is None ==> r is None,
{
    let bytes = match message {
        None => { return None; },
        Some(bytes) => bytes,
    };
    let sev = match severity_from_code(code) {
        None => { return None; },
        Some(sev) => sev,
    };
    if text::utf8_valid(bytes) {
        proof {
            text::lemma_decode_lossy_of_valid(bytes@);
        }
        Some((sev, text::utf8_lossy(bytes)))
    } else {
        None
    }
}

/// The byte sequence behind an optional message buffer.
pub open spec fn view_of_message(message: Option<&[u8]>) -> Option<Seq<u8>> {
    match message {
        None => None,
        Some(bytes) => Some(bytes@),
    }
}

/// Owns a log-handling capability for the lifetime of the native logger
/// handle. The native layer may invoke the callback at any point before
/// the logger is destroyed, so the capability lives exactly as long as the
/// logger value itself.
pub struct Logger<H: LogHandler> {
    handler: H,
}

impl<H: LogHandler> View for Logger<H> {
    type V = H;

    closed spec fn view(&self) -> H {
        self.handler
    }
}

impl<H: LogHandler> Logger<H> {
    /// Creates a logger that delivers well-formed log events to the given
    /// handler.
    pub fn new(handler: H) -> (r: Result<Logger<H>, Error>)
        ensures
            r matches Ok(l) && l@ == handler,
    {
        Ok(Logger { handler })
    }

    /// The callback entry point the native layer invokes: delivers the
    /// event to the handler exactly when [`callback_event`] yields one. A
    /// missing message never reaches the handler and never fails the
    /// surrounding native call.
    pub fn log_callback(&self, code: i32, message: Option<&[u8]>) -> (delivered: bool)
        ensures
            delivered == (spec_callback_event(code, view_of_message(message)) is Some),
            message is None ==> !delivered,
    {
        match callback_event(code, message) {
            Some((sev, msg)) => {
                self.handler.log(sev, msg.as_str());
                true
            },
            None => false,
        }
    }
}

impl Logger<StderrLogger> {
    /// Creates a logger that writes every event to the diagnostic stream.
    pub fn stderr() -> (r: Result<Logger<StderrLogger>, Error>)
        ensures
            r matches Ok(l) && l@ == StderrLogger,
    {
        Logger::new(StderrLogger)
    }
}

} // verus!
