//! The error taxonomy: every native status surface is mapped into a
//! structured, inspectable error value.
//!
//! A fallible native call reports a status code together with a bounded,
//! null-terminated diagnostic byte buffer. [`Error::from_ffi`] locates the
//! terminator (or takes the whole buffer when none is present), decodes the
//! message permissively as UTF-8 — decoding never fails — and classifies
//! the status code against the fixed code set. The relation
//! [`translated`] pins the result down completely, so translation is a pure
//! function of the code and the buffer.

use vstd::prelude::*;

use crate::text;

verus! {

/// Status code reported by the native layer on success.
pub const TRTX_SUCCESS: i32 = 0;

/// Status code for an argument the native layer rejected.
pub const TRTX_ERROR_INVALID_ARGUMENT: i32 = 1;

/// Status code for a failed allocation, host or device.
pub const TRTX_ERROR_OUT_OF_MEMORY: i32 = 2;

/// Status code for an optimization, parsing or execution failure.
pub const TRTX_ERROR_RUNTIME_ERROR: i32 = 3;

/// Status code for a device or driver level failure.
pub const TRTX_ERROR_CUDA_ERROR: i32 = 4;

/// Errors that engine operations can report.
#[derive(Debug)]
pub enum Error {
    /// The caller supplied a bad value: a size mismatch, an unknown tensor
    /// name, a malformed string.
    InvalidArgument(String),
    /// A native allocation failed, host or device.
    OutOfMemory(String),
    /// A native optimization, parsing or execution failure that is not a
    /// memory or device failure.
    Runtime(String),
    /// A device or driver level failure.
    Cuda(String),
    /// An unclassified native status.
    Unknown(String),
    /// A name held an embedded null byte and could not cross the native
    /// boundary.
    StringConversion(String),
    /// A native string was not valid UTF-8.
    Utf8(String),
    /// A failure in the surrounding persistence layer.
    Io(String),
}

/// Index of the first null byte of the buffer, or its length when no null
/// byte is present.
pub open spec fn terminator_len(buffer: Seq<i8>) -> int
    decreases buffer.len(),
{
    if buffer.len() == 0 {
        0
    } else if buffer[0] == 0 {
        0
    } else {
        1 + terminator_len(buffer.drop_first())
    }
}

/// The terminator index is the unique position with only non-null bytes
/// before it and, unless the whole buffer is taken, a null byte at it.
pub proof fn lemma_terminator_len_at(buffer: Seq<i8>, i: int)
    requires
        0 <= i <= buffer.len(),
        forall|j: int| 0 <= j < i ==> buffer[j] != 0,
        i < buffer.len() ==> buffer[i] == 0,
    ensures
        terminator_len(buffer) == i,
    decreases buffer.len(),
{
    if buffer.len() == 0 {
    } else if buffer[0] == 0 {
        assert(i == 0);
    } else {
        assert(i != 0);
        lemma_terminator_len_at(buffer.drop_first(), i - 1);
    }
}

/// The message carried by a diagnostic buffer: the bytes before the null
/// terminator (all of them when none is present), decoded permissively.
pub open spec fn spec_message(buffer: Seq<i8>) -> Seq<char> {
    text::decode_lossy(
        buffer.take(terminator_len(buffer)).map(|j: int, b: i8| b as u8),
    )
}

/// Relates a status code and a diagnostic buffer to the error value that
/// translation yields: the variant is fixed by the code alone and the
/// message is always the decoded buffer content.
pub open spec fn translated(code: i32, buffer: Seq<i8>, e: Error) -> bool {
    &&& (code == TRTX_ERROR_INVALID_ARGUMENT ==> (e matches Error::InvalidArgument(m) && m@
        == spec_message(buffer)))
    &&& (code == TRTX_ERROR_OUT_OF_MEMORY ==> (e matches Error::OutOfMemory(m) && m@
        == spec_message(buffer)))
    &&& (code == TRTX_ERROR_RUNTIME_ERROR ==> (e matches Error::Runtime(m) && m@ == spec_message(
        buffer,
    )))
    &&& (code == TRTX_ERROR_CUDA_ERROR ==> (e matches Error::Cuda(m) && m@ == spec_message(
        buffer,
    )))
    &&& (code != TRTX_ERROR_INVALID_ARGUMENT && code != TRTX_ERROR_OUT_OF_MEMORY && code
        != TRTX_ERROR_RUNTIME_ERROR && code != TRTX_ERROR_CUDA_ERROR ==> (e
        matches Error::Unknown(m) && m@ == spec_message(buffer)))
}

/// The message payload of an error value.
pub open spec fn error_message(e: &Error) -> Seq<char> {
    match e {
        Error::InvalidArgument(m) => m@,
        Error::OutOfMemory(m) => m@,
        Error::Runtime(m) => m@,
        Error::Cuda(m) => m@,
        Error::Unknown(m) => m@,
        Error::StringConversion(m) => m@,
        Error::Utf8(m) => m@,
        Error::Io(m) => m@,
    }
}

/// True when the two error values carry the same variant.
pub open spec fn same_variant(a: &Error, b: &Error) -> bool {
    match (a, b) {
        (Error::InvalidArgument(_), Error::InvalidArgument(_)) => true,
        (Error::OutOfMemory(_), Error::OutOfMemory(_)) => true,
        (Error::Runtime(_), Error::Runtime(_)) => true,
        (Error::Cuda(_), Error::Cuda(_)) => true,
        (Error::Unknown(_), Error::Unknown(_)) => true,
        (Error::StringConversion(_), Error::StringConversion(_)) => true,
        (Error::Utf8(_), Error::Utf8(_)) => true,
        (Error::Io(_), Error::Io(_)) => true,
        _ => false,
    }
}

/// Translation is a pure function of its inputs: any two error values
/// that satisfy the translation relation for one status code and one
/// buffer carry the same variant and the same decoded message.
pub proof fn lemma_translate_deterministic(code: i32, buffer: Seq<i8>, e1: Error, e2: Error)
    requires
        translated(code, buffer, e1),
        translated(code, buffer, e2),
    ensures
        same_variant(&e1, &e2),
        error_message(&e1) == error_message(&e2),
{
}

/// The invalid-argument status code always translates to the
/// invalid-argument variant, whatever the message buffer holds.
pub proof fn lemma_translate_invalid_argument(buffer: Seq<i8>, e: Error)
    requires
        translated(TRTX_ERROR_INVALID_ARGUMENT, buffer, e),
    ensures
        e matches Error::InvalidArgument(m) && m@ == spec_message(buffer),
{
}

/// A buffer without a null terminator is decoded in full.
pub proof fn lemma_message_unterminated(buffer: Seq<i8>)
    requires
        forall|j: int| 0 <= j < buffer.len() ==> buffer[j] != 0,
    ensures
        spec_message(buffer) == text::decode_lossy(buffer.map(|j: int, b: i8| b as u8)),
{
    lemma_terminator_len_at(buffer, buffer.len() as int);
    assert(buffer.take(buffer.len() as int) =~= buffer);
}

impl Error {
    /// Translates a native status code and its diagnostic buffer into the
    /// matching error value.
    pub fn from_ffi(code: i32, error_msg: &[i8]) -> (e: Error)
        ensures
            translated(code, error_msg@, e),
    {
        let msg = Error::parse_error_msg(error_msg);
        if code == TRTX_ERROR_INVALID_ARGUMENT {
            Error::InvalidArgument(msg)
        } else if code == TRTX_ERROR_OUT_OF_MEMORY {
            Error::OutOfMemory(msg)
        } else if code == TRTX_ERROR_RUNTIME_ERROR {
            Error::Runtime(msg)
        } else if code == TRTX_ERROR_CUDA_ERROR {
            Error::Cuda(msg)
        } else {
            Error::Unknown(msg)
        }
    }

    /// Decodes the message held by a diagnostic buffer: the bytes up to the
    /// first null byte (or the whole buffer when none is present), decoded
    /// permissively as UTF-8.
    pub fn parse_error_msg(buffer: &[i8]) -> (s: String)
        ensures
            s@ == spec_message(buffer@),
    {
        let n = buffer.len();
        let mut i: usize = 0;
        while i < n && buffer[i] != 0
            invariant
                i <= n,
                n == buffer@.len(),
                forall|j: int| 0 <= j < i ==> buffer@[j] != 0,
            decreases n - i,
        {
            i = i + 1;
        }
        proof {
            lemma_terminator_len_at(buffer@, i as int);
        }
        let mut bytes: Vec<u8> = Vec::new();
        let mut j: usize = 0;
        while j < i
            invariant
                j <= i,
                i <= n,
                n == buffer@.len(),
                bytes@.len() == j,
                forall|k: int| 0 <= k < j ==> bytes@[k] == buffer@[k] as u8,
            decreases i - j,
        {
            bytes.push(#[verifier::truncate] (buffer[j] as u8));
            j = j + 1;
        }
        proof {
            assert(bytes@ =~= buffer@.take(i as int).map(|k: int, b: i8| b as u8));
        }
        text::utf8_lossy(bytes.as_slice())
    }

    /// Renders the error as the line a diagnostic stream would carry: a
    /// fixed prefix naming the variant, then the message.
    pub fn describe(&self) -> (s: String)
        ensures
            s@ == spec_describe(self),
    {
        match self {
            Error::InvalidArgument(m) => prefixed("Invalid argument: ", m),
            Error::OutOfMemory(m) => prefixed("Out of memory: ", m),
            Error::Runtime(m) => prefixed("Runtime error: ", m),
            Error::Cuda(m) => prefixed("CUDA error: ", m),
            Error::Unknown(m) => prefixed("Unknown error: ", m),
            Error::StringConversion(m) => prefixed("String conversion error: ", m),
            Error::Utf8(m) => prefixed("UTF-8 conversion error: ", m),
            Error::Io(m) => prefixed("IO error: ", m),
        }
    }
}

/// The rendered form of an error: its variant prefix followed by its
/// message.
pub open spec fn spec_describe(e: &Error) -> Seq<char> {
    match e {
        Error::InvalidArgument(m) => "Invalid argument: "@ + m@,
        Error::OutOfMemory(m) => "Out of memory: "@ + m@,
        Error::Runtime(m) => "Runtime error: "@ + m@,
        Error::Cuda(m) => "CUDA error: "@ + m@,
        Error::Unknown(m) => "Unknown error: "@ + m@,
        Error::StringConversion(m) => "String conversion error: "@ + m@,
        Error::Utf8(m) => "UTF-8 conversion error: "@ + m@,
        Error::Io(m) => "IO error: "@ + m@,
    }
}

/// Concatenates a variant prefix and a message.
fn prefixed(prefix: &str, m: &String) -> (s: String)
    ensures
        s@ == prefix@ + m@,
{
    let mut s = prefix.to_owned();
    text::append_str(&mut s, m.as_str());
    s
}

} // verus!
