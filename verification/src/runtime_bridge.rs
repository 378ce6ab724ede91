//! The boundary to the untrusted text-generation runtime.
//!
//! The runtime is a capability that callers supply. This module holds its
//! interface, its failures, and the reading of what a runtime process left
//! behind: an exit status and the bytes it wrote.

use std::string::FromUtf8Error;
use vstd::prelude::*;
use vstd::string::StringExecFns;
use vstd::utf8::*;

verus! {

/// Why the runtime produced no text. Each variant carries a description of
/// its cause; `NonZeroExit` carries that of the exit status.
#[derive(Debug)]
pub enum RuntimeError {
    /// The runtime process could not be started.
    SpawnFailed(String),
    /// The prompt could not be written to the process.
    StdinIo(String),
    /// The output of the process could not be read.
    OutputIo(String),
    /// The process ended with a failure status.
    NonZeroExit(String),
    /// The output of the process is not UTF-8 text.
    Utf8(String),
}

impl RuntimeError {
    /// The description of the cause that the error carries.
    pub open spec fn cause(self) -> String {
        match self {
            RuntimeError::SpawnFailed(cause) => cause,
            RuntimeError::StdinIo(cause) => cause,
            RuntimeError::OutputIo(cause) => cause,
            RuntimeError::NonZeroExit(cause) => cause,
            RuntimeError::Utf8(cause) => cause,
        }
    }

    /// What the message says before it names the cause.
    pub open spec fn headline(self) -> Seq<char> {
        match self {
            RuntimeError::SpawnFailed(_) => "failed to spawn runtime process: "@,
            RuntimeError::StdinIo(_) => "failed to write prompt to runtime: "@,
            RuntimeError::OutputIo(_) => "failed to read runtime output: "@,
            RuntimeError::NonZeroExit(_) => "runtime exited with non-zero status: "@,
            RuntimeError::Utf8(_) => "runtime output was not valid UTF-8: "@,
        }
    }

    /// A message that describes the error: the headline, then the cause.
    pub fn message(&self) -> (text: String)
        ensures
            text@ == self.headline() + self.cause()@,
    {
        match self {
            RuntimeError::SpawnFailed(cause) => {
                "failed to spawn runtime process: ".to_owned().concat(cause.as_str())
            },
            RuntimeError::StdinIo(cause) => {
                "failed to write prompt to runtime: ".to_owned().concat(cause.as_str())
            },
            RuntimeError::OutputIo(cause) => {
                "failed to read runtime output: ".to_owned().concat(cause.as_str())
            },
            RuntimeError::NonZeroExit(cause) => {
                "runtime exited with non-zero status: ".to_owned().concat(cause.as_str())
            },
            RuntimeError::Utf8(cause) => {
                "runtime output was not valid UTF-8: ".to_owned().concat(cause.as_str())
            },
        }
    }
}

/// Trait for untrusted runtimes: one prompt in, one text or one failure out.
/// Nothing is promised of an implementation.
pub trait UntrustedRuntime {
    fn generate(&self, prompt: &str) -> Result<String, RuntimeError>;
}

/// `std::string::FromUtf8Error`, carried through unopened.
#[verifier::external_type_specification]
#[verifier::external_body]
pub struct ExFromUtf8Error(FromUtf8Error);

/// Calls `String::from_utf8`. Trusted: it succeeds exactly on valid UTF-8,
/// and the text then is what the bytes decode to.
#[verifier::external_body]
fn string_from_utf8(bytes: Vec<u8>) -> (decoded: Result<String, FromUtf8Error>)
    ensures
        decoded is Ok <==> valid_utf8(bytes@),
        decoded matches Ok(text) ==> text@ == decode_utf8(bytes@),
{
    String::from_utf8(bytes)
}

/// Calls `to_string` on a `FromUtf8Error`. Nothing is claimed of the text.
#[verifier::external_body]
fn describe_utf8_error(error: &FromUtf8Error) -> (text: String) {
    error.to_string()
}

/// `text` without its leading and trailing whitespace, as `str::trim` of the
/// standard library yields it.
pub uninterp spec fn trimmed(text: Seq<char>) -> Seq<char>;

/// Calls `str::trim`. Trusted: the result depends on the text alone.
#[verifier::external_body]
fn trim_text(text: &str) -> (inner: &str)
    ensures
        inner@ == trimmed(text@),
{
    text.trim()
}

/// Reads what a finished runtime process left behind. `succeeded` says
/// whether it exited with success, `status` describes its exit status, and
/// `stdout` holds the bytes it wrote.
///
/// A failure status comes first; then the bytes must be UTF-8; the text is
/// returned without surrounding whitespace.
pub fn interpret_output(succeeded: bool, status: String, stdout: Vec<u8>) -> (result: Result<
    String,
    RuntimeError,
>)
    ensures
        (match result {
            Ok(text) => succeeded && valid_utf8(stdout@) && text@ == trimmed(decode_utf8(stdout@)),
            Err(RuntimeError::NonZeroExit(cause)) => !succeeded && cause == status,
            Err(RuntimeError::Utf8(_)) => succeeded && !valid_utf8(stdout@),
            Err(_) => false,
        }),
{
    if !succeeded {
        return Err(RuntimeError::NonZeroExit(status));
    }
    match string_from_utf8(stdout) {
        Ok(text) => Ok(trim_text(text.as_str()).to_owned()),
        Err(error) => Err(RuntimeError::Utf8(describe_utf8_error(&error))),
    }
}

} // verus!
