//! Errors of reading and writing bytes.

use std::io;
use tokio::time::Elapsed;
use vstd::prelude::*;
use vstd::std_specs::convert::FromSpecImpl;

verus! {

/// `tokio::time::Elapsed`, the mark that a timeout leaves; carried through
/// as it comes.
#[verifier::external_type_specification]
#[verifier::external_body]
pub struct ExElapsed(Elapsed);

/// Why the transport under a reader could not deliver.
#[derive(Debug)]
pub enum IOCause {
    /// The stream ended cleanly: nothing more will arrive.
    EndOfStream,
    /// The transport failed with this error.
    Transport(io::Error),
}

#[derive(Debug)]
pub enum IOReadErrorValue {
    /// Fewer bytes are buffered than the read asks for. Nothing is wrong
    /// with the input: the read can be tried again once more has arrived.
    NotEnoughBytes,
    /// The transport ended or failed.
    IO(IOCause),
    /// The transport delivered nothing within the time allowed.
    TimeoutError(Elapsed),
}

#[derive(Debug)]
pub struct IOReadError {
    pub value: IOReadErrorValue,
}

impl From<io::Error> for IOReadError {
    fn from(error: io::Error) -> (r: Self) {
        IOReadError { value: IOReadErrorValue::IO(IOCause::Transport(error)) }
    }
}

impl FromSpecImpl<io::Error> for IOReadError {
    open spec fn obeys_from_spec() -> bool {
        true
    }

    open spec fn from_spec(error: io::Error) -> Self {
        IOReadError { value: IOReadErrorValue::IO(IOCause::Transport(error)) }
    }
}

impl From<Elapsed> for IOReadError {
    fn from(error: Elapsed) -> (r: Self) {
        IOReadError { value: IOReadErrorValue::TimeoutError(error) }
    }
}

impl FromSpecImpl<Elapsed> for IOReadError {
    open spec fn obeys_from_spec() -> bool {
        true
    }

    open spec fn from_spec(error: Elapsed) -> Self {
        IOReadError { value: IOReadErrorValue::TimeoutError(error) }
    }
}

#[derive(Debug)]
pub enum IOWriteErrorValue {
    /// The transport failed with this error.
    IO(io::Error),
    /// The transport took nothing within the time allowed.
    TimeoutError(Elapsed),
}

#[derive(Debug)]
pub struct IOWriteError {
    pub value: IOWriteErrorValue,
}

impl From<io::Error> for IOWriteError {
    fn from(error: io::Error) -> (r: Self) {
        IOWriteError { value: IOWriteErrorValue::IO(error) }
    }
}

impl FromSpecImpl<io::Error> for IOWriteError {
    open spec fn obeys_from_spec() -> bool {
        true
    }

    open spec fn from_spec(error: io::Error) -> Self {
        IOWriteError { value: IOWriteErrorValue::IO(error) }
    }
}

impl From<Elapsed> for IOWriteError {
    fn from(error: Elapsed) -> (r: Self) {
        IOWriteError { value: IOWriteErrorValue::TimeoutError(error) }
    }
}

impl FromSpecImpl<Elapsed> for IOWriteError {
    open spec fn obeys_from_spec() -> bool {
        true
    }

    open spec fn from_spec(error: Elapsed) -> Self {
        IOWriteError { value: IOWriteErrorValue::TimeoutError(error) }
    }
}

} // verus!
