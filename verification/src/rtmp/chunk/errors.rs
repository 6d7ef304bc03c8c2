//! Errors of taking chunks apart.

use crate::netio::errors::{IOReadError, IOReadErrorValue};
use vstd::prelude::*;
use vstd::std_specs::convert::FromSpecImpl;

verus! {

#[derive(Debug)]
pub enum UnpackErrorValue {
    /// The bytes at hand end before the chunk does: the reader's
    /// `NotEnoughBytes`. Nothing was consumed, and the same step can be
    /// tried again once more bytes have arrived.
    BytesReadError(IOReadError),
    /// A chunk leaves header fields to a chunk stream that has no header on
    /// record.
    UnknownChunkStream,
    /// A chunk starts a new message on a chunk stream whose last message is
    /// still short of its declared length.
    MessageInProgress,
}

#[derive(Debug)]
pub struct UnpackError {
    pub value: UnpackErrorValue,
}

impl From<IOReadError> for UnpackError {
    fn from(error: IOReadError) -> (r: Self) {
        UnpackError { value: UnpackErrorValue::BytesReadError(error) }
    }
}

impl FromSpecImpl<IOReadError> for UnpackError {
    open spec fn obeys_from_spec() -> bool {
        true
    }

    open spec fn from_spec(error: IOReadError) -> Self {
        UnpackError { value: UnpackErrorValue::BytesReadError(error) }
    }
}

/// The error of a step that found too few bytes.
pub open spec fn not_enough_bytes() -> UnpackErrorValue {
    UnpackErrorValue::BytesReadError(IOReadError { value: IOReadErrorValue::NotEnoughBytes })
}

impl UnpackError {
    /// Whether the error only says that more bytes are needed: the one kind
    /// after which the same step is to be tried again.
    pub fn is_not_enough_bytes(&self) -> (b: bool)
        ensures
            b == (self.value == not_enough_bytes()),
    {
        match &self.value {
            UnpackErrorValue::BytesReadError(error) => match &error.value {
                IOReadErrorValue::NotEnoughBytes => true,
                _ => false,
            },
            _ => false,
        }
    }
}

} // verus!
