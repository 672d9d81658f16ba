//! From what the store answered to what the protocol layer is told.

use vstd::prelude::*;
use crate::error::SignalProtocolError;

verus! {

/// The record that was looked up and has to be there: a record that is
/// missing is reported as `missing`, a failed lookup as the internal error
/// `failed`.
pub fn required<E>(
    found: Result<Option<Vec<u8>>, E>,
    missing: SignalProtocolError,
    failed: &'static str,
) -> (record: Result<Vec<u8>, SignalProtocolError>)
    ensures
        record == (match found {
            Ok(Some(bytes)) => Ok::<Vec<u8>, SignalProtocolError>(bytes),
            Ok(None) => Err(missing),
            Err(_) => Err(SignalProtocolError::InternalError(failed)),
        }),
{
    match found {
        Ok(Some(bytes)) => Ok(bytes),
        Ok(None) => Err(missing),
        Err(_) => Err(SignalProtocolError::InternalError(failed)),
    }
}

/// The record that was looked up and may be missing: a failed lookup is
/// reported as the internal error `failed`.
pub fn optional<E>(found: Result<Option<Vec<u8>>, E>, failed: &'static str) -> (record: Result<
    Option<Vec<u8>>,
    SignalProtocolError,
>)
    ensures
        record == (match found {
            Ok(bytes) => Ok::<Option<Vec<u8>>, SignalProtocolError>(bytes),
            Err(_) => Err(SignalProtocolError::InternalError(failed)),
        }),
{
    match found {
        Ok(bytes) => Ok(bytes),
        Err(_) => Err(SignalProtocolError::InternalError(failed)),
    }
}

/// The end of a write: a failed one is reported as the internal error
/// `failed`.
pub fn written<E>(done: Result<(), E>, failed: &'static str) -> (told: Result<
    (),
    SignalProtocolError,
>)
    ensures
        told == (match done {
            Ok(()) => Ok::<(), SignalProtocolError>(()),
            Err(_) => Err(SignalProtocolError::InternalError(failed)),
        }),
{
    match done {
        Ok(()) => Ok(()),
        Err(_) => Err(SignalProtocolError::InternalError(failed)),
    }
}

} // verus!
