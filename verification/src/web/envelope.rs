//! The response envelope: `success`, an optional message, and the payload's
//! fields beside them.
use vstd::prelude::*;

use crate::text::copy_str;

verus! {

/// A payload with no fields.
#[derive(Debug, Clone, Copy, PartialEq, Eq, Default)]
pub struct EmptyData {}

/// The envelope of every JSON response.
#[derive(Debug, Clone)]
pub struct Envelope<T> {
    pub success: bool,
    pub message: Option<String>,
    pub data: T,
}

impl Envelope<EmptyData> {
    /// Only the success flag.
    pub fn bare(success: bool) -> (r: Self)
        ensures
            r.success == success,
            r.message is None,
    {
        Envelope { success, message: None, data: EmptyData {} }
    }
}

impl<T> Envelope<T> {
    /// A success with its payload.
    pub fn ok(data: T) -> (r: Self)
        ensures
            r.success,
            r.message is None,
            r.data == data,
    {
        Envelope { success: true, message: None, data }
    }

    /// A success with its payload and a message.
    pub fn ok_with_message(data: T, message: &str) -> (r: Self)
        ensures
            r.success,
            r.message matches Some(m) && m@ == message@,
            r.data == data,
    {
        Envelope { success: true, message: Some(copy_str(message)), data }
    }

    /// A failure with a payload and a message.
    pub fn err(data: T, message: &str) -> (r: Self)
        ensures
            !r.success,
            r.message matches Some(m) && m@ == message@,
            r.data == data,
    {
        Envelope { success: false, message: Some(copy_str(message)), data }
    }
}

} // verus!
