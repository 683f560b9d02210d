//! The uniform reply wrapper: a success envelope carrying a payload, and an
//! error envelope carrying only a status code and a message.

use vstd::prelude::*;

verus! {

/// The error reply shape: the HTTP status code the reply mirrors, and a
/// human-readable message.
pub struct ErrorResponse {
    pub status: i16,
    pub message: String,
}

/// The success reply shape: the HTTP status code the reply mirrors, a
/// human-readable message, and the payload of the operation.
pub struct SuccessResponse<T> {
    pub status: i16,
    pub message: String,
    pub data: T,
}

} // verus!
