//! The envelope of every successful JSON reply.

use crate::error::AppError;
use vstd::prelude::*;

verus! {

/// The code of a successful reply.
pub const OK_CODE: i32 = 200;

/// The message of a successful reply.
pub const OK_MESSAGE: &'static str = "success";

/// The payload of a reply that has nothing to say.
#[derive(Clone, Copy, Debug, PartialEq, Eq, Structural)]
pub struct Empty {}

/// A reply body: a code, a message, and the payload.
#[derive(Debug, Clone, PartialEq, Eq)]
pub struct ApiResponse<T> {
    pub code: i32,
    pub msg: String,
    pub data: T,
}

/// Wraps `data` as the body of a successful reply.
pub fn json_ok<T>(data: T) -> (reply: Result<ApiResponse<T>, AppError>)
    ensures
        reply matches Ok(body) && body.code == OK_CODE && body.msg@ == OK_MESSAGE@ && body.data
            == data,
{
    Ok(ApiResponse { code: OK_CODE, msg: OK_MESSAGE.to_owned(), data })
}

/// The body of a successful reply without a payload.
pub fn empty_ok() -> (reply: Result<ApiResponse<Empty>, AppError>)
    ensures
        reply matches Ok(body) && body.code == OK_CODE && body.msg@ == OK_MESSAGE@,
{
    Ok(ApiResponse { code: OK_CODE, msg: OK_MESSAGE.to_owned(), data: Empty {  } })
}

} // verus!
