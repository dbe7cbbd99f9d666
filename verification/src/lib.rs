//! Session authentication for a web backend: a signed, expiring credential,
//! a password verifier, the login decision, and the request pipeline that
//! guards protected routes.

pub mod clock;
pub mod codec;
pub mod encoding;
pub mod error;
pub mod exchange;
pub mod guard;
pub mod hoops;
pub mod models;
pub mod password;
pub mod pipeline;
pub mod response;
pub mod routers;

pub use error::AppError;
pub use response::{empty_ok, json_ok, ApiResponse, Empty};
