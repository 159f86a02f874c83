//! Bearer-token authentication for an HTTP service: token issue and check,
//! credential checks, the request gate and the table of protected routes.
use vstd::prelude::*;

pub mod text;
pub mod codec;
pub mod auth;
pub mod gate;
pub mod routes;

verus! {

} // verus!
