//! A minimal embeddable HTTP server core: a route table with exact
//! (method, path) dispatch, response construction for static files, and a
//! publisher that mirrors a directory tree onto GET routes.

pub mod fs;
pub mod options;
pub mod router;
pub mod server;

use vstd::prelude::*;

verus! {

} // verus!
