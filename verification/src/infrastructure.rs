//! What stands between a request and the records: the guard, the handlers
//! and the table of routes.

pub mod middleware;
pub mod quotes;
pub mod reply;
pub mod routes;
pub mod setup;
