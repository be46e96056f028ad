//! The gateway's own logic: rate limiting, request checks, tool output
//! handling and the end of an SSE stream.
pub mod bodies;
pub mod files;
pub mod rate_limit;
pub mod routes;
pub mod streaming;
pub mod ws;
