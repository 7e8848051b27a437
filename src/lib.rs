//! Client-side render-state cache for a terminal session that lives on a
//! remote endpoint: per-row staleness tracking, poll backoff, batched and
//! race-safe row fetching, and serialisation of pointer events.

pub mod line;
pub mod row_cache;
pub mod lines;
pub mod poll;
pub mod mouse;
pub mod render;
pub mod tab;
