//! Fetching an HTTP Live Streaming asset: resolving a manifest down to one
//! media playlist, planning the download of its segments, and the per-segment
//! transfer with resumption and bounded retries.

pub mod batch;
pub mod decimal;
pub mod manifest;
pub mod resolve;
pub mod select;
pub mod text;
pub mod transfer;
pub mod uri;
