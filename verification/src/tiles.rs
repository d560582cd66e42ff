//! Map tiles: where they come from, how they are requested and queued, and the
//! cache that keeps them.

pub mod source;
pub mod request;
pub mod queue;
pub mod tile;
pub mod table;
pub mod cache;
pub mod fetch;
pub mod flush;
pub mod worker;

