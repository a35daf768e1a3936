//! Object-centric event logs behind handles: their metadata, their tables page by page as JSON, and
//! whole tables as Arrow IPC streams.
pub mod arrow;
pub mod bridge;
pub mod definitions;
pub mod json;
pub mod laws;
pub mod metadata;
pub mod names;
pub mod ocel;
pub mod query;
pub mod registry;
pub mod rows;
pub mod text;
