//! EventSleuth core library.
//!
//! Verified building blocks of a filterable event-log viewer: the record
//! data model, the multi-criterion filter engine, the in-memory record
//! store with its filtered/sorted projection, and the decision logic of
//! the paginated, cancellable, retrying ingestion pipeline.

pub mod calendar;
pub mod channels;
pub mod constants;
pub mod error;
pub mod export;
pub mod filter;
pub mod lifecycle;
pub mod order;
pub mod pattern;
pub mod presets;
pub mod reader;
pub mod record;
pub mod stats;
pub mod store;
pub mod text;
pub mod timefmt;
pub mod xml;
