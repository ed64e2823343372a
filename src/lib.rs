//! A durable store of event records: ids from a durable counter, records kept
//! as bytes in a durable ordered map, and owner-only update and delete.

pub mod codec;
mod durable;
pub mod event;
pub mod laws;
pub mod store;
