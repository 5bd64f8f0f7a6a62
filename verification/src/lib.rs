//! Converts a DNS zone's resource records into declarative configuration
//! blocks for a managed-zone provider.
//!
//! The library takes plain record values (name, type, time-to-live and a
//! type-tagged payload), groups consecutive records that share a
//! (type, name) key, and renders one configuration block per accepted
//! group. Network transfer of the records and writing of the rendered
//! text are left to the caller.

pub mod emitter;
pub mod format;
pub mod grouper;
pub mod records;
pub mod text;
pub mod zone;
