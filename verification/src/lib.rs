//! Plans the assembly of a store-only ZIP archive from an ordered list of entries.
//!
//! Each entry names one archive member and says where its bytes come from:
//! text held in memory, or a file that is streamed in chunk by chunk. The
//! library decides what is done and in which order, and what a failure of each
//! operation means; the caller does the file and archive work that an
//! [`plan::Action`] names and reports how it went.

pub mod entry;
pub mod error;
pub mod laws;
pub mod member;
pub mod plan;
pub mod step;
