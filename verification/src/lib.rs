//! A simulated two-tier memory manager.
//!
//! A bounded primary tier is backed by an unbounded secondary tier; pages move
//! between the two under a first-in, first-out admission and eviction policy.

pub mod algorithms;
pub mod clock;
pub mod kv_store;
pub mod file_handler;
pub mod process_manager;
