//! The paging engine: pages and the manager of the two tiers.

pub mod laws;
pub mod memory_manager;
pub mod model;
pub mod page;

pub use page::Page;
pub use memory_manager::MemoryManager;
