//! A double-ended bootstrap allocator: byte allocations grow upward from the
//! low end of one fixed region, page allocations grow downward from the high
//! end, and the two frontiers never cross.

pub mod align;
pub mod early;
pub mod hashing;
pub mod laws;

pub use early::AllocError;
pub use early::EarlyAllocator;
pub use early::RegionModel;
