pub mod addr;
pub mod hhdm;
pub mod paging;
pub mod frame_allocator;
pub mod mmio;
pub mod allocator;
