//! Memory allocation for code that runs on top of firmware boot services,
//! before an operating system exists.
//!
//! A capacity-limited front allocator serves requests; when it runs dry, the
//! restocking allocator pulls more physical pages from the firmware (while
//! boot services are still active) or scavenges the captured memory map
//! (after they have been revoked), donates them, and retries once.
use vstd::prelude::*;

pub mod allocator;
pub mod boot_services;
pub mod bump;
pub mod console;
pub mod protocol;

pub use allocator::{Allocator, FrontAllocator, PhysicalAddress};
