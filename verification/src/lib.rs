//! Structured catalog of kernel parameters drawn from the kernel's sysctl
//! documentation.

pub mod catalog;
pub mod config;
pub mod docs;
pub mod error;
pub mod extract;
pub mod parameter;
pub mod scan;
pub mod section;
pub mod text;
