//! The legacy system-call surface.

pub mod api;
pub mod types;
