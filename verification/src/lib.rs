//! Resource- and privilege-control core of a microkernel.
//!
//! Every I/O object is reached through a scheme, every process or thread is a
//! [`context::Context`] that owns a bounded table of resource handles, and
//! scheme-defined permissions are carried by ordered capabilities.

pub mod bytes;
pub mod capability;
pub mod context;
pub mod cpu;
pub mod data;
pub mod error;
pub mod kind;
pub mod number;
pub mod path;
pub mod resource;
pub mod scheme;

pub use crate::cpu::cpu_id;
