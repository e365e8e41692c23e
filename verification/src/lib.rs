//! A read-only virtual filesystem that projects a remote learning-management
//! system's course catalog as a lazily expanding directory tree.
//!
//! The crate is organised around four parts: the item model (what a tree node
//! is), the content-provider capability (how remote data is obtained), the
//! projection engine (stable handles, cached children, reads), and the pure
//! helpers the host-facing adapter needs (name sanitization, shortcut files,
//! error classification).

use vstd::prelude::*;

pub mod client;
pub mod engine;
pub mod error;
pub mod item;
pub mod memory;
pub mod pages;
pub mod platform;
pub mod synth;
pub mod text;

verus! {

/// Base web address of the LMS; every relative link is resolved against it.
pub const BB_BASE_URL: &'static str = "https://learn.uq.edu.au";

} // verus!
