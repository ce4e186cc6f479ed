//! Hardening of the process against those who would read its memory.

use vstd::prelude::*;

pub mod linux;
pub mod macos;

verus! {

/// Why the process could not be hardened.
#[derive(Debug, Clone, PartialEq, Eq)]
pub struct IsolationError {
    pub message: String,
}

} // verus!
