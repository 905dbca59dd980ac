//! The platforms that a server runs on.

use vstd::prelude::*;

verus! {

/// The system that hosts the browsers.
#[derive(Debug, Clone, Copy, PartialEq, Eq, Structural)]
pub enum Platform {
    /// Linux, the production platform.
    Linux,
    /// macOS, for development only.
    MacOs,
}

} // verus!
