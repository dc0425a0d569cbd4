//! The machine the app runs on, as far as the logic asks about it.

use vstd::prelude::*;

verus! {

/// The systems the app runs on.
#[derive(Clone, Copy, Debug, PartialEq, Eq, Structural)]
pub enum Os {
    Linux,
    Freebsd,
    Macos,
    Windows,
    Other,
}

/// The processors the app tells apart.
#[derive(Clone, Copy, Debug, PartialEq, Eq, Structural)]
pub enum Arch {
    X64,
    Arm64,
    Other,
}

} // verus!
