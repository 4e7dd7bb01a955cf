//! Four CKB scripts and the rules they enforce. Each script reads its transaction
//! through syscalls into a plain view of what it looks at, then decides over that view;
//! the decision is verified against its specification, and the laws that the scripts
//! promise are proved over the same specifications.
//!
//! Each script exists as first written and with its correction, told apart by [`Build`].

pub mod bytes;
pub mod hash;
pub mod syscalls;

pub mod fee_type;
pub mod owned_type;
pub mod payload_type;
pub mod timed_lock;

use vstd::prelude::*;

verus! {

/// Which of the two builds of a script runs: as first written, or with its correction.
#[derive(Clone, Copy, Debug, PartialEq, Eq, Structural)]
pub enum Build {
    /// The script as first written: the pitfall.
    Vulnerable,
    /// The script with the correction.
    Fixed,
}

} // verus!
