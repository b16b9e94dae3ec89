//! The order of platform-tools versions as a `std::cmp::Ordering`.

use vstd::prelude::*;
use std::cmp::Ordering;
use crate::dump::{compare_parts, version_order, ToolchainVersion};

verus! {

/// The `Ordering` that a -1, 0 or 1 stands for.
pub open spec fn ordering_of(o: int) -> Ordering {
    if o < 0 {
        Ordering::Less
    } else if o == 0 {
        Ordering::Equal
    } else {
        Ordering::Greater
    }
}

impl ToolchainVersion {
    /// Compare two versions numerically, part by part, treating missing parts as zero
    /// (so `v2.0` and `v2.0.0` compare equal, and `v1.9` is older than `v1.10`).
    pub fn cmp(&self, other: &ToolchainVersion) -> (r: Ordering)
        ensures
            r == ordering_of(version_order(self.0@, other.0@)),
    {
        let o = compare_parts(&self.0, &other.0);
        if o < 0 {
            Ordering::Less
        } else if o == 0 {
            Ordering::Equal
        } else {
            Ordering::Greater
        }
    }

    /// The same order, as a partial order that always compares.
    pub fn partial_cmp(&self, other: &ToolchainVersion) -> (r: Option<Ordering>)
        ensures
            r == Some(ordering_of(version_order(self.0@, other.0@))),
    {
        Some(self.cmp(other))
    }
}

} // verus!
