//! The account header check of a single field: which flag bytes of the packed account
//! header must hold which value. The low byte is the duplicate marker (0xFF for a fresh
//! account), then one byte each for signer, writable and executable.

use vstd::prelude::*;
use crate::accounts::model::FieldSemantics;

verus! {

/// What the header check of one account field needs to know.
pub struct HeaderPlan {
    pub writable: bool,
    pub optional: bool,
    pub allow_dup: bool,
}

impl HeaderPlan {
    /// The header plan of a field: writable when `mut` or `init`, optional when
    /// `Option<..>`, duplicates allowed when `dup`.
    pub fn from_semantics(sem: &FieldSemantics) -> (r: HeaderPlan)
        ensures
            r.writable == sem.spec_is_writable(),
            r.optional == sem.core.optional,
            r.allow_dup == sem.core.dup,
    {
        HeaderPlan { writable: sem.is_writable(), optional: sem.core.optional, allow_dup: sem.core.dup }
    }

    /// The expected header: not a duplicate, and the signer, writable and executable bytes
    /// set to 1 where the account type (`is_signer`, `is_executable`) or the field needs
    /// them.
    pub open spec fn spec_expected(&self, is_signer: bool, is_executable: bool) -> u32 {
        0xFFu32 | (if is_signer { 1u32 << 8u32 } else { 0 }) | (if self.writable {
            1u32 << 16u32
        } else {
            0
        }) | (if is_executable {
            1u32 << 24u32
        } else {
            0
        })
    }

    /// The bytes of the header that the check compares: the duplicate marker always, and
    /// each flag byte the expected header sets.
    pub open spec fn spec_mask(&self, is_signer: bool, is_executable: bool) -> u32 {
        0xFFu32 | (if is_signer { 0xFFu32 << 8u32 } else { 0 }) | (if self.writable {
            0xFFu32 << 16u32
        } else {
            0
        }) | (if is_executable {
            0xFFu32 << 24u32
        } else {
            0
        })
    }

    /// The flag bytes alone, without the duplicate marker.
    pub open spec fn spec_flag_mask(&self, is_signer: bool, is_executable: bool) -> u32 {
        (if is_signer { 0xFFu32 << 8u32 } else { 0 }) | (if self.writable {
            0xFFu32 << 16u32
        } else {
            0
        }) | (if is_executable {
            0xFFu32 << 24u32
        } else {
            0
        })
    }

    /// The expected header.
    pub fn expected(&self, is_signer: bool, is_executable: bool) -> (r: u32)
        ensures
            r == self.spec_expected(is_signer, is_executable),
    {
        0xFFu32 | (if is_signer { 1u32 << 8u32 } else { 0 }) | (if self.writable {
            1u32 << 16u32
        } else {
            0
        }) | (if is_executable {
            1u32 << 24u32
        } else {
            0
        })
    }

    /// The mask of the compared header bytes.
    pub fn mask(&self, is_signer: bool, is_executable: bool) -> (r: u32)
        ensures
            r == self.spec_mask(is_signer, is_executable),
    {
        0xFFu32 | (if is_signer { 0xFFu32 << 8u32 } else { 0 }) | (if self.writable {
            0xFFu32 << 16u32
        } else {
            0
        }) | (if is_executable {
            0xFFu32 << 24u32
        } else {
            0
        })
    }

    /// The mask of the compared flag bytes.
    pub fn flag_mask(&self, is_signer: bool, is_executable: bool) -> (r: u32)
        ensures
            r == self.spec_flag_mask(is_signer, is_executable),
    {
        (if is_signer { 0xFFu32 << 8u32 } else { 0 }) | (if self.writable {
            0xFFu32 << 16u32
        } else {
            0
        }) | (if is_executable {
            0xFFu32 << 24u32
        } else {
            0
        })
    }
}

/// The expected header passes its own check: masking it leaves it unchanged; the flag mask
/// is the mask without the duplicate-marker byte.
pub proof fn expected_header_passes(plan: HeaderPlan, is_signer: bool, is_executable: bool)
    ensures
        plan.spec_expected(is_signer, is_executable) & plan.spec_mask(is_signer, is_executable)
            == plan.spec_expected(is_signer, is_executable),
        plan.spec_mask(is_signer, is_executable) == (plan.spec_flag_mask(is_signer, is_executable)
            | 0xFFu32),
{
    let wr = plan.writable;
    let s: u32 = if is_signer { 1 } else { 0 };
    let w: u32 = if wr { 1 } else { 0 };
    let e: u32 = if is_executable { 1 } else { 0 };
    let sm: u32 = if is_signer { 0xFF } else { 0 };
    let wm: u32 = if wr { 0xFF } else { 0 };
    let em: u32 = if is_executable { 0xFF } else { 0 };
    assert((0xFFu32 | (s << 8u32) | (w << 16u32) | (e << 24u32)) & (0xFFu32 | (sm << 8u32) | (wm
        << 16u32) | (em << 24u32)) == (0xFFu32 | (s << 8u32) | (w << 16u32) | (e << 24u32)))
        by (bit_vector)
        requires
            (s == 1 && sm == 0xFF) || (s == 0 && sm == 0),
            (w == 1 && wm == 0xFF) || (w == 0 && wm == 0),
            (e == 1 && em == 0xFF) || (e == 0 && em == 0),
    ;
    assert((if is_signer { 1u32 << 8u32 } else { 0u32 }) == s << 8u32) by (bit_vector)
        requires
            (is_signer && s == 1) || (!is_signer && s == 0),
    ;
    assert((if wr { 1u32 << 16u32 } else { 0u32 }) == w << 16u32) by (bit_vector)
        requires
            (wr && w == 1) || (!wr && w == 0),
    ;
    assert((if is_executable { 1u32 << 24u32 } else { 0u32 }) == e << 24u32) by (bit_vector)
        requires
            (is_executable && e == 1) || (!is_executable && e == 0),
    ;
    assert((if is_signer { 0xFFu32 << 8u32 } else { 0u32 }) == sm << 8u32) by (bit_vector)
        requires
            (is_signer && sm == 0xFF) || (!is_signer && sm == 0),
    ;
    assert((if wr { 0xFFu32 << 16u32 } else { 0u32 }) == wm << 16u32) by (bit_vector)
        requires
            (wr && wm == 0xFF) || (!wr && wm == 0),
    ;
    assert((if is_executable { 0xFFu32 << 24u32 } else { 0u32 }) == em << 24u32) by (bit_vector)
        requires
            (is_executable && em == 0xFF) || (!is_executable && em == 0),
    ;
    let a = if is_signer { 0xFFu32 << 8u32 } else { 0u32 };
    let b = if wr { 0xFFu32 << 16u32 } else { 0u32 };
    let c = if is_executable { 0xFFu32 << 24u32 } else { 0u32 };
    assert(0xFFu32 | a | b | c == (a | b | c) | 0xFFu32) by (bit_vector);
}

} // verus!
