//! The major scale: from a node index to a chromatic offset.
use vstd::prelude::*;

verus! {

/// Number of degrees in the scale; indices wrap around it.
pub const SCALE_LEN: u32 = 7;

/// Semitones above the root of each degree of the major scale:
/// `[0, 2, 4, 5, 7, 9, 11]`.
pub open spec fn degree_offset(degree: nat) -> nat {
    if degree == 0 {
        0
    } else if degree == 1 {
        2
    } else if degree == 2 {
        4
    } else if degree == 3 {
        5
    } else if degree == 4 {
        7
    } else if degree == 5 {
        9
    } else {
        11
    }
}

/// The chromatic offset of a node index: the index wraps modulo seven.
pub open spec fn chromatic_of(index: nat) -> nat {
    degree_offset(index % 7)
}

/// The major scale rooted at A4; a pitch is `440 * 2^(offset / 12)` Hz.
pub struct MajorScale;

impl MajorScale {
    /// The chromatic offset, in semitones above the root, of the scale degree
    /// that a 0-based node index falls on. Every index is accepted: it wraps
    /// modulo seven.
    pub fn to_chromatic(index: u32) -> (r: u32)
        ensures
            r as nat == chromatic_of(index as nat),
            r < 12,
    {
        let degree = index % SCALE_LEN;
        if degree == 0 {
            0
        } else if degree == 1 {
            2
        } else if degree == 2 {
            4
        } else if degree == 3 {
            5
        } else if degree == 4 {
            7
        } else if degree == 5 {
            9
        } else {
            11
        }
    }
}

/// The mapping from index to pitch repeats every seven indices.
pub proof fn lemma_scale_wraps(index: nat)
    ensures
        chromatic_of(index) == chromatic_of(index + 7),
{
    assert((index + 7) % 7 == index % 7);
}

} // verus!
