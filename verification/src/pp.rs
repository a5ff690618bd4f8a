//! Inputs of the performance-point calculation, and the integer part of the
//! accuracy of a score. The curves of the calculation itself are floating
//! point and are not part of this library.

use vstd::prelude::*;
use crate::enums::{Mode, Mods};

verus! {

/// Type of difficulty used for calculation
#[derive(Debug, Clone, Copy, PartialEq, Eq, Structural)]
pub enum DiffType {
    /// Speed
    Speed,
    /// Aim
    Aim,
}

/// Score version
#[derive(Debug, Clone, Copy, PartialEq, Eq, Structural)]
pub enum ScoreVersion {
    /// Scorev1
    V1,
    /// Scorev2
    V2,
}

/// Params to be passed to pp calc
#[derive(Debug, Clone, Copy, PartialEq, Eq, Structural)]
pub struct PPCalcParams {
    /// Max combo earned for the score to be calculated
    pub combo: u32,
    /// Number of 300s
    pub n300: u32,
    /// Number of 100s
    pub n100: u32,
    /// Number of 50s
    pub n50: u32,
    /// Number of misses
    pub nmiss: u32,
    /// Game mode
    pub mode: Mode,
    /// Mods used during this score
    pub mods: Mods,
    /// Score version
    pub score_version: ScoreVersion,
}

/// The accuracy of a score as a fraction: a 300 counts 6, a 100 counts 2, a
/// 50 counts 1 and a miss 0, out of 6 for every object. The accuracy is the
/// first number over the second, and 0 when the second is 0 (no objects).
pub fn accuracy_fraction(n300: u32, n100: u32, n50: u32, nmiss: u32) -> (r: (u64, u64))
    ensures
        r.0 == 6 * n300 + 2 * n100 + n50,
        r.1 == 6 * (n300 + n100 + n50 + nmiss),
        r.0 <= r.1,
{
    let hits: u64 = 6 * (n300 as u64) + 2 * (n100 as u64) + (n50 as u64);
    let total: u64 = 6 * ((n300 as u64) + (n100 as u64) + (n50 as u64) + (nmiss as u64));
    (hits, total)
}

} // verus!
