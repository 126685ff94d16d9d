//! Governance parameters: the slash percentage and the finality depth, each
//! confined to its documented range. Updates outside the ranges are rejected
//! and change nothing.

use vstd::prelude::*;

verus! {

/// The default finality depth.
pub fn default_finality_depth() -> (r: u64)
    ensures
        r == 6,
{
    6
}

/// The two governance parameters: `slash_percent` in [1, 100] and
/// `finality_depth` in [1, 10000].
pub struct GovernanceConfig {
    pub slash_percent: u64,
    pub finality_depth: u64,
}

impl GovernanceConfig {
    /// Both parameters sit inside their documented ranges.
    pub open spec fn wf(&self) -> bool {
        &&& 1 <= self.slash_percent <= 100
        &&& 1 <= self.finality_depth <= 10000
    }

    /// Replaces both parameters when each lies in its range; rejects the
    /// update and keeps the old values otherwise.
    pub fn update(&mut self, slash_percent: u64, finality_depth: u64) -> (r: bool)
        ensures
            r == (1 <= slash_percent <= 100 && 1 <= finality_depth <= 10000),
            r ==> final(self).slash_percent == slash_percent && final(self).finality_depth
                == finality_depth,
            !r ==> *final(self) == *old(self),
            old(self).wf() ==> final(self).wf(),
    {
        if 1 <= slash_percent && slash_percent <= 100 && 1 <= finality_depth && finality_depth
            <= 10000 {
            self.slash_percent = slash_percent;
            self.finality_depth = finality_depth;
            true
        } else {
            false
        }
    }
}

impl Default for GovernanceConfig {
    /// Ten percent slashes and a finality depth of six.
    fn default() -> (r: GovernanceConfig)
        ensures
            r.slash_percent == 10,
            r.finality_depth == 6,
            r.wf(),
    {
        GovernanceConfig { slash_percent: 10, finality_depth: default_finality_depth() }
    }
}

} // verus!
