//! Consensus parameters and the difficulty engine: the hard-fork version
//! schedule and the damped windowed retarget that fixes each block's
//! expected target difficulty and secondary scaling factor.

use vstd::prelude::*;

use crate::types::BLOCK_TIME_SEC;

verus! {

/// Number of recent blocks consulted by the retarget.
pub const DIFFICULTY_ADJUST_WINDOW: u64 = 60;

/// Damping factor applied to the observed window duration.
pub const DAMP_FACTOR: u64 = 3;

/// Clamp factor bounding the damped window duration around the expected
/// one.
pub const CLAMP_FACTOR: u64 = 2;

/// Smallest target difficulty ever issued.
pub const MIN_DIFFICULTY: u64 = 1;

/// Height of each scheduled hard fork: the permitted header version
/// increases by one at every multiple of this interval.
pub const HARD_FORK_INTERVAL: u64 = 100_000;

/// Secondary scaling factor before a full window exists.
pub const INITIAL_SECONDARY_SCALING: u32 = 1856;

/// One recent block's retarget inputs, newest first in a window.
#[derive(Clone, Copy, PartialEq, Eq, Structural, Debug)]
pub struct HeaderDiffInfo {
    /// The block's timestamp.
    pub timestamp: u64,
    /// The block's target difficulty (its cumulative-difficulty increment).
    pub difficulty: u64,
    /// The block's secondary scaling factor.
    pub secondary_scaling: u32,
}

/// What the next header must declare.
#[derive(Clone, Copy, PartialEq, Eq, Structural, Debug)]
pub struct NextHeaderInfo {
    /// Expected target difficulty of the next block.
    pub difficulty: u64,
    /// Expected secondary scaling factor of the next block.
    pub secondary_scaling: u32,
}

/// Whether a header version is permitted at a height: exactly the
/// version of the height's hard-fork era, starting at one.
pub open spec fn spec_valid_header_version(height: u64, version: u16) -> bool {
    version as int == height / HARD_FORK_INTERVAL + 1
}

/// Executable form of [`spec_valid_header_version`].
pub fn valid_header_version(height: u64, version: u16) -> (r: bool)
    ensures
        r == spec_valid_header_version(height, version),
{
    let era = height / HARD_FORK_INTERVAL;
    era <= u16::MAX as u64 - 1 && version as u64 == era + 1
}

/// Sum of the target difficulties of a window.
pub open spec fn diff_sum_of(s: Seq<HeaderDiffInfo>) -> int
    decreases s.len(),
{
    if s.len() == 0 {
        0
    } else {
        diff_sum_of(s.drop_last()) + s.last().difficulty
    }
}

/// The damped windowed retarget. The window lists recent blocks newest
/// first, ending at the parent of the header under validation; with fewer
/// than two entries the initial values apply. Otherwise the observed
/// window duration is damped towards, and clamped around, the expected
/// duration, and the summed window difficulty is rescaled by it.
pub open spec fn spec_next_difficulty(s: Seq<HeaderDiffInfo>) -> NextHeaderInfo {
    if s.len() < 2 {
        NextHeaderInfo { difficulty: MIN_DIFFICULTY, secondary_scaling: INITIAL_SECONDARY_SCALING }
    } else {
        let n = s.len() - 1;
        let diff_sum = diff_sum_of(s.drop_last());
        let ts: int = if s[0].timestamp > s[n as int].timestamp {
            s[0].timestamp - s[n as int].timestamp
        } else {
            0
        };
        let expected = n * BLOCK_TIME_SEC;
        let damped = (ts + (DAMP_FACTOR - 1) * expected) / (DAMP_FACTOR as int);
        let lo = expected / (CLAMP_FACTOR as int);
        let hi = expected * CLAMP_FACTOR;
        let clamped0: int = if damped < lo {
            lo
        } else if damped > hi {
            hi
        } else {
            damped
        };
        let clamped: int = if clamped0 < 1 {
            1
        } else {
            clamped0
        };
        let next = diff_sum * BLOCK_TIME_SEC / clamped;
        let nd: int = if next < MIN_DIFFICULTY {
            MIN_DIFFICULTY as int
        } else {
            next
        };
        let nd64: int = if nd > u64::MAX {
            u64::MAX as int
        } else {
            nd
        };
        NextHeaderInfo { difficulty: nd64 as u64, secondary_scaling: s[0].secondary_scaling }
    }
}

/// Executable form of [`spec_next_difficulty`].
pub fn next_difficulty(window: &Vec<HeaderDiffInfo>) -> (r: NextHeaderInfo)
    requires
        window@.len() <= DIFFICULTY_ADJUST_WINDOW + 1,
    ensures
        r == spec_next_difficulty(window@),
{
    if window.len() < 2 {
        return NextHeaderInfo {
            difficulty: MIN_DIFFICULTY,
            secondary_scaling: INITIAL_SECONDARY_SCALING,
        };
    }
    let n: usize = window.len() - 1;
    let mut diff_sum: u128 = 0;
    let mut i: usize = 0;
    while i < n
        invariant
            0 <= i <= n,
            n == window@.len() - 1,
            window@.len() <= DIFFICULTY_ADJUST_WINDOW + 1,
            diff_sum == diff_sum_of(window@.take(i as int)),
            diff_sum <= i * (u64::MAX as int),
        decreases n - i,
    {
        assert(window@.take(i as int + 1).drop_last() =~= window@.take(i as int));
        diff_sum = diff_sum + (window[i].difficulty as u128);
        i = i + 1;
    }
    assert(window@.take(n as int) =~= window@.drop_last());
    let newest = window[0].timestamp;
    let oldest = window[n].timestamp;
    let ts: u128 = if newest > oldest {
        (newest - oldest) as u128
    } else {
        0
    };
    let expected: u128 = (n as u128) * (BLOCK_TIME_SEC as u128);
    assert(expected <= 3600) by (nonlinear_arith)
        requires
            n <= 60,
            expected == (n as u128) * (BLOCK_TIME_SEC as u128),
            BLOCK_TIME_SEC == 60,
    ;
    assert(diff_sum <= 60 * (u64::MAX as u128)) by (nonlinear_arith)
        requires
            diff_sum <= n * (u64::MAX as int),
            n <= 60,
    ;
    let damped: u128 = (ts + ((DAMP_FACTOR - 1) as u128) * expected) / (DAMP_FACTOR as u128);
    let lo: u128 = expected / (CLAMP_FACTOR as u128);
    let hi: u128 = expected * (CLAMP_FACTOR as u128);
    let clamped0: u128 = if damped < lo {
        lo
    } else if damped > hi {
        hi
    } else {
        damped
    };
    let clamped: u128 = if clamped0 < 1 {
        1
    } else {
        clamped0
    };
    assert(diff_sum * (BLOCK_TIME_SEC as u128) <= u128::MAX) by (nonlinear_arith)
        requires
            diff_sum <= 60 * (u64::MAX as u128),
            BLOCK_TIME_SEC == 60,
    ;
    let next: u128 = diff_sum * (BLOCK_TIME_SEC as u128) / clamped;
    let nd: u128 = if next < MIN_DIFFICULTY as u128 {
        MIN_DIFFICULTY as u128
    } else {
        next
    };
    let nd64: u64 = if nd > u64::MAX as u128 {
        u64::MAX
    } else {
        nd as u64
    };
    NextHeaderInfo { difficulty: nd64, secondary_scaling: window[0].secondary_scaling }
}

} // verus!
