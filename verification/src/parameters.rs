//! The three tunable thresholds of a decode pass, and how raw requests are
//! clamped into their documented ranges.

use vstd::prelude::*;

use crate::activation::UNIT;

verus! {

/// Thresholds read by a decode pass.
///
/// Both sensibilities are activation levels in millionths of full scale; the
/// minimum duration is in whole milliseconds.
#[derive(Clone, Copy, Debug, PartialEq, Eq, Structural)]
pub struct Parameters {
    pub note_sensibility: u32,
    pub split_sensibility: u32,
    pub min_note_duration_ms: u64,
}

/// Note sensibility of a freshly constructed detector.
pub const DEFAULT_NOTE_SENSIBILITY: u32 = 700_000;

/// Split sensibility of a freshly constructed detector.
pub const DEFAULT_SPLIT_SENSIBILITY: u32 = 500_000;

/// Minimum note duration of a freshly constructed detector, in milliseconds.
pub const DEFAULT_MIN_NOTE_DURATION_MS: u64 = 125;

/// The nearest level in `[0, UNIT]` to `raw`.
pub open spec fn clamp_level(raw: i64) -> u32 {
    if raw < 0 {
        0u32
    } else if raw > UNIT as i64 {
        UNIT
    } else {
        raw as u32
    }
}

/// The nearest non-negative duration to `raw`.
pub open spec fn clamp_duration(raw: i64) -> u64 {
    if raw < 0 {
        0u64
    } else {
        raw as u64
    }
}

impl Parameters {
    /// Both sensibilities lie within full scale.
    pub open spec fn in_range(self) -> bool {
        &&& self.note_sensibility <= UNIT
        &&& self.split_sensibility <= UNIT
    }

    /// The parameter set a detector starts with.
    pub open spec fn initial() -> Parameters {
        Parameters {
            note_sensibility: DEFAULT_NOTE_SENSIBILITY,
            split_sensibility: DEFAULT_SPLIT_SENSIBILITY,
            min_note_duration_ms: DEFAULT_MIN_NOTE_DURATION_MS,
        }
    }

    /// The parameter set that a request for the three raw values yields.
    pub open spec fn clamped_from(
        note_sensibility: i64,
        split_sensibility: i64,
        min_note_duration_ms: i64,
    ) -> Parameters {
        Parameters {
            note_sensibility: clamp_level(note_sensibility),
            split_sensibility: clamp_level(split_sensibility),
            min_note_duration_ms: clamp_duration(min_note_duration_ms),
        }
    }

    /// Builds a parameter set from raw values, moving each one that lies
    /// outside its range to the nearest bound.
    pub fn clamped(
        note_sensibility: i64,
        split_sensibility: i64,
        min_note_duration_ms: i64,
    ) -> (params: Parameters)
        ensures
            params == Parameters::clamped_from(
                note_sensibility,
                split_sensibility,
                min_note_duration_ms,
            ),
            params.in_range(),
    {
        Parameters {
            note_sensibility: clamp_level_exec(note_sensibility),
            split_sensibility: clamp_level_exec(split_sensibility),
            min_note_duration_ms: if min_note_duration_ms < 0 {
                0
            } else {
                min_note_duration_ms as u64
            },
        }
    }
}

fn clamp_level_exec(raw: i64) -> (level: u32)
    ensures
        level == clamp_level(raw),
        level <= UNIT,
{
    if raw < 0 {
        0
    } else if raw > UNIT as i64 {
        UNIT
    } else {
        raw as u32
    }
}

} // verus!
