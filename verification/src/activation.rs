//! Activation grids: what the inference stage hands to the decoder.

use vstd::prelude::*;

verus! {

/// Number of pitch bins in every frame, one per semitone.
pub const PITCH_BINS: usize = 88;

/// MIDI note number of pitch bin 0.
pub const LOWEST_MIDI_NOTE: i32 = 21;

/// Sample periods covered by one frame.
pub const HOP_SIZE: u64 = 256;

/// Sample periods per second.
pub const SAMPLE_RATE: u64 = 22050;

/// Full scale of an activation level or an amplitude.
pub const UNIT: u32 = 1_000_000;

/// Frames after a candidate within which no onset level may exceed it.
pub const ONSET_WINDOW: usize = 2;

/// Largest frame count whose end time still fits in 64 bits.
pub const MAX_FRAMES: u64 = 0x00ff_ffff_ffff_ffff;

/// A grid as the contracts see it: one sequence of levels per frame.
pub type Grid = Seq<Seq<u32>>;

/// The grid held by a vector of rows.
pub open spec fn grid_of(rows: Vec<Vec<u32>>) -> Grid {
    Seq::new(rows@.len(), |f: int| rows@[f]@)
}

/// Every frame of `grid` has exactly `PITCH_BINS` levels.
pub open spec fn is_rectangular(grid: Grid) -> bool {
    forall|f: int| 0 <= f < grid.len() ==> (#[trigger] grid[f]).len() == PITCH_BINS
}

/// `onset` and `note` can be decoded together: same frame count, within
/// `MAX_FRAMES`, every frame `PITCH_BINS` wide.
pub open spec fn decodable(onset: Grid, note: Grid) -> bool {
    &&& onset.len() == note.len()
    &&& onset.len() <= MAX_FRAMES
    &&& is_rectangular(onset)
    &&& is_rectangular(note)
}

/// Number of frames that a buffer of `num_samples` samples spans: one for
/// every hop it starts.
pub open spec fn frames_spanning(num_samples: int) -> int {
    (num_samples + HOP_SIZE - 1) / (HOP_SIZE as int)
}

/// Computes the number of frames that a buffer of `num_samples` samples
/// spans.
pub fn frame_count(num_samples: usize) -> (frames: usize)
    ensures
        frames == frames_spanning(num_samples as int),
        (frames - 1) * HOP_SIZE < num_samples <= frames * HOP_SIZE,
{
    let hop: usize = HOP_SIZE as usize;
    let whole = num_samples / hop;
    if num_samples % hop == 0 {
        whole
    } else {
        whole + 1
    }
}

/// Why three grids were not accepted as one set of activations.
#[derive(Clone, Copy, Debug, PartialEq, Eq, Structural)]
pub enum ActivationError {
    /// The grids differ in frame count, or some frame is not `PITCH_BINS` wide.
    ShapeMismatch,
    /// There are more than `MAX_FRAMES` frames.
    TooManyFrames,
}

/// The three grids have one shape: the same number of frames, each
/// `PITCH_BINS` wide.
pub open spec fn same_shape(onset: Grid, note: Grid, contour: Grid) -> bool {
    &&& onset.len() == note.len()
    &&& onset.len() == contour.len()
    &&& is_rectangular(onset)
    &&& is_rectangular(note)
    &&& is_rectangular(contour)
}

/// The onset, note and contour grids of one audio buffer, all of one shape.
pub struct Activations {
    onset: Vec<Vec<u32>>,
    note: Vec<Vec<u32>>,
    contour: Vec<Vec<u32>>,
}

impl Activations {
    #[verifier::type_invariant]
    spec fn well_formed(&self) -> bool {
        &&& same_shape(grid_of(self.onset), grid_of(self.note), grid_of(self.contour))
        &&& self.onset@.len() <= MAX_FRAMES
    }

    /// Per-frame, per-pitch confidence that a note begins.
    pub closed spec fn onset(&self) -> Grid {
        grid_of(self.onset)
    }

    /// Per-frame, per-pitch confidence that a note is sustained.
    pub closed spec fn note(&self) -> Grid {
        grid_of(self.note)
    }

    /// Per-frame, per-pitch contour signal.
    pub closed spec fn contour(&self) -> Grid {
        grid_of(self.contour)
    }

    /// Accepts three grids of one shape; levels are in millionths of full
    /// scale.
    pub fn new(onset: Vec<Vec<u32>>, note: Vec<Vec<u32>>, contour: Vec<Vec<u32>>) -> (made: Result<
        Activations,
        ActivationError,
    >)
        ensures
            made is Ok <==> same_shape(grid_of(onset), grid_of(note), grid_of(contour))
                && onset@.len() <= MAX_FRAMES,
            made == Err::<Activations, ActivationError>(ActivationError::ShapeMismatch)
                <==> !same_shape(grid_of(onset), grid_of(note), grid_of(contour)),
            made == Err::<Activations, ActivationError>(ActivationError::TooManyFrames)
                <==> same_shape(grid_of(onset), grid_of(note), grid_of(contour)) && onset@.len()
                > MAX_FRAMES,
            made matches Ok(a) ==> a.onset() == grid_of(onset) && a.note() == grid_of(note)
                && a.contour() == grid_of(contour),
    {
        if onset.len() != note.len() || onset.len() != contour.len() {
            return Err(ActivationError::ShapeMismatch);
        }
        if !rows_are_rectangular(&onset) || !rows_are_rectangular(&note) || !rows_are_rectangular(
            &contour,
        ) {
            return Err(ActivationError::ShapeMismatch);
        }
        if onset.len() as u64 > MAX_FRAMES {
            return Err(ActivationError::TooManyFrames);
        }
        Ok(Activations { onset, note, contour })
    }

    /// Number of frames.
    pub fn frames(&self) -> (n: usize)
        ensures
            n == self.onset().len(),
            n == self.note().len(),
            n <= MAX_FRAMES,
            decodable(self.onset(), self.note()),
    {
        proof {
            use_type_invariant(self);
        }
        self.onset.len()
    }

    /// Tells whether there are as many frames as a buffer of `num_samples`
    /// samples spans.
    pub fn covers(&self, num_samples: usize) -> (yes: bool)
        ensures
            yes == (self.onset().len() == frames_spanning(num_samples as int)),
    {
        self.onset.len() == frame_count(num_samples)
    }

    /// Onset level of pitch bin `p` in frame `f`.
    pub fn onset_level(&self, f: usize, p: usize) -> (level: u32)
        requires
            f < self.onset().len(),
            p < PITCH_BINS,
        ensures
            level == self.onset()[f as int][p as int],
    {
        proof {
            use_type_invariant(self);
            assert(grid_of(self.onset)[f as int].len() == PITCH_BINS);
        }
        self.onset[f][p]
    }

    /// Note level of pitch bin `p` in frame `f`.
    pub fn note_level(&self, f: usize, p: usize) -> (level: u32)
        requires
            f < self.note().len(),
            p < PITCH_BINS,
        ensures
            level == self.note()[f as int][p as int],
    {
        proof {
            use_type_invariant(self);
            assert(grid_of(self.note)[f as int].len() == PITCH_BINS);
        }
        self.note[f][p]
    }

    /// Contour level of pitch bin `p` in frame `f`.
    pub fn contour_level(&self, f: usize, p: usize) -> (level: u32)
        requires
            f < self.contour().len(),
            p < PITCH_BINS,
        ensures
            level == self.contour()[f as int][p as int],
    {
        proof {
            use_type_invariant(self);
            assert(grid_of(self.contour)[f as int].len() == PITCH_BINS);
        }
        self.contour[f][p]
    }
}

fn rows_are_rectangular(rows: &Vec<Vec<u32>>) -> (yes: bool)
    ensures
        yes == is_rectangular(grid_of(*rows)),
{
    let mut f: usize = 0;
    while f < rows.len()
        invariant
            f <= rows@.len(),
            forall|g: int| 0 <= g < f ==> (#[trigger] grid_of(*rows)[g]).len() == PITCH_BINS,
        decreases rows@.len() - f,
    {
        if rows[f].len() != PITCH_BINS {
            assert(grid_of(*rows)[f as int].len() != PITCH_BINS);
            return false;
        }
        f += 1;
    }
    true
}

} // verus!
