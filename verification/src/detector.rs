//! The detector: current parameters and the most recent transcription.

use vstd::prelude::*;

use crate::activation::{Activations, Grid, UNIT};
use crate::parameters::Parameters;
use crate::segmenter::{segment, transcription};

verus! {

/// One transcribed note.
///
/// Times are in sample periods, the amplitude in millionths of full scale.
#[derive(Clone, Copy, Debug, PartialEq, Eq, Structural)]
pub struct NoteEvent {
    pub start_time: u64,
    pub end_time: u64,
    pub midi_note: i32,
    pub amplitude: u32,
}

impl NoteEvent {
    /// The note has positive length, a MIDI pitch and an amplitude within
    /// full scale.
    pub open spec fn valid(self) -> bool {
        &&& self.start_time < self.end_time
        &&& 0 <= self.midi_note <= 127
        &&& self.amplitude <= UNIT
    }

    /// `self` comes strictly before `other`: by start time, then by pitch.
    pub open spec fn precedes(self, other: NoteEvent) -> bool {
        ||| self.start_time < other.start_time
        ||| (self.start_time == other.start_time && self.midi_note < other.midi_note)
    }
}

/// Every event of `events` is valid.
pub open spec fn all_valid(events: Seq<NoteEvent>) -> bool {
    forall|i: int| 0 <= i < events.len() ==> (#[trigger] events[i]).valid()
}

/// `events` ascends by start time, and by pitch among equal start times.
pub open spec fn ordered(events: Seq<NoteEvent>) -> bool {
    forall|i: int, j: int|
        0 <= i < j < events.len() ==> (#[trigger] events[i]).precedes(#[trigger] events[j])
}

/// What a detector holds, as the contracts see it.
pub struct DetectorState {
    pub parameters: Parameters,
    pub note_events: Seq<NoteEvent>,
}

impl DetectorState {
    /// The state of a new detector.
    pub open spec fn initial() -> DetectorState {
        DetectorState { parameters: Parameters::initial(), note_events: Seq::empty() }
    }

    /// What every state that a detector reaches satisfies.
    pub open spec fn consistent(self) -> bool {
        &&& self.parameters.in_range()
        &&& all_valid(self.note_events)
        &&& ordered(self.note_events)
    }

    /// The state after a request for new parameters.
    pub open spec fn with_parameters(
        self,
        note_sensibility: i64,
        split_sensibility: i64,
        min_note_duration_ms: i64,
    ) -> DetectorState {
        DetectorState {
            parameters: Parameters::clamped_from(
                note_sensibility,
                split_sensibility,
                min_note_duration_ms,
            ),
            note_events: self.note_events,
        }
    }

    /// The state after decoding the two grids.
    pub open spec fn transcribed(self, onset: Grid, note: Grid) -> DetectorState {
        DetectorState {
            parameters: self.parameters,
            note_events: transcription(onset, note, self.parameters),
        }
    }

    /// The state after a reset.
    pub open spec fn cleared(self) -> DetectorState {
        DetectorState { parameters: self.parameters, note_events: Seq::empty() }
    }
}

/// Holds the current parameters and the events of the last transcription.
pub struct PitchDetector {
    parameters: Parameters,
    events: Vec<NoteEvent>,
}

impl View for PitchDetector {
    type V = DetectorState;

    closed spec fn view(&self) -> DetectorState {
        DetectorState { parameters: self.parameters, note_events: self.events@ }
    }
}

impl PitchDetector {
    #[verifier::type_invariant]
    spec fn well_formed(&self) -> bool {
        self@.consistent()
    }

    /// A detector with the initial parameters and no events.
    pub fn new() -> (detector: PitchDetector)
        ensures
            detector@ == DetectorState::initial(),
    {
        PitchDetector {
            parameters: Parameters {
                note_sensibility: crate::parameters::DEFAULT_NOTE_SENSIBILITY,
                split_sensibility: crate::parameters::DEFAULT_SPLIT_SENSIBILITY,
                min_note_duration_ms: crate::parameters::DEFAULT_MIN_NOTE_DURATION_MS,
            },
            events: Vec::new(),
        }
    }

    /// Forgets the stored events; the parameters stay.
    pub fn reset(&mut self)
        ensures
            final(self)@ == old(self)@.cleared(),
    {
        proof {
            use_type_invariant(&*self);
        }
        self.events = Vec::new();
    }

    /// A copy of the stored events.
    pub fn note_events(&self) -> (events: Vec<NoteEvent>)
        ensures
            events@ == self@.note_events,
            all_valid(events@),
            ordered(events@),
    {
        proof {
            use_type_invariant(self);
        }
        let mut events: Vec<NoteEvent> = Vec::new();
        let mut i: usize = 0;
        while i < self.events.len()
            invariant
                i <= self.events@.len(),
                events@ == self.events@.subrange(0, i as int),
            decreases self.events@.len() - i,
        {
            events.push(self.events[i]);
            assert(events@ =~= self.events@.subrange(0, i + 1));
            i += 1;
        }
        assert(events@ =~= self.events@);
        events
    }

    /// The parameters that the next transcription will use.
    pub fn parameters(&self) -> (parameters: Parameters)
        ensures
            parameters == self@.parameters,
            parameters.in_range(),
    {
        proof {
            use_type_invariant(self);
        }
        self.parameters
    }

    /// Decodes `activations` under the current parameters and stores the
    /// result in place of the events held before.
    pub fn transcribe_to_midi(&mut self, activations: &Activations)
        ensures
            final(self)@ == old(self)@.transcribed(activations.onset(), activations.note()),
    {
        proof {
            use_type_invariant(&*self);
        }
        self.events = segment(activations, &self.parameters);
    }

    /// Replaces the parameters, each raw value clamped into its range. The
    /// stored events stay as they are.
    pub fn set_parameters(
        &mut self,
        note_sensibility: i64,
        split_sensibility: i64,
        min_note_duration_ms: i64,
    )
        ensures
            final(self)@ == old(self)@.with_parameters(
                note_sensibility,
                split_sensibility,
                min_note_duration_ms,
            ),
    {
        proof {
            use_type_invariant(&*self);
        }
        self.parameters = Parameters::clamped(
            note_sensibility,
            split_sensibility,
            min_note_duration_ms,
        );
    }
}

/// An immutable blob of model data, owned.
pub struct BinaryFile {
    data: Vec<u8>,
}

impl View for BinaryFile {
    type V = Seq<u8>;

    closed spec fn view(&self) -> Seq<u8> {
        self.data@
    }
}

impl BinaryFile {
    /// A blob holding a copy of `bytes`.
    pub fn from_bytes(bytes: &[u8]) -> (file: BinaryFile)
        ensures
            file@ == bytes@,
    {
        BinaryFile { data: vstd::slice::slice_to_vec(bytes) }
    }

    /// Number of bytes held.
    pub fn num_bytes(&self) -> (n: usize)
        ensures
            n == self@.len(),
    {
        self.data.len()
    }

    /// The bytes held.
    pub fn as_bytes(&self) -> (bytes: &[u8])
        ensures
            bytes@ == self@,
    {
        self.data.as_slice()
    }
}

} // verus!
