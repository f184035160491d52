//! The decoding algorithm: from onset and note grids to ordered note events.
//!
//! Each pitch bin is a track of its own. A track is `Scanning` until its
//! first onset, `Growing` while a note is open, and `Released` once a note
//! was closed by a drop in the note level. A note opens at an onset, or in
//! a `Released` track at a frame whose note level has risen back to the
//! note sensibility. It extends over the following frames that hold the
//! split sensibility and are no onset themselves.

use vstd::prelude::*;

use crate::activation::{
    Activations, Grid, HOP_SIZE, LOWEST_MIDI_NOTE, MAX_FRAMES, ONSET_WINDOW, PITCH_BINS,
    SAMPLE_RATE, UNIT,
};
use crate::detector::{all_valid, ordered, NoteEvent};
use crate::laws::{
    transcription_events_are_valid, transcription_holds_exactly_the_notes,
    transcription_is_ordered,
};
use crate::parameters::Parameters;

verus! {

/// Where a pitch track stands before a frame is read.
#[derive(Clone, Copy, Debug, PartialEq, Eq, Structural)]
pub enum TrackState {
    /// No onset has been seen on this track yet.
    Scanning,
    /// The previous frame belongs to an open note.
    Growing,
    /// The last note was closed by a drop below the split sensibility.
    Released,
}

/// A note as the segmenter finds it: a pitch bin, the frames it spans and
/// the highest note level among them.
#[derive(Clone, Copy, Debug, PartialEq, Eq, Structural)]
pub struct NoteCandidate {
    pub pitch_bin: usize,
    pub start_frame: usize,
    pub end_frame: usize,
    pub peak_activation: u32,
}

impl NoteCandidate {
    /// The candidate lies on a pitch track and spans at least one frame
    /// within the frames a grid can have.
    pub open spec fn well_formed(self) -> bool {
        &&& self.pitch_bin < PITCH_BINS
        &&& self.start_frame <= self.end_frame < MAX_FRAMES
    }

    /// The event that the candidate becomes.
    pub open spec fn event(self) -> NoteEvent {
        event_of(
            self.pitch_bin as int,
            self.start_frame as int,
            self.end_frame as int,
            self.peak_activation,
        )
    }
}

/// Frame `f` of pitch bin `p` is an onset: its onset level reaches
/// `threshold` and no frame of the following `ONSET_WINDOW` exceeds it.
pub open spec fn is_onset(onset: Grid, threshold: u32, f: int, p: int) -> bool {
    &&& onset[f][p] >= threshold
    &&& forall|g: int|
        f < g <= f + ONSET_WINDOW && g < onset.len() ==> (#[trigger] onset[g])[p] <= onset[f][p]
}

/// The state that follows `state` after a frame with note level `level`
/// that is or is not an onset.
pub open spec fn next_state(state: TrackState, onset: bool, level: u32, params: Parameters)
    -> TrackState {
    if onset {
        TrackState::Growing
    } else {
        match state {
            TrackState::Scanning => TrackState::Scanning,
            TrackState::Growing => if level >= params.split_sensibility {
                TrackState::Growing
            } else {
                TrackState::Released
            },
            TrackState::Released => if level >= params.note_sensibility {
                TrackState::Growing
            } else {
                TrackState::Released
            },
        }
    }
}

/// The state of pitch track `p` once frames `0..f` have been read.
pub open spec fn track_state(onset: Grid, note: Grid, params: Parameters, p: int, f: int)
    -> TrackState
    decreases f,
{
    if f <= 0 {
        TrackState::Scanning
    } else {
        next_state(
            track_state(onset, note, params, p, f - 1),
            is_onset(onset, params.note_sensibility, f - 1, p),
            note[f - 1][p],
            params,
        )
    }
}

/// A note opens at frame `f` of pitch bin `p`.
pub open spec fn opens(onset: Grid, note: Grid, params: Parameters, p: int, f: int) -> bool {
    ||| is_onset(onset, params.note_sensibility, f, p)
    ||| (track_state(onset, note, params, p, f) == TrackState::Released && note[f][p]
        >= params.note_sensibility)
}

/// Frame `f` of pitch bin `p` extends a note that holds frame `f - 1`.
pub open spec fn sustains(onset: Grid, note: Grid, params: Parameters, p: int, f: int) -> bool {
    &&& !is_onset(onset, params.note_sensibility, f, p)
    &&& note[f][p] >= params.split_sensibility
}

/// Last frame of the note of pitch bin `p` that holds frame `f`.
pub open spec fn region_end(onset: Grid, note: Grid, params: Parameters, p: int, f: int) -> int
    decreases onset.len() - f,
{
    if f + 1 < onset.len() && sustains(onset, note, params, p, f + 1) {
        region_end(onset, note, params, p, f + 1)
    } else {
        f
    }
}

/// Highest note level of pitch bin `p` over frames `start..=end`.
pub open spec fn peak(note: Grid, p: int, start: int, end: int) -> u32
    decreases end - start,
{
    if end <= start {
        note[start][p]
    } else {
        let before = peak(note, p, start, end - 1);
        if note[end][p] > before {
            note[end][p]
        } else {
            before
        }
    }
}

/// A note over frames `start..=end` lasts at least `min_ms` milliseconds.
pub open spec fn long_enough(min_ms: u64, start: int, end: int) -> bool {
    (end - start + 1) * HOP_SIZE * 1000 >= min_ms * SAMPLE_RATE
}

/// The event of a note of pitch bin `p` over frames `start..=end` whose
/// highest note level is `level`.
pub open spec fn event_of(p: int, start: int, end: int, level: u32) -> NoteEvent {
    NoteEvent {
        start_time: (start * HOP_SIZE) as u64,
        end_time: ((end + 1) * HOP_SIZE) as u64,
        midi_note: (LOWEST_MIDI_NOTE + p) as i32,
        amplitude: if level > UNIT {
            UNIT
        } else {
            level
        },
    }
}

/// `event` is the event of the note that opens at frame `f` of pitch bin
/// `p` and passes the duration filter.
pub open spec fn is_note_at(
    onset: Grid,
    note: Grid,
    params: Parameters,
    event: NoteEvent,
    p: int,
    f: int,
) -> bool {
    let end = region_end(onset, note, params, p, f);
    &&& 0 <= p < PITCH_BINS
    &&& 0 <= f < onset.len()
    &&& opens(onset, note, params, p, f)
    &&& long_enough(params.min_note_duration_ms, f, end)
    &&& event == event_of(p, f, end, peak(note, p, f, end))
}

/// `event` is the event of a note of the two grids under `params`. Its
/// pitch bin and opening frame are read back from the event itself.
pub open spec fn is_note(onset: Grid, note: Grid, params: Parameters, event: NoteEvent) -> bool {
    is_note_at(
        onset,
        note,
        params,
        event,
        event.midi_note - LOWEST_MIDI_NOTE,
        event.start_time as int / (HOP_SIZE as int),
    )
}

/// The events that open at frame `f` of pitch bin `p`: one or none.
pub open spec fn cell_events(onset: Grid, note: Grid, params: Parameters, f: int, p: int) -> Seq<
    NoteEvent,
> {
    let end = region_end(onset, note, params, p, f);
    if opens(onset, note, params, p, f) && long_enough(params.min_note_duration_ms, f, end) {
        seq![event_of(p, f, end, peak(note, p, f, end))]
    } else {
        Seq::empty()
    }
}

/// The events that open at frame `f` in pitch bins `0..bins`, by pitch.
pub open spec fn frame_events(onset: Grid, note: Grid, params: Parameters, f: int, bins: int)
    -> Seq<NoteEvent>
    decreases bins,
{
    if bins <= 0 {
        Seq::empty()
    } else {
        frame_events(onset, note, params, f, bins - 1) + cell_events(
            onset,
            note,
            params,
            f,
            bins - 1,
        )
    }
}

/// The events that open in frames `0..frames`, by frame and then by pitch.
pub open spec fn events_through(onset: Grid, note: Grid, params: Parameters, frames: int) -> Seq<
    NoteEvent,
>
    decreases frames,
{
    if frames <= 0 {
        Seq::empty()
    } else {
        events_through(onset, note, params, frames - 1) + frame_events(
            onset,
            note,
            params,
            frames - 1,
            PITCH_BINS as int,
        )
    }
}

/// The note events that two grids decode to under `params`.
pub open spec fn transcription(onset: Grid, note: Grid, params: Parameters) -> Seq<NoteEvent> {
    events_through(onset, note, params, onset.len() as int)
}

/// Advances a track by one frame.
pub fn advance(state: TrackState, onset: bool, level: u32, params: &Parameters) -> (next:
    TrackState)
    ensures
        next == next_state(state, onset, level, *params),
{
    if onset {
        TrackState::Growing
    } else {
        match state {
            TrackState::Scanning => TrackState::Scanning,
            TrackState::Growing => if level >= params.split_sensibility {
                TrackState::Growing
            } else {
                TrackState::Released
            },
            TrackState::Released => if level >= params.note_sensibility {
                TrackState::Growing
            } else {
                TrackState::Released
            },
        }
    }
}

/// Tells whether frame `f` of pitch bin `p` is an onset.
pub fn detect_onset(acts: &Activations, threshold: u32, f: usize, p: usize) -> (found: bool)
    requires
        f < acts.onset().len(),
        p < PITCH_BINS,
    ensures
        found == is_onset(acts.onset(), threshold, f as int, p as int),
{
    let frames = acts.frames();
    let here = acts.onset_level(f, p);
    if here < threshold {
        return false;
    }
    let mut g: usize = f + 1;
    while g < frames && g - f <= ONSET_WINDOW
        invariant
            f < g,
            frames == acts.onset().len(),
            frames <= MAX_FRAMES,
            p < PITCH_BINS,
            here == acts.onset()[f as int][p as int],
            forall|h: int| f < h < g ==> (#[trigger] acts.onset()[h])[p as int] <= here,
        decreases frames - g,
    {
        if acts.onset_level(g, p) > here {
            return false;
        }
        g += 1;
    }
    true
}

/// Grows the note of pitch bin `p` that opens at frame `f` to its last
/// frame, and finds its highest note level.
pub fn grow(acts: &Activations, params: &Parameters, f: usize, p: usize) -> (found: NoteCandidate)
    requires
        f < acts.onset().len(),
        p < PITCH_BINS,
    ensures
        found.well_formed(),
        found.pitch_bin == p,
        found.start_frame == f,
        found.end_frame < acts.onset().len(),
        found.end_frame == region_end(acts.onset(), acts.note(), *params, p as int, f as int),
        found.peak_activation == peak(acts.note(), p as int, f as int, found.end_frame as int),
{
    let frames = acts.frames();
    let mut end: usize = f;
    let mut level: u32 = acts.note_level(f, p);
    while end + 1 < frames
        invariant
            f <= end < frames,
            frames == acts.onset().len(),
            frames == acts.note().len(),
            frames <= MAX_FRAMES,
            p < PITCH_BINS,
            region_end(acts.onset(), acts.note(), *params, p as int, end as int) == region_end(
                acts.onset(),
                acts.note(),
                *params,
                p as int,
                f as int,
            ),
            level == peak(acts.note(), p as int, f as int, end as int),
        ensures
            f <= end < frames,
            end == region_end(acts.onset(), acts.note(), *params, p as int, f as int),
            level == peak(acts.note(), p as int, f as int, end as int),
        decreases frames - end,
    {
        let next = acts.note_level(end + 1, p);
        if next < params.split_sensibility || detect_onset(
            acts,
            params.note_sensibility,
            end + 1,
            p,
        ) {
            break ;
        }
        end += 1;
        if next > level {
            level = next;
        }
    }
    NoteCandidate { pitch_bin: p, start_frame: f, end_frame: end, peak_activation: level }
}

/// Tells whether a candidate passes the duration filter.
pub fn lasts(min_ms: u64, candidate: &NoteCandidate) -> (yes: bool)
    requires
        candidate.start_frame <= candidate.end_frame,
    ensures
        yes == long_enough(min_ms, candidate.start_frame as int, candidate.end_frame as int),
{
    let span: u128 = (candidate.end_frame - candidate.start_frame) as u128 + 1;
    let hop: u128 = HOP_SIZE as u128;
    let rate: u128 = SAMPLE_RATE as u128;
    assert(hop == 256 && rate == 22050);
    span * hop * 1000 >= (min_ms as u128) * rate
}

/// The MIDI note number of a pitch bin: bins ascend by semitones from
/// `LOWEST_MIDI_NOTE`, so no two bins share a note.
pub fn pitch_bin_to_midi(pitch_bin: usize) -> (midi: i32)
    requires
        pitch_bin < PITCH_BINS,
    ensures
        midi == LOWEST_MIDI_NOTE + pitch_bin,
        0 <= midi <= 127,
{
    LOWEST_MIDI_NOTE + pitch_bin as i32
}

/// Builds the event of a candidate: frames become sample periods, the
/// pitch bin a MIDI note, the peak an amplitude within full scale.
pub fn build_event(candidate: &NoteCandidate) -> (event: NoteEvent)
    requires
        candidate.well_formed(),
    ensures
        event == candidate.event(),
        event.valid(),
        event.start_time == candidate.start_frame * HOP_SIZE,
        event.end_time == (candidate.end_frame + 1) * HOP_SIZE,
        event.midi_note == LOWEST_MIDI_NOTE + candidate.pitch_bin,
{
    NoteEvent {
        start_time: candidate.start_frame as u64 * HOP_SIZE,
        end_time: (candidate.end_frame as u64 + 1) * HOP_SIZE,
        midi_note: pitch_bin_to_midi(candidate.pitch_bin),
        amplitude: if candidate.peak_activation > UNIT {
            UNIT
        } else {
            candidate.peak_activation
        },
    }
}

/// Decodes one set of activations into its note events.
pub fn segment(acts: &Activations, params: &Parameters) -> (events: Vec<NoteEvent>)
    ensures
        events@ == transcription(acts.onset(), acts.note(), *params),
        forall|event: NoteEvent|
            events@.contains(event) <==> is_note(acts.onset(), acts.note(), *params, event),
        all_valid(events@),
        ordered(events@),
{
    let frames = acts.frames();
    proof {
        transcription_events_are_valid(acts.onset(), acts.note(), *params);
        transcription_is_ordered(acts.onset(), acts.note(), *params);
        assert forall|event: NoteEvent|
            transcription(acts.onset(), acts.note(), *params).contains(event) <==> is_note(
                acts.onset(),
                acts.note(),
                *params,
                event,
            ) by {
            transcription_holds_exactly_the_notes(acts.onset(), acts.note(), *params, event);
        }
    }
    let mut states: Vec<TrackState> = Vec::new();
    let mut b: usize = 0;
    while b < PITCH_BINS
        invariant
            b <= PITCH_BINS,
            states@.len() == b,
            forall|q: int| 0 <= q < b ==> states@[q] == TrackState::Scanning,
        decreases PITCH_BINS - b,
    {
        states.push(TrackState::Scanning);
        b += 1;
    }
    let mut events: Vec<NoteEvent> = Vec::new();
    let mut f: usize = 0;
    while f < frames
        invariant
            f <= frames,
            frames == acts.onset().len(),
            frames == acts.note().len(),
            frames <= MAX_FRAMES,
            states@.len() == PITCH_BINS,
            forall|q: int|
                0 <= q < PITCH_BINS ==> states@[q] == track_state(
                    acts.onset(),
                    acts.note(),
                    *params,
                    q,
                    f as int,
                ),
            events@ == events_through(acts.onset(), acts.note(), *params, f as int),
        decreases frames - f,
    {
        let mut p: usize = 0;
        while p < PITCH_BINS
            invariant
                p <= PITCH_BINS,
                f < frames,
                frames == acts.onset().len(),
                frames == acts.note().len(),
                frames <= MAX_FRAMES,
                states@.len() == PITCH_BINS,
                forall|q: int|
                    0 <= q < p ==> states@[q] == track_state(
                        acts.onset(),
                        acts.note(),
                        *params,
                        q,
                        f + 1,
                    ),
                forall|q: int|
                    p <= q < PITCH_BINS ==> states@[q] == track_state(
                        acts.onset(),
                        acts.note(),
                        *params,
                        q,
                        f as int,
                    ),
                events@ == events_through(acts.onset(), acts.note(), *params, f as int)
                    + frame_events(acts.onset(), acts.note(), *params, f as int, p as int),
            decreases PITCH_BINS - p,
        {
            let onset = detect_onset(acts, params.note_sensibility, f, p);
            let level = acts.note_level(f, p);
            let state = states[p];
            let rearticulated = match state {
                TrackState::Released => level >= params.note_sensibility,
                _ => false,
            };
            let ghost before = events@;
            if onset || rearticulated {
                let candidate = grow(acts, params, f, p);
                if lasts(params.min_note_duration_ms, &candidate) {
                    events.push(build_event(&candidate));
                }
            }
            proof {
                assert(events@ =~= before + cell_events(
                    acts.onset(),
                    acts.note(),
                    *params,
                    f as int,
                    p as int,
                ));
                assert(events@ =~= events_through(acts.onset(), acts.note(), *params, f as int)
                    + frame_events(acts.onset(), acts.note(), *params, f as int, p + 1));
            }
            states.set(p, advance(state, onset, level, params));
            p += 1;
        }
        f += 1;
    }
    events
}

} // verus!
