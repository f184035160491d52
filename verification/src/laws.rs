//! What holds of every transcription and of every detector state.

use vstd::prelude::*;

use crate::activation::{decodable, Grid, HOP_SIZE, LOWEST_MIDI_NOTE, PITCH_BINS, SAMPLE_RATE};
use crate::detector::{all_valid, ordered, DetectorState, NoteEvent};
use crate::parameters::Parameters;
use crate::segmenter::{
    cell_events, event_of, events_through, frame_events, is_note, is_note_at, long_enough, opens,
    peak, region_end, sustains, track_state, transcription, TrackState,
};

verus! {

/// A note spans exactly the frames that sustain it: every frame after the
/// one it holds, up to its last, keeps the split sensibility and is no
/// onset, and the frame after its last, if there is one, does not.
pub proof fn note_ends_where_sustain_ends(
    onset: Grid,
    note: Grid,
    params: Parameters,
    p: int,
    f: int,
)
    requires
        0 <= f < onset.len(),
    ensures
        f <= region_end(onset, note, params, p, f) < onset.len(),
        forall|g: int|
            f < g <= region_end(onset, note, params, p, f) ==> #[trigger] sustains(
                onset,
                note,
                params,
                p,
                g,
            ),
        region_end(onset, note, params, p, f) + 1 < onset.len() ==> !sustains(
            onset,
            note,
            params,
            p,
            region_end(onset, note, params, p, f) + 1,
        ),
    decreases onset.len() - f,
{
    if f + 1 < onset.len() && sustains(onset, note, params, p, f + 1) {
        note_ends_where_sustain_ends(onset, note, params, p, f + 1);
    }
}

proof fn sustained_span_is_the_note(
    onset: Grid,
    note: Grid,
    params: Parameters,
    p: int,
    start: int,
    end: int,
)
    requires
        0 <= start <= end < onset.len(),
        forall|g: int| start < g <= end ==> #[trigger] sustains(onset, note, params, p, g),
        end + 1 < onset.len() ==> !sustains(onset, note, params, p, end + 1),
    ensures
        region_end(onset, note, params, p, start) == end,
    decreases end - start,
{
    if start < end {
        assert(sustains(onset, note, params, p, start + 1));
        sustained_span_is_the_note(onset, note, params, p, start + 1, end);
    }
}

/// A note's event is valid, starts at the note's first frame, carries its
/// pitch, and lasts at least the minimum duration.
pub proof fn note_event_is_valid(
    onset: Grid,
    note: Grid,
    params: Parameters,
    event: NoteEvent,
    p: int,
    f: int,
)
    requires
        decodable(onset, note),
        is_note_at(onset, note, params, event, p, f),
    ensures
        event.valid(),
        event.start_time == f * HOP_SIZE,
        event.midi_note == LOWEST_MIDI_NOTE + p,
        is_note(onset, note, params, event),
        (event.end_time - event.start_time) * 1000 >= params.min_note_duration_ms * SAMPLE_RATE,
{
    note_ends_where_sustain_ends(onset, note, params, p, f);
}

proof fn frame_events_are_notes(onset: Grid, note: Grid, params: Parameters, f: int, bins: int)
    requires
        decodable(onset, note),
        0 <= f < onset.len(),
        0 <= bins <= PITCH_BINS,
    ensures
        forall|i: int|
            0 <= i < frame_events(onset, note, params, f, bins).len() ==> {
                let event = #[trigger] frame_events(onset, note, params, f, bins)[i];
                &&& is_note(onset, note, params, event)
                &&& event.start_time == f * HOP_SIZE
                &&& event.midi_note < LOWEST_MIDI_NOTE + bins
            },
        ordered(frame_events(onset, note, params, f, bins)),
    decreases bins,
{
    if bins > 0 {
        frame_events_are_notes(onset, note, params, f, bins - 1);
        let head = frame_events(onset, note, params, f, bins - 1);
        let tail = cell_events(onset, note, params, f, bins - 1);
        if tail.len() > 0 {
            note_event_is_valid(onset, note, params, tail[0], bins - 1, f);
        }
        assert forall|i: int| 0 <= i < (head + tail).len() implies {
            let event = #[trigger] (head + tail)[i];
            &&& is_note(onset, note, params, event)
            &&& event.start_time == f * HOP_SIZE
            &&& event.midi_note < LOWEST_MIDI_NOTE + bins
        } by {
            if i < head.len() {
                assert((head + tail)[i] == head[i]);
            } else {
                assert((head + tail)[i] == tail[i - head.len()]);
            }
        }
        assert forall|i: int, j: int| 0 <= i < j < (head + tail).len() implies (#[trigger] (head
            + tail)[i]).precedes(#[trigger] (head + tail)[j]) by {
            if j < head.len() {
                assert((head + tail)[i] == head[i]);
                assert((head + tail)[j] == head[j]);
            } else {
                assert((head + tail)[i] == head[i]);
                assert((head + tail)[j] == tail[0]);
            }
        }
    }
}

proof fn events_through_are_notes(onset: Grid, note: Grid, params: Parameters, frames: int)
    requires
        decodable(onset, note),
        0 <= frames <= onset.len(),
    ensures
        forall|i: int|
            0 <= i < events_through(onset, note, params, frames).len() ==> {
                let event = #[trigger] events_through(onset, note, params, frames)[i];
                &&& is_note(onset, note, params, event)
                &&& event.start_time < frames * HOP_SIZE
            },
        ordered(events_through(onset, note, params, frames)),
    decreases frames,
{
    if frames > 0 {
        events_through_are_notes(onset, note, params, frames - 1);
        frame_events_are_notes(onset, note, params, frames - 1, PITCH_BINS as int);
        let head = events_through(onset, note, params, frames - 1);
        let tail = frame_events(onset, note, params, frames - 1, PITCH_BINS as int);
        assert forall|i: int| 0 <= i < (head + tail).len() implies {
            let event = #[trigger] (head + tail)[i];
            &&& is_note(onset, note, params, event)
            &&& event.start_time < frames * HOP_SIZE
        } by {
            if i < head.len() {
                assert((head + tail)[i] == head[i]);
            } else {
                assert((head + tail)[i] == tail[i - head.len()]);
            }
        }
        assert forall|i: int, j: int| 0 <= i < j < (head + tail).len() implies (#[trigger] (head
            + tail)[i]).precedes(#[trigger] (head + tail)[j]) by {
            if j < head.len() {
                assert((head + tail)[i] == head[i]);
                assert((head + tail)[j] == head[j]);
            } else if i < head.len() {
                assert((head + tail)[i] == head[i]);
                assert((head + tail)[j] == tail[j - head.len()]);
            } else {
                assert((head + tail)[i] == tail[i - head.len()]);
                assert((head + tail)[j] == tail[j - head.len()]);
            }
        }
    }
}

proof fn frame_events_hold_note(
    onset: Grid,
    note: Grid,
    params: Parameters,
    event: NoteEvent,
    p: int,
    f: int,
    bins: int,
)
    requires
        is_note_at(onset, note, params, event, p, f),
        p < bins,
    ensures
        frame_events(onset, note, params, f, bins).contains(event),
    decreases bins,
{
    let head = frame_events(onset, note, params, f, bins - 1);
    let tail = cell_events(onset, note, params, f, bins - 1);
    if p < bins - 1 {
        frame_events_hold_note(onset, note, params, event, p, f, bins - 1);
        let i = choose|i: int| 0 <= i < head.len() && head[i] == event;
        assert((head + tail)[i] == event);
    } else {
        assert(tail[0] == event);
        assert((head + tail)[head.len() as int] == event);
    }
}

proof fn events_through_hold_note(
    onset: Grid,
    note: Grid,
    params: Parameters,
    event: NoteEvent,
    p: int,
    f: int,
    frames: int,
)
    requires
        is_note_at(onset, note, params, event, p, f),
        f < frames,
    ensures
        events_through(onset, note, params, frames).contains(event),
    decreases frames,
{
    let head = events_through(onset, note, params, frames - 1);
    let tail = frame_events(onset, note, params, frames - 1, PITCH_BINS as int);
    if f < frames - 1 {
        events_through_hold_note(onset, note, params, event, p, f, frames - 1);
        let i = choose|i: int| 0 <= i < head.len() && head[i] == event;
        assert((head + tail)[i] == event);
    } else {
        frame_events_hold_note(onset, note, params, event, p, f, PITCH_BINS as int);
        let i = choose|i: int| 0 <= i < tail.len() && tail[i] == event;
        assert((head + tail)[head.len() + i] == event);
    }
}

/// A transcription holds exactly the events of the notes of its grids: an
/// event is in it if and only if a note opens at the event's frame and
/// pitch, ends where the event ends, peaks at its amplitude and lasts at
/// least the minimum duration.
pub proof fn transcription_holds_exactly_the_notes(
    onset: Grid,
    note: Grid,
    params: Parameters,
    event: NoteEvent,
)
    requires
        decodable(onset, note),
    ensures
        transcription(onset, note, params).contains(event) <==> is_note(
            onset,
            note,
            params,
            event,
        ),
{
    events_through_are_notes(onset, note, params, onset.len() as int);
    if is_note(onset, note, params, event) {
        events_through_hold_note(
            onset,
            note,
            params,
            event,
            event.midi_note - LOWEST_MIDI_NOTE,
            event.start_time as int / (HOP_SIZE as int),
            onset.len() as int,
        );
    }
}

/// A tone that opens at frame `start` of pitch bin `p`, is sustained
/// through frame `end` and no further, and lasts at least the minimum
/// duration is transcribed: as an event of that pitch, as long as the
/// frames it spans, with the highest of their note levels for amplitude.
pub proof fn sustained_tone_is_transcribed(
    onset: Grid,
    note: Grid,
    params: Parameters,
    p: int,
    start: int,
    end: int,
)
    requires
        decodable(onset, note),
        0 <= p < PITCH_BINS,
        0 <= start <= end < onset.len(),
        opens(onset, note, params, p, start),
        forall|g: int| start < g <= end ==> #[trigger] sustains(onset, note, params, p, g),
        end + 1 < onset.len() ==> !sustains(onset, note, params, p, end + 1),
        long_enough(params.min_note_duration_ms, start, end),
    ensures
        ({
            let event = event_of(p, start, end, peak(note, p, start, end));
            &&& transcription(onset, note, params).contains(event)
            &&& event.midi_note == LOWEST_MIDI_NOTE + p
            &&& event.start_time == start * HOP_SIZE
            &&& event.end_time - event.start_time == (end - start + 1) * HOP_SIZE
        }),
{
    sustained_span_is_the_note(onset, note, params, p, start, end);
    let event = event_of(p, start, end, peak(note, p, start, end));
    events_through_hold_note(onset, note, params, event, p, start, onset.len() as int);
}

/// Events in order are determined by which events they are: two ordered
/// sequences that hold the same events are the same sequence.
pub proof fn ordered_events_are_determined(a: Seq<NoteEvent>, b: Seq<NoteEvent>)
    requires
        ordered(a),
        ordered(b),
        forall|event: NoteEvent| a.contains(event) <==> b.contains(event),
    ensures
        a == b,
    decreases a.len(),
{
    if a.len() == 0 {
        if b.len() > 0 {
            assert(b.contains(b[0]));
            assert(a.contains(b[0]));
        }
        assert(a =~= b);
    } else {
        let last = a.len() - 1;
        let top = a[last];
        assert(a.contains(top));
        assert(b.contains(top));
        let k = choose|k: int| 0 <= k < b.len() && b[k] == top;
        if k < b.len() - 1 {
            let above = b[k + 1];
            assert(b[k].precedes(b[k + 1]));
            assert(b.contains(above));
            assert(a.contains(above));
            let i = choose|i: int| 0 <= i < a.len() && a[i] == above;
            if i < last {
                assert(a[i].precedes(a[last]));
            }
            assert(false);
        }
        let a0 = a.drop_last();
        let b0 = b.drop_last();
        assert forall|event: NoteEvent| a0.contains(event) <==> b0.contains(event) by {
            if a0.contains(event) {
                let i = choose|i: int| 0 <= i < a0.len() && a0[i] == event;
                assert(a[i] == event);
                assert(a[i].precedes(a[last]));
                assert(a.contains(event));
                let m = choose|m: int| 0 <= m < b.len() && b[m] == event;
                assert(b0[m] == event);
            }
            if b0.contains(event) {
                let m = choose|m: int| 0 <= m < b0.len() && b0[m] == event;
                assert(b[m] == event);
                assert(b[m].precedes(b[k]));
                assert(b.contains(event));
                let i = choose|i: int| 0 <= i < a.len() && a[i] == event;
                assert(a0[i] == event);
            }
        }
        assert(ordered(a0)) by {
            assert forall|i: int, j: int| 0 <= i < j < a0.len() implies (#[trigger] a0[i]).precedes(
                #[trigger] a0[j],
            ) by {
                assert(a[i].precedes(a[j]));
            }
        }
        assert(ordered(b0)) by {
            assert forall|i: int, j: int| 0 <= i < j < b0.len() implies (#[trigger] b0[i]).precedes(
                #[trigger] b0[j],
            ) by {
                assert(b[i].precedes(b[j]));
            }
        }
        ordered_events_are_determined(a0, b0);
        assert(a =~= a0.push(top));
        assert(b =~= b0.push(top));
    }
}

/// A transcription is the one ordered sequence that holds exactly the
/// events of the notes of its grids.
pub proof fn transcription_is_determined_by_its_notes(
    onset: Grid,
    note: Grid,
    params: Parameters,
    events: Seq<NoteEvent>,
)
    requires
        decodable(onset, note),
        ordered(events),
        forall|event: NoteEvent|
            events.contains(event) <==> is_note(onset, note, params, event),
    ensures
        events == transcription(onset, note, params),
{
    transcription_is_ordered(onset, note, params);
    assert forall|event: NoteEvent|
        events.contains(event) <==> transcription(onset, note, params).contains(event) by {
        transcription_holds_exactly_the_notes(onset, note, params, event);
    }
    ordered_events_are_determined(events, transcription(onset, note, params));
}

/// Every event of a transcription has `start_time < end_time`, a MIDI note
/// in `0..=127` and an amplitude within full scale.
pub proof fn transcription_events_are_valid(onset: Grid, note: Grid, params: Parameters)
    requires
        decodable(onset, note),
    ensures
        all_valid(transcription(onset, note, params)),
{
    events_through_are_notes(onset, note, params, onset.len() as int);
    let events = transcription(onset, note, params);
    assert forall|i: int| 0 <= i < events.len() implies (#[trigger] events[i]).valid() by {
        let event = events[i];
        note_event_is_valid(
            onset,
            note,
            params,
            event,
            event.midi_note - LOWEST_MIDI_NOTE,
            event.start_time as int / (HOP_SIZE as int),
        );
    }
}

/// A transcription ascends by start time, and by MIDI note among events
/// that start together; no two of its events share both.
pub proof fn transcription_is_ordered(onset: Grid, note: Grid, params: Parameters)
    requires
        decodable(onset, note),
    ensures
        ordered(transcription(onset, note, params)),
{
    events_through_are_notes(onset, note, params, onset.len() as int);
}

/// No event of a transcription is shorter than the minimum note duration.
pub proof fn transcription_events_last(onset: Grid, note: Grid, params: Parameters, i: int)
    requires
        decodable(onset, note),
        0 <= i < transcription(onset, note, params).len(),
    ensures
        ({
            let event = transcription(onset, note, params)[i];
            (event.end_time - event.start_time) * 1000 >= params.min_note_duration_ms * SAMPLE_RATE
        }),
{
    events_through_are_notes(onset, note, params, onset.len() as int);
    let event = transcription(onset, note, params)[i];
    note_event_is_valid(
        onset,
        note,
        params,
        event,
        event.midi_note - LOWEST_MIDI_NOTE,
        event.start_time as int / (HOP_SIZE as int),
    );
}

/// Once the minimum duration is raised above the length of an event, the
/// same grids no longer yield that event, whatever the other parameters.
pub proof fn raised_minimum_drops_event(
    onset: Grid,
    note: Grid,
    raised: Parameters,
    event: NoteEvent,
)
    requires
        decodable(onset, note),
        raised.min_note_duration_ms * SAMPLE_RATE > (event.end_time - event.start_time) * 1000,
    ensures
        !transcription(onset, note, raised).contains(event),
{
    if transcription(onset, note, raised).contains(event) {
        let i = choose|i: int|
            0 <= i < transcription(onset, note, raised).len() && transcription(
                onset,
                note,
                raised,
            )[i] == event;
        transcription_events_last(onset, note, raised, i);
    }
}

/// The highest level of a span is reached in the span and exceeded nowhere
/// in it.
pub proof fn peak_is_highest_level(note: Grid, p: int, start: int, end: int)
    requires
        start <= end,
    ensures
        forall|f: int| start <= f <= end ==> (#[trigger] note[f])[p] <= peak(note, p, start, end),
        exists|f: int| start <= f <= end && (#[trigger] note[f])[p] == peak(note, p, start, end),
    decreases end - start,
{
    if end <= start {
        assert(note[start][p] == peak(note, p, start, end));
    } else {
        peak_is_highest_level(note, p, start, end - 1);
        let before = peak(note, p, start, end - 1);
        if note[end][p] > before {
            assert(note[end][p] == peak(note, p, start, end));
        } else {
            let f = choose|f: int| start <= f <= end - 1 && (#[trigger] note[f])[p] == before;
            assert(note[f][p] == peak(note, p, start, end));
        }
    }
}

proof fn scanning_without_onset(onset: Grid, note: Grid, params: Parameters, p: int, f: int)
    requires
        forall|g: int, q: int|
            0 <= g < onset.len() && 0 <= q < PITCH_BINS ==> #[trigger] onset[g][q]
                < params.note_sensibility,
        0 <= p < PITCH_BINS,
        0 <= f <= onset.len(),
    ensures
        track_state(onset, note, params, p, f) == TrackState::Scanning,
    decreases f,
{
    if f > 0 {
        scanning_without_onset(onset, note, params, p, f - 1);
        assert(onset[f - 1][p] < params.note_sensibility);
    }
}

proof fn frame_without_onset(onset: Grid, note: Grid, params: Parameters, f: int, bins: int)
    requires
        forall|g: int, q: int|
            0 <= g < onset.len() && 0 <= q < PITCH_BINS ==> #[trigger] onset[g][q]
                < params.note_sensibility,
        0 <= f < onset.len(),
        0 <= bins <= PITCH_BINS,
    ensures
        frame_events(onset, note, params, f, bins) == Seq::<NoteEvent>::empty(),
    decreases bins,
{
    if bins > 0 {
        frame_without_onset(onset, note, params, f, bins - 1);
        scanning_without_onset(onset, note, params, bins - 1, f);
        assert(onset[f][bins - 1] < params.note_sensibility);
        assert(frame_events(onset, note, params, f, bins) =~= Seq::<NoteEvent>::empty());
    }
}

proof fn frames_without_onset(onset: Grid, note: Grid, params: Parameters, frames: int)
    requires
        forall|g: int, q: int|
            0 <= g < onset.len() && 0 <= q < PITCH_BINS ==> #[trigger] onset[g][q]
                < params.note_sensibility,
        0 <= frames <= onset.len(),
    ensures
        events_through(onset, note, params, frames) == Seq::<NoteEvent>::empty(),
    decreases frames,
{
    if frames > 0 {
        frames_without_onset(onset, note, params, frames - 1);
        frame_without_onset(onset, note, params, frames - 1, PITCH_BINS as int);
        assert(events_through(onset, note, params, frames) =~= Seq::<NoteEvent>::empty());
    }
}

/// Grids whose onset levels all stay below the note sensibility decode to
/// no event at all, whatever the note levels. This covers an empty buffer,
/// and a silent one whenever the note sensibility is above zero.
pub proof fn no_onset_no_events(onset: Grid, note: Grid, params: Parameters)
    requires
        forall|f: int, p: int|
            0 <= f < onset.len() && 0 <= p < PITCH_BINS ==> #[trigger] onset[f][p]
                < params.note_sensibility,
    ensures
        transcription(onset, note, params) == Seq::<NoteEvent>::empty(),
{
    frames_without_onset(onset, note, params, onset.len() as int);
}

proof fn region_frames_sustain(
    onset: Grid,
    note: Grid,
    params: Parameters,
    p: int,
    start: int,
    f: int,
)
    requires
        start < f <= region_end(onset, note, params, p, start),
    ensures
        sustains(onset, note, params, p, f),
        region_end(onset, note, params, p, f) == region_end(onset, note, params, p, start),
    decreases f - start,
{
    if start + 1 < f {
        region_frames_sustain(onset, note, params, p, start + 1, f);
    }
}

proof fn track_grows_through_note(
    onset: Grid,
    note: Grid,
    params: Parameters,
    p: int,
    start: int,
    f: int,
)
    requires
        0 <= start,
        opens(onset, note, params, p, start),
        start < f <= region_end(onset, note, params, p, start) + 1,
    ensures
        track_state(onset, note, params, p, f) == TrackState::Growing,
    decreases f - start,
{
    if start + 1 < f {
        track_grows_through_note(onset, note, params, p, start, f - 1);
        region_frames_sustain(onset, note, params, p, start, f - 1);
    }
}

/// Two events of one pitch never overlap: the earlier one has ended when
/// the later one starts.
pub proof fn notes_of_one_pitch_do_not_overlap(
    onset: Grid,
    note: Grid,
    params: Parameters,
    earlier: NoteEvent,
    later: NoteEvent,
)
    requires
        decodable(onset, note),
        transcription(onset, note, params).contains(earlier),
        transcription(onset, note, params).contains(later),
        earlier.midi_note == later.midi_note,
        earlier.start_time < later.start_time,
    ensures
        earlier.end_time <= later.start_time,
{
    transcription_holds_exactly_the_notes(onset, note, params, earlier);
    transcription_holds_exactly_the_notes(onset, note, params, later);
    let p = earlier.midi_note - LOWEST_MIDI_NOTE;
    let first = earlier.start_time as int / (HOP_SIZE as int);
    let second = later.start_time as int / (HOP_SIZE as int);
    note_event_is_valid(onset, note, params, earlier, p, first);
    note_event_is_valid(onset, note, params, later, p, second);
    note_ends_where_sustain_ends(onset, note, params, p, first);
    if second <= region_end(onset, note, params, p, first) {
        region_frames_sustain(onset, note, params, p, first, second);
        track_grows_through_note(onset, note, params, p, first, second);
    }
}

/// A new detector holds a consistent state.
pub proof fn initial_state_is_consistent()
    ensures
        DetectorState::initial().consistent(),
{
}

/// Whatever a detector is asked to do, a consistent state is followed by a
/// consistent state: the parameters stay in range, every stored event is
/// valid and the stored events are in order.
pub proof fn every_step_keeps_consistency(
    state: DetectorState,
    onset: Grid,
    note: Grid,
    note_sensibility: i64,
    split_sensibility: i64,
    min_note_duration_ms: i64,
)
    requires
        state.consistent(),
        decodable(onset, note),
    ensures
        state.transcribed(onset, note).consistent(),
        state.cleared().consistent(),
        state.with_parameters(
            note_sensibility,
            split_sensibility,
            min_note_duration_ms,
        ).consistent(),
{
    transcription_events_are_valid(onset, note, state.parameters);
    transcription_is_ordered(onset, note, state.parameters);
}

/// After a reset no event is stored, whatever was transcribed before, and
/// the parameters are those from before the reset.
pub proof fn reset_forgets_every_transcription(state: DetectorState, onset: Grid, note: Grid)
    ensures
        state.cleared().note_events == Seq::<NoteEvent>::empty(),
        state.transcribed(onset, note).cleared().note_events == Seq::<NoteEvent>::empty(),
        state.transcribed(onset, note).cleared().parameters == state.parameters,
{
}

/// A transcription replaces the stored events: what was stored before has
/// no part in what is stored after.
pub proof fn transcription_replaces_events(
    state: DetectorState,
    other: DetectorState,
    onset: Grid,
    note: Grid,
)
    requires
        state.parameters == other.parameters,
    ensures
        state.transcribed(onset, note) == other.transcribed(onset, note),
{
}

/// New parameters leave the stored events as they are; they show only in
/// the next transcription.
pub proof fn parameters_act_on_next_transcription(
    state: DetectorState,
    onset: Grid,
    note: Grid,
    note_sensibility: i64,
    split_sensibility: i64,
    min_note_duration_ms: i64,
)
    ensures
        state.with_parameters(
            note_sensibility,
            split_sensibility,
            min_note_duration_ms,
        ).note_events == state.note_events,
        state.with_parameters(
            note_sensibility,
            split_sensibility,
            min_note_duration_ms,
        ).transcribed(onset, note).note_events == transcription(
            onset,
            note,
            Parameters::clamped_from(note_sensibility, split_sensibility, min_note_duration_ms),
        ),
{
}

} // verus!
