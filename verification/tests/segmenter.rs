use basic_pitch::activation::{frame_count, ActivationError, Activations, PITCH_BINS, UNIT};
use basic_pitch::detector::NoteEvent;
use basic_pitch::parameters::Parameters;
use basic_pitch::segmenter::{
    advance, build_event, detect_onset, grow, lasts, segment, NoteCandidate, TrackState,
};

fn blank(frames: usize) -> Vec<Vec<u32>> {
    vec![vec![0u32; PITCH_BINS]; frames]
}

fn fill(grid: &mut Vec<Vec<u32>>, bin: usize, first: usize, last: usize, level: u32) {
    for f in first..=last {
        grid[f][bin] = level;
    }
}

fn activations(onset: Vec<Vec<u32>>, note: Vec<Vec<u32>>) -> Activations {
    let contour = blank(onset.len());
    match Activations::new(onset, note, contour) {
        Ok(a) => a,
        Err(e) => panic!("grids refused: {:?}", e),
    }
}

fn candidate(bin: usize, first: usize, last: usize, peak: u32) -> NoteCandidate {
    NoteCandidate { pitch_bin: bin, start_frame: first, end_frame: last, peak_activation: peak }
}

fn params(note: u32, split: u32, min_ms: u64) -> Parameters {
    Parameters { note_sensibility: note, split_sensibility: split, min_note_duration_ms: min_ms }
}

#[test]
fn silent_grids_give_no_event() {
    let acts = activations(blank(100), blank(100));
    assert_eq!(segment(&acts, &params(700_000, 500_000, 125)), vec![]);
}

#[test]
fn no_frames_give_no_event() {
    let acts = activations(blank(0), blank(0));
    assert_eq!(segment(&acts, &params(0, 0, 0)), vec![]);
}

#[test]
fn zero_threshold_makes_silence_sound() {
    let acts = activations(blank(1), blank(1));
    let events = segment(&acts, &params(0, 0, 0));
    assert_eq!(events.len(), PITCH_BINS);
    assert_eq!(
        events[0],
        NoteEvent { start_time: 0, end_time: 256, midi_note: 21, amplitude: 0 }
    );
    assert_eq!(
        events[87],
        NoteEvent { start_time: 0, end_time: 256, midi_note: 108, amplitude: 0 }
    );
}

#[test]
fn sustained_tone_is_one_event() {
    let mut onset = blank(87);
    let mut note = blank(87);
    onset[20][48] = 900_000;
    fill(&mut note, 48, 20, 58, 800_000);
    note[30][48] = 950_000;
    let acts = activations(onset, note);
    let events = segment(&acts, &params(500_000, 500_000, 100));
    assert_eq!(
        events,
        vec![NoteEvent { start_time: 5120, end_time: 15104, midi_note: 69, amplitude: 950_000 }]
    );
}

#[test]
fn note_without_onset_stays_silent() {
    let onset = blank(50);
    let mut note = blank(50);
    fill(&mut note, 10, 5, 40, 990_000);
    let acts = activations(onset, note);
    assert_eq!(segment(&acts, &params(700_000, 500_000, 0)), vec![]);
}

#[test]
fn onset_is_the_local_maximum() {
    let mut onset = blank(10);
    let note = blank(10);
    onset[2][0] = 600_000;
    onset[3][0] = 800_000;
    onset[4][0] = 900_000;
    onset[5][0] = 650_000;
    onset[6][0] = 100_000;
    let acts = activations(onset, note);
    assert!(!detect_onset(&acts, 500_000, 2, 0));
    assert!(!detect_onset(&acts, 500_000, 3, 0));
    assert!(detect_onset(&acts, 500_000, 4, 0));
    assert!(detect_onset(&acts, 500_000, 5, 0));
    assert!(!detect_onset(&acts, 500_000, 6, 0));
    assert!(!detect_onset(&acts, 950_000, 4, 0));
}

#[test]
fn onset_window_reaches_two_frames() {
    let mut onset = blank(10);
    onset[1][3] = 700_000;
    onset[3][3] = 700_001;
    onset[5][3] = 700_000;
    onset[8][3] = 700_001;
    onset[9][3] = 700_000;
    let acts = activations(onset, blank(10));
    assert!(!detect_onset(&acts, 700_000, 1, 3));
    assert!(detect_onset(&acts, 700_000, 3, 3));
    assert!(detect_onset(&acts, 700_000, 5, 3));
    assert!(detect_onset(&acts, 700_000, 9, 3));
}

#[test]
fn new_onset_closes_the_open_note() {
    let mut onset = blank(40);
    let mut note = blank(40);
    onset[5][12] = 900_000;
    onset[20][12] = 900_000;
    fill(&mut note, 12, 5, 30, 600_000);
    let acts = activations(onset, note);
    let events = segment(&acts, &params(700_000, 500_000, 0));
    assert_eq!(
        events,
        vec![
            NoteEvent {
                start_time: 5 * 256,
                end_time: 20 * 256,
                midi_note: 33,
                amplitude: 600_000
            },
            NoteEvent {
                start_time: 20 * 256,
                end_time: 31 * 256,
                midi_note: 33,
                amplitude: 600_000
            },
        ]
    );
}

#[test]
fn dip_and_rise_split_the_note() {
    let mut onset = blank(40);
    let mut note = blank(40);
    onset[5][12] = 900_000;
    fill(&mut note, 12, 5, 14, 600_000);
    fill(&mut note, 12, 15, 17, 400_000);
    fill(&mut note, 12, 18, 19, 600_000);
    fill(&mut note, 12, 20, 29, 750_000);
    let acts = activations(onset, note);
    let events = segment(&acts, &params(700_000, 500_000, 0));
    assert_eq!(
        events,
        vec![
            NoteEvent {
                start_time: 5 * 256,
                end_time: 15 * 256,
                midi_note: 33,
                amplitude: 600_000
            },
            NoteEvent {
                start_time: 20 * 256,
                end_time: 30 * 256,
                midi_note: 33,
                amplitude: 750_000
            },
        ]
    );
}

#[test]
fn short_notes_are_filtered() {
    let mut onset = blank(40);
    let mut note = blank(40);
    onset[0][0] = 900_000;
    fill(&mut note, 0, 0, 9, 600_000);
    onset[0][1] = 900_000;
    fill(&mut note, 1, 0, 10, 600_000);
    let acts = activations(onset, note);
    let events = segment(&acts, &params(700_000, 500_000, 125));
    assert_eq!(
        events,
        vec![NoteEvent { start_time: 0, end_time: 11 * 256, midi_note: 22, amplitude: 600_000 }]
    );
}

#[test]
fn events_come_by_start_then_pitch() {
    let mut onset = blank(30);
    let mut note = blank(30);
    for (bin, first, last) in [(80usize, 3usize, 9usize), (2, 10, 20), (40, 3, 25), (5, 0, 1)] {
        onset[first][bin] = 800_000;
        fill(&mut note, bin, first, last, 700_000);
    }
    let acts = activations(onset, note);
    let events = segment(&acts, &params(700_000, 500_000, 0));
    let keys: Vec<(u64, i32)> = events.iter().map(|e| (e.start_time, e.midi_note)).collect();
    assert_eq!(keys, vec![(0, 26), (768, 61), (768, 101), (2560, 23)]);
    for e in &events {
        assert!(e.start_time < e.end_time);
        assert!(0 <= e.midi_note && e.midi_note <= 127);
        assert!(e.amplitude <= UNIT);
    }
}

#[test]
fn amplitude_is_clamped_to_full_scale() {
    let mut onset = blank(4);
    let mut note = blank(4);
    onset[1][7] = 3_000_000;
    fill(&mut note, 7, 1, 2, 2_500_000);
    let acts = activations(onset, note);
    let events = segment(&acts, &params(700_000, 500_000, 0));
    assert_eq!(
        events,
        vec![NoteEvent { start_time: 256, end_time: 768, midi_note: 28, amplitude: UNIT }]
    );
}

#[test]
fn onset_opens_a_note_even_on_a_low_note_level() {
    let mut onset = blank(4);
    let note = blank(4);
    onset[2][0] = 800_000;
    let acts = activations(onset, note);
    let events = segment(&acts, &params(700_000, 500_000, 0));
    assert_eq!(
        events,
        vec![NoteEvent { start_time: 512, end_time: 768, midi_note: 21, amplitude: 0 }]
    );
}

#[test]
fn grow_finds_end_and_peak() {
    let mut onset = blank(20);
    let mut note = blank(20);
    onset[4][9] = 800_000;
    fill(&mut note, 9, 4, 12, 550_000);
    note[7][9] = 640_000;
    note[13][9] = 499_999;
    let acts = activations(onset, note);
    assert_eq!(grow(&acts, &params(700_000, 500_000, 0), 4, 9), candidate(9, 4, 12, 640_000));
    assert_eq!(grow(&acts, &params(700_000, 600_000, 0), 4, 9), candidate(9, 4, 4, 550_000));
    assert_eq!(grow(&acts, &params(700_000, 0, 0), 4, 9), candidate(9, 4, 19, 640_000));
}

#[test]
fn duration_filter_is_exact() {
    assert!(lasts(0, &candidate(0, 3, 3, 0)));
    assert!(!lasts(125, &candidate(0, 0, 9, 0)));
    assert!(lasts(125, &candidate(0, 0, 10, 0)));
    assert!(lasts(11, &candidate(0, 0, 0, 0)));
    assert!(!lasts(12, &candidate(0, 0, 0, 0)));
    assert!(!lasts(u64::MAX, &candidate(0, 0, 1000, 0)));
}

#[test]
fn event_is_built_in_sample_periods() {
    assert_eq!(
        build_event(&candidate(48, 20, 58, 900_000)),
        NoteEvent { start_time: 5120, end_time: 15104, midi_note: 69, amplitude: 900_000 }
    );
    assert_eq!(
        build_event(&candidate(0, 0, 0, 1_000_001)),
        NoteEvent { start_time: 0, end_time: 256, midi_note: 21, amplitude: 1_000_000 }
    );
    assert_eq!(build_event(&candidate(87, 1, 1, 0)).midi_note, 108);
}

#[test]
fn track_advances_as_the_state_machine_says() {
    let p = params(700_000, 500_000, 0);
    assert_eq!(advance(TrackState::Scanning, false, 999_999, &p), TrackState::Scanning);
    assert_eq!(advance(TrackState::Scanning, true, 0, &p), TrackState::Growing);
    assert_eq!(advance(TrackState::Growing, false, 500_000, &p), TrackState::Growing);
    assert_eq!(advance(TrackState::Growing, false, 499_999, &p), TrackState::Released);
    assert_eq!(advance(TrackState::Growing, true, 0, &p), TrackState::Growing);
    assert_eq!(advance(TrackState::Released, false, 699_999, &p), TrackState::Released);
    assert_eq!(advance(TrackState::Released, false, 700_000, &p), TrackState::Growing);
    assert_eq!(advance(TrackState::Released, true, 0, &p), TrackState::Growing);
}

#[test]
fn grids_of_different_shape_are_refused() {
    assert!(matches!(
        Activations::new(blank(3), blank(4), blank(3)),
        Err(ActivationError::ShapeMismatch)
    ));
    assert!(matches!(
        Activations::new(blank(3), blank(3), blank(2)),
        Err(ActivationError::ShapeMismatch)
    ));
    let mut ragged = blank(3);
    ragged[1].push(0);
    assert!(matches!(
        Activations::new(blank(3), ragged, blank(3)),
        Err(ActivationError::ShapeMismatch)
    ));
    assert!(Activations::new(blank(3), blank(3), blank(3)).is_ok());
}

#[test]
fn levels_are_read_back() {
    let mut onset = blank(2);
    let mut note = blank(2);
    let mut contour = blank(2);
    onset[1][87] = 1;
    note[0][3] = 2;
    contour[1][0] = 3;
    let acts = match Activations::new(onset, note, contour) {
        Ok(a) => a,
        Err(e) => panic!("grids refused: {:?}", e),
    };
    assert_eq!(acts.frames(), 2);
    assert_eq!(acts.onset_level(1, 87), 1);
    assert_eq!(acts.note_level(0, 3), 2);
    assert_eq!(acts.contour_level(1, 0), 3);
    assert_eq!(acts.onset_level(0, 0), 0);
}

#[test]
fn frames_are_counted_by_started_hops() {
    assert_eq!(frame_count(0), 0);
    assert_eq!(frame_count(1), 1);
    assert_eq!(frame_count(256), 1);
    assert_eq!(frame_count(257), 2);
    assert_eq!(frame_count(22050), 87);
    assert_eq!(frame_count(usize::MAX), usize::MAX / 256 + 1);
}

#[test]
fn activations_cover_buffers_of_their_length() {
    let acts = activations(blank(87), blank(87));
    assert!(acts.covers(22050));
    assert!(acts.covers(87 * 256));
    assert!(acts.covers(86 * 256 + 1));
    assert!(!acts.covers(86 * 256));
    assert!(!acts.covers(87 * 256 + 1));
    assert!(activations(blank(0), blank(0)).covers(0));
}
