use basic_pitch::activation::{Activations, PITCH_BINS, UNIT};
use basic_pitch::detector::{BinaryFile, NoteEvent, PitchDetector};
use basic_pitch::parameters::Parameters;

fn blank(frames: usize) -> Vec<Vec<u32>> {
    vec![vec![0u32; PITCH_BINS]; frames]
}

fn tone(frames: usize, bin: usize, first: usize, last: usize) -> Activations {
    let mut onset = blank(frames);
    let mut note = blank(frames);
    onset[first][bin] = 900_000;
    for f in first..=last {
        note[f][bin] = 800_000;
    }
    match Activations::new(onset, note, blank(frames)) {
        Ok(a) => a,
        Err(e) => panic!("grids refused: {:?}", e),
    }
}

#[test]
fn new_detector_has_initial_parameters_and_no_events() {
    let detector = PitchDetector::new();
    assert_eq!(
        detector.parameters(),
        Parameters {
            note_sensibility: 700_000,
            split_sensibility: 500_000,
            min_note_duration_ms: 125
        }
    );
    assert_eq!(detector.note_events(), vec![]);
}

#[test]
fn tone_between_two_silences_is_one_a4() {
    let mut detector = PitchDetector::new();
    detector.set_parameters(500_000, 500_000, 100);
    detector.transcribe_to_midi(&tone(87, 48, 20, 58));
    let events = detector.note_events();
    assert_eq!(events.len(), 1);
    assert_eq!(events[0].midi_note, 69);
    assert_eq!(events[0].start_time, 5120);
    assert_eq!(events[0].end_time, 15104);
    assert_eq!(events[0].amplitude, 800_000);
    assert!(events[0].start_time.abs_diff(5000) <= 256);
    assert!(events[0].end_time.abs_diff(15000) <= 256);
}

#[test]
fn silence_transcribes_to_nothing() {
    let mut detector = PitchDetector::new();
    detector.transcribe_to_midi(&tone(87, 48, 20, 58));
    assert_eq!(detector.note_events().len(), 1);
    let silent = match Activations::new(blank(87), blank(87), blank(87)) {
        Ok(a) => a,
        Err(e) => panic!("grids refused: {:?}", e),
    };
    detector.transcribe_to_midi(&silent);
    assert_eq!(detector.note_events(), vec![]);
}

#[test]
fn raised_minimum_duration_drops_the_note() {
    let mut detector = PitchDetector::new();
    let acts = tone(87, 48, 20, 58);
    detector.set_parameters(700_000, 500_000, 452);
    detector.transcribe_to_midi(&acts);
    assert_eq!(detector.note_events().len(), 1);
    detector.set_parameters(700_000, 500_000, 453);
    assert_eq!(detector.note_events().len(), 1);
    detector.transcribe_to_midi(&acts);
    assert_eq!(detector.note_events(), vec![]);
}

#[test]
fn reset_clears_events_and_keeps_parameters() {
    let mut detector = PitchDetector::new();
    detector.set_parameters(600_000, 400_000, 50);
    detector.transcribe_to_midi(&tone(50, 3, 1, 40));
    assert_eq!(detector.note_events().len(), 1);
    detector.reset();
    assert_eq!(detector.note_events(), vec![]);
    assert_eq!(
        detector.parameters(),
        Parameters {
            note_sensibility: 600_000,
            split_sensibility: 400_000,
            min_note_duration_ms: 50
        }
    );
}

#[test]
fn reading_twice_gives_the_same_events() {
    let mut detector = PitchDetector::new();
    detector.transcribe_to_midi(&tone(50, 3, 1, 40));
    let first = detector.note_events();
    let second = detector.note_events();
    assert_eq!(first, second);
    assert_eq!(
        first,
        vec![NoteEvent { start_time: 256, end_time: 41 * 256, midi_note: 24, amplitude: 800_000 }]
    );
}

#[test]
fn returned_events_are_a_copy() {
    let mut detector = PitchDetector::new();
    detector.transcribe_to_midi(&tone(50, 3, 1, 40));
    let mut copy = detector.note_events();
    copy.clear();
    assert_eq!(detector.note_events().len(), 1);
}

#[test]
fn transcription_replaces_the_stored_events() {
    let mut detector = PitchDetector::new();
    detector.transcribe_to_midi(&tone(50, 3, 1, 40));
    detector.transcribe_to_midi(&tone(50, 10, 5, 30));
    assert_eq!(
        detector.note_events(),
        vec![NoteEvent {
            start_time: 5 * 256,
            end_time: 31 * 256,
            midi_note: 31,
            amplitude: 800_000
        }]
    );
}

#[test]
fn parameters_are_clamped_into_range() {
    let mut detector = PitchDetector::new();
    detector.set_parameters(-1, 1_000_001, -5);
    assert_eq!(
        detector.parameters(),
        Parameters { note_sensibility: 0, split_sensibility: UNIT, min_note_duration_ms: 0 }
    );
    detector.set_parameters(i64::MAX, i64::MIN, i64::MAX);
    assert_eq!(
        detector.parameters(),
        Parameters {
            note_sensibility: UNIT,
            split_sensibility: 0,
            min_note_duration_ms: i64::MAX as u64
        }
    );
    detector.set_parameters(0, 1_000_000, 0);
    assert_eq!(
        detector.parameters(),
        Parameters { note_sensibility: 0, split_sensibility: UNIT, min_note_duration_ms: 0 }
    );
    assert_eq!(Parameters::clamped(250_000, 999_999, 7), Parameters {
        note_sensibility: 250_000,
        split_sensibility: 999_999,
        min_note_duration_ms: 7
    });
}

#[test]
fn new_parameters_leave_stored_events_alone() {
    let mut detector = PitchDetector::new();
    detector.transcribe_to_midi(&tone(50, 3, 1, 40));
    let before = detector.note_events();
    detector.set_parameters(1_000_000, 1_000_000, 1_000_000);
    assert_eq!(detector.note_events(), before);
}

#[test]
fn events_of_one_pitch_do_not_overlap() {
    let mut onset = blank(60);
    let mut note = blank(60);
    for first in [2usize, 11, 30, 31] {
        onset[first][40] = 900_000;
    }
    for f in 2..50 {
        note[f][40] = 650_000;
    }
    let acts = match Activations::new(onset, note, blank(60)) {
        Ok(a) => a,
        Err(e) => panic!("grids refused: {:?}", e),
    };
    let mut detector = PitchDetector::new();
    detector.set_parameters(700_000, 500_000, 0);
    detector.transcribe_to_midi(&acts);
    let events = detector.note_events();
    let spans: Vec<(u64, u64)> = events.iter().map(|e| (e.start_time, e.end_time)).collect();
    assert_eq!(
        spans,
        vec![(2 * 256, 11 * 256), (11 * 256, 30 * 256), (30 * 256, 31 * 256), (31 * 256, 50 * 256)]
    );
}

#[test]
fn binary_file_holds_a_copy_of_the_bytes() {
    let bytes = [1u8, 2, 3, 250];
    let file = BinaryFile::from_bytes(&bytes);
    assert_eq!(file.num_bytes(), 4);
    assert_eq!(file.as_bytes(), &[1u8, 2, 3, 250]);
    let empty = BinaryFile::from_bytes(&[]);
    assert_eq!(empty.num_bytes(), 0);
}
