use thorgend_dsp::envelope::ADSRStage;
use thorgend_dsp::note::Note;
use thorgend_dsp::notes::Notes;

fn assert_notes_vector(notes: &Vec<Note<f32>>, expected_notes: Vec<(u8, ADSRStage)>) {
    notes
        .iter()
        .zip(expected_notes)
        .for_each(|(note, (expected_note, expected_state))| {
            assert_eq!(note.get_note(), expected_note);
            assert!(*note.get_adsr_stage() == expected_state);
        })
}

#[test]
fn default_notes() {
    let mut notes: Notes<f32> = Notes::new();
    notes.set_voice_count(4);
    assert_notes_vector(
        notes.get_notes(),
        vec![
            (0, ADSRStage::Idle),
            (0, ADSRStage::Idle),
            (0, ADSRStage::Idle),
            (0, ADSRStage::Idle),
        ],
    );
}

#[test]
fn note_on() {
    let mut notes: Notes<f32> = Notes::new();
    notes.set_voice_count(3);
    notes.note_on(60, 1.);
    assert_notes_vector(notes.get_notes(), vec![(60, ADSRStage::Attack)]);
    notes.note_on(64, 1.);
    assert_notes_vector(
        notes.get_notes(),
        vec![(60, ADSRStage::Attack), (64, ADSRStage::Attack)],
    );
    notes.note_on(67, 1.);
    assert_notes_vector(
        notes.get_notes(),
        vec![
            (60, ADSRStage::Attack),
            (64, ADSRStage::Attack),
            (67, ADSRStage::Attack),
        ],
    );
}

#[test]
fn note_off() {
    let mut notes: Notes<f32> = Notes::new();
    notes.set_voice_count(3);
    notes.note_on(60, 1.);
    assert_notes_vector(notes.get_notes(), vec![(60, ADSRStage::Attack)]);
    assert_notes_vector(
        notes.get_notes(),
        vec![
            (60, ADSRStage::Attack),
            (0, ADSRStage::Idle),
            (0, ADSRStage::Idle),
        ],
    );
    notes.note_off(60);
    assert_notes_vector(notes.get_notes(), vec![(60, ADSRStage::Release)]);
    notes.note_on(60, 1.);
    assert_notes_vector(
        notes.get_notes(),
        vec![(60, ADSRStage::Release), (60, ADSRStage::Attack)],
    );
    notes.note_off(60);
    assert_notes_vector(
        notes.get_notes(),
        vec![(60, ADSRStage::Release), (60, ADSRStage::Release)],
    );
    notes.note_on(60, 1.);
    assert_notes_vector(
        notes.get_notes(),
        vec![
            (60, ADSRStage::Release),
            (60, ADSRStage::Release),
            (60, ADSRStage::Attack),
        ],
    );
    notes.note_off(60);
    assert_notes_vector(
        notes.get_notes(),
        vec![
            (60, ADSRStage::Release),
            (60, ADSRStage::Release),
            (60, ADSRStage::Release),
        ],
    );
    notes.note_on(64, 1.);
    assert_notes_vector(
        notes.get_notes(),
        vec![
            (64, ADSRStage::Retrigger),
            (60, ADSRStage::Release),
            (60, ADSRStage::Release),
        ],
    );
    notes.note_on(67, 1.);
    assert_notes_vector(
        notes.get_notes(),
        vec![
            (64, ADSRStage::Retrigger),
            (67, ADSRStage::Retrigger),
            (60, ADSRStage::Release),
        ],
    );
    notes.note_off(64);
    assert_notes_vector(
        notes.get_notes(),
        vec![
            (64, ADSRStage::Release),
            (67, ADSRStage::Retrigger),
            (60, ADSRStage::Release),
        ],
    );
    notes.note_off(67);
    assert_notes_vector(
        notes.get_notes(),
        vec![
            (64, ADSRStage::Release),
            (67, ADSRStage::Release),
            (60, ADSRStage::Release),
        ],
    );
}

#[test]
fn steals_in_polyphonic_mode() {
    let mut notes: Notes<f32> = Notes::new();
    notes.set_voice_count(2);
    notes.note_on(60, 1.);
    assert_notes_vector(notes.get_notes(), vec![(60, ADSRStage::Attack)]);
    notes.note_on(64, 1.);
    assert_notes_vector(
        notes.get_notes(),
        vec![(60, ADSRStage::Attack), (64, ADSRStage::Attack)],
    );
    notes.note_on(65, 0.5);
    assert_notes_vector(
        notes.get_notes(),
        vec![(65, ADSRStage::Retrigger), (64, ADSRStage::Attack)],
    );
    notes.note_on(69, 0.75);
    assert_notes_vector(
        notes.get_notes(),
        vec![(65, ADSRStage::Retrigger), (69, ADSRStage::Retrigger)],
    );
    notes.note_off(65);
    assert_notes_vector(
        notes.get_notes(),
        vec![(64, ADSRStage::Retrigger), (69, ADSRStage::Retrigger)],
    );
    notes.note_off(69);
    assert_notes_vector(
        notes.get_notes(),
        vec![(64, ADSRStage::Retrigger), (60, ADSRStage::Retrigger)],
    );
    notes.note_off(60);
    assert_notes_vector(
        notes.get_notes(),
        vec![(64, ADSRStage::Retrigger), (60, ADSRStage::Release)],
    );
    notes.note_off(64);
    assert_notes_vector(
        notes.get_notes(),
        vec![(64, ADSRStage::Release), (60, ADSRStage::Release)],
    );
    notes.note_on(65, 0.5);
    assert_notes_vector(
        notes.get_notes(),
        vec![(65, ADSRStage::Retrigger), (60, ADSRStage::Release)],
    );
    notes.note_on(69, 0.75);
    assert_notes_vector(
        notes.get_notes(),
        vec![(65, ADSRStage::Retrigger), (69, ADSRStage::Retrigger)],
    );
}

#[test]
fn steals_in_monophonic_mode() {
    let mut notes: Notes<f32> = Notes::new();
    notes.set_voice_count(1);
    notes.note_on(60, 1.);
    assert_notes_vector(notes.get_notes(), vec![(60, ADSRStage::Attack)]);
    notes.note_off(60);
    assert_notes_vector(notes.get_notes(), vec![(60, ADSRStage::Release)]);
    notes.note_on(60, 1.);
    assert_notes_vector(notes.get_notes(), vec![(60, ADSRStage::Retrigger)]);
    notes.note_on(59, 0.5);
    assert_notes_vector(notes.get_notes(), vec![(59, ADSRStage::Retrigger)]);
    notes.note_on(72, 0.75);
    assert_notes_vector(notes.get_notes(), vec![(72, ADSRStage::Retrigger)]);
    notes.note_off(59);
    assert_notes_vector(notes.get_notes(), vec![(72, ADSRStage::Retrigger)]);
    notes.note_off(72);
    assert_notes_vector(notes.get_notes(), vec![(60, ADSRStage::Retrigger)]);
    notes.note_off(60);
    assert_notes_vector(notes.get_notes(), vec![(60, ADSRStage::Release)]);
    notes.note_on(60, 1.);
    assert_notes_vector(notes.get_notes(), vec![(60, ADSRStage::Retrigger)]);
}
