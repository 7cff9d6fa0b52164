use thorgend_dsp::envelope::ADSRStage;
use thorgend_dsp::gendy::{control_point_count, next_control_point, Distribution};
use thorgend_dsp::note::{Gain, Note};
use thorgend_dsp::notes::{MidiEvent, Notes};
use thorgend_dsp::time_text::{split_time_text, trim_chars, TimeUnit};
use thorgend_dsp::voices::sounding_voices;
use thorgend_dsp::MAX_VOICE_COUNT;

fn stages(notes: &mut Notes<f32>) -> Vec<(u8, ADSRStage)> {
    notes
        .get_notes()
        .iter()
        .map(|n| (n.get_note(), *n.get_adsr_stage()))
        .collect()
}

fn chars(text: &str) -> Vec<char> {
    text.chars().collect()
}

fn text(chars: &[char]) -> String {
    chars.iter().collect()
}

#[test]
fn new_allocator_has_silent_voices() {
    let mut notes: Notes<f32> = Notes::new();
    let voices = stages(&mut notes);
    assert_eq!(voices.len(), MAX_VOICE_COUNT);
    assert!(voices.iter().all(|v| *v == (0, ADSRStage::Idle)));
}

#[test]
fn note_gain_follows_how_the_voice_was_taken() {
    let mut note: Note<f32> = Note::default();
    assert!(matches!(note.get_gain(), Gain::Zero));
    note.note_on(60, 0.25);
    assert!(matches!(note.get_gain(), Gain::SquareRootOf(v) if v == 0.25));
    assert!(*note.get_adsr_stage() == ADSRStage::Attack);
    note.steal_note(62, 0.5);
    assert!(matches!(note.get_gain(), Gain::Linear(v) if v == 0.5));
    assert!(*note.get_adsr_stage() == ADSRStage::Retrigger);
    note.note_off();
    assert!(*note.get_adsr_stage() == ADSRStage::Release);
    note.reset_note();
    assert_eq!(note.get_note(), 0);
    assert!(*note.get_adsr_stage() == ADSRStage::Idle);
    note.steal_note(64, 1.0);
    assert!(*note.get_adsr_stage() == ADSRStage::Attack);
}

#[test]
fn sustain_defers_releases_until_lifted() {
    let mut notes: Notes<f32> = Notes::new();
    notes.set_voice_count(2);
    notes.note_on(60, 1.0);
    notes.note_on(64, 1.0);
    notes.sustain(true);
    notes.note_off(60);
    notes.note_off(64);
    assert_eq!(stages(&mut notes)[0], (60, ADSRStage::Attack));
    assert_eq!(stages(&mut notes)[1], (64, ADSRStage::Attack));
    notes.sustain(false);
    assert_eq!(stages(&mut notes)[0], (60, ADSRStage::Release));
    assert_eq!(stages(&mut notes)[1], (64, ADSRStage::Release));
}

#[test]
fn same_voice_count_keeps_voices_and_new_count_silences() {
    let mut notes: Notes<f32> = Notes::new();
    notes.note_on(60, 1.0);
    notes.set_voice_count(1);
    assert_eq!(stages(&mut notes)[0], (60, ADSRStage::Attack));
    notes.set_voice_count(3);
    assert_eq!(stages(&mut notes)[0], (0, ADSRStage::Idle));
}

#[test]
fn silenced_allocator_starts_first_voice() {
    let mut notes: Notes<f32> = Notes::new();
    notes.note_on(60, 1.0);
    notes.remove_notes();
    notes.note_on(60, 1.0);
    assert_eq!(stages(&mut notes)[0], (60, ADSRStage::Attack));
}

#[test]
fn midi_events_drive_the_allocator() {
    let mut notes: Notes<f32> = Notes::new();
    notes.set_voice_count(2);
    notes.process_midi_event(MidiEvent::NoteOn { note: 60, velocity: 1.0 });
    notes.process_midi_event(MidiEvent::NoteOn { note: 62, velocity: 1.0 });
    notes.process_midi_event(MidiEvent::NoteOff { note: 62 });
    assert_eq!(stages(&mut notes)[1], (62, ADSRStage::Release));
    notes.process_midi_event(MidiEvent::ControlChange { cc: 64, value_above_zero: true });
    notes.process_midi_event(MidiEvent::NoteOff { note: 60 });
    assert_eq!(stages(&mut notes)[0], (60, ADSRStage::Attack));
    notes.process_midi_event(MidiEvent::ControlChange { cc: 64, value_above_zero: false });
    assert_eq!(stages(&mut notes)[0], (60, ADSRStage::Release));
    notes.process_midi_event(MidiEvent::NoteOn { note: 67, velocity: 1.0 });
    notes.process_midi_event(MidiEvent::ControlChange { cc: 123, value_above_zero: true });
    assert!(stages(&mut notes).iter().all(|v| v.1 == ADSRStage::Release));
    notes.process_midi_event(MidiEvent::ControlChange { cc: 7, value_above_zero: true });
    assert!(stages(&mut notes).iter().all(|v| v.1 == ADSRStage::Release));
    notes.process_midi_event(MidiEvent::ControlChange { cc: 120, value_above_zero: false });
    assert!(stages(&mut notes).iter().all(|v| *v == (0, ADSRStage::Idle)));
    notes.process_midi_event(MidiEvent::Other);
    assert!(stages(&mut notes).iter().all(|v| *v == (0, ADSRStage::Idle)));
}

#[test]
fn envelope_stage_steps() {
    assert_eq!(ADSRStage::Attack.after_step(false), ADSRStage::Attack);
    assert_eq!(ADSRStage::Attack.after_step(true), ADSRStage::Decay);
    assert_eq!(ADSRStage::Decay.after_step(true), ADSRStage::Sustain);
    assert_eq!(ADSRStage::Sustain.after_step(true), ADSRStage::Sustain);
    assert_eq!(ADSRStage::Release.after_step(false), ADSRStage::Release);
    assert_eq!(ADSRStage::Release.after_step(true), ADSRStage::Idle);
    assert_eq!(ADSRStage::Retrigger.after_step(true), ADSRStage::Attack);
    assert_eq!(ADSRStage::Idle.after_step(true), ADSRStage::Idle);
}

#[test]
fn control_points_are_clamped_and_cycle() {
    assert_eq!(control_point_count(0), 1);
    assert_eq!(control_point_count(7), 7);
    assert_eq!(control_point_count(40), 12);
    assert_eq!(next_control_point(0, 3), 1);
    assert_eq!(next_control_point(2, 3), 0);
    assert_eq!(next_control_point(11, 100), 0);
    assert_eq!(next_control_point(5, 0), 0);
    let mut index = 0;
    for _ in 0..5 {
        index = next_control_point(index, 5);
    }
    assert_eq!(index, 0);
}

#[test]
fn distribution_selectors() {
    assert_eq!(Distribution::from_selector(0), Distribution::Linear);
    assert_eq!(Distribution::from_selector(1), Distribution::Cauchy);
    assert_eq!(Distribution::from_selector(2), Distribution::Logistic);
    assert_eq!(Distribution::from_selector(3), Distribution::HyperbolicCosine);
    assert_eq!(Distribution::from_selector(4), Distribution::Arcsine);
    assert_eq!(Distribution::from_selector(5), Distribution::Exponential);
    assert_eq!(Distribution::from_selector(6), Distribution::Sinus);
    assert_eq!(Distribution::from_selector(-3), Distribution::Linear);
    assert_eq!(Distribution::from_selector(99), Distribution::Linear);
}

#[test]
fn only_sounding_voices_are_rendered() {
    let mut notes: Notes<f32> = Notes::new();
    notes.set_voice_count(4);
    notes.note_on(60, 1.0);
    notes.note_on(62, 1.0);
    notes.note_on(64, 1.0);
    notes.note_off(62);
    notes.get_notes()[1].set_adsr_stage(ADSRStage::Idle);
    assert_eq!(sounding_voices(notes.get_notes(), 8), vec![0, 2]);
    assert_eq!(sounding_voices(notes.get_notes(), 1), vec![0]);
    assert_eq!(sounding_voices(notes.get_notes(), 0), Vec::<usize>::new());
}

#[test]
fn time_text_units() {
    let (number, unit) = split_time_text(&chars("  1.5 S "));
    assert_eq!(text(&number), "1.5");
    assert_eq!(unit, TimeUnit::Seconds);
    let (number, unit) = split_time_text(&chars("250ms"));
    assert_eq!(text(&number), "250");
    assert_eq!(unit, TimeUnit::Milliseconds);
    let (number, unit) = split_time_text(&chars("10 MS"));
    assert_eq!(text(&number), "10");
    assert_eq!(unit, TimeUnit::Milliseconds);
    let (number, unit) = split_time_text(&chars("42"));
    assert_eq!(text(&number), "42");
    assert_eq!(unit, TimeUnit::Milliseconds);
    let (number, unit) = split_time_text(&chars("\u{a0}5ms"));
    assert_eq!(text(&number), "5");
    assert_eq!(unit, TimeUnit::Milliseconds);
    let (number, unit) = split_time_text(&chars("1E3"));
    assert_eq!(text(&number), "1e3");
    assert_eq!(unit, TimeUnit::Milliseconds);
    let (number, unit) = split_time_text(&chars("   "));
    assert_eq!(text(&number), "");
    assert_eq!(unit, TimeUnit::Milliseconds);
    assert_eq!(text(&trim_chars(&chars("\t a b \n"))), "a b");
}

#[test]
fn allocator_refuses_events_it_cannot_apply() {
    let mut notes: Notes<f32> = Notes::new();
    assert!(!notes.handles_event(&MidiEvent::PitchBend));
    assert!(notes.handles_event(&MidiEvent::Other));
    assert!(notes.handles_event(&MidiEvent::NoteOn { note: 60, velocity: 1.0 }));
    notes.note_on(60, 1.0);
    notes.set_voice_count(0);
    assert!(!notes.handles_event(&MidiEvent::NoteOn { note: 62, velocity: 1.0 }));
    assert!(notes.handles_event(&MidiEvent::NoteOff { note: 60 }));
    notes.get_notes()[0].note_on(60, 1.0);
    assert!(!notes.handles_event(&MidiEvent::NoteOff { note: 60 }));
    notes.process_midi_event(MidiEvent::ControlChange { cc: 64, value_above_zero: true });
    assert!(notes.handles_event(&MidiEvent::NoteOff { note: 60 }));
    notes.process_midi_event(MidiEvent::NoteOff { note: 60 });
    assert!(notes.handles_event(&MidiEvent::ControlChange { cc: 64, value_above_zero: true }));
    assert!(!notes.handles_event(&MidiEvent::ControlChange { cc: 64, value_above_zero: false }));
    assert!(notes.handles_event(&MidiEvent::ControlChange { cc: 120, value_above_zero: false }));
}

#[test]
fn note_on_is_dropped_when_no_voice_can_take_it() {
    let mut notes: Notes<f32> = Notes::new();
    notes.set_voice_count(10);
    for key in 60..68 {
        notes.note_on(key, 1.0);
    }
    let before = stages(&mut notes);
    notes.note_on(70, 1.0);
    assert_eq!(stages(&mut notes), before);
    // the dropped key is not held: releasing the first key frees its voice for good
    notes.note_off(60);
    assert_eq!(stages(&mut notes)[0], (60, ADSRStage::Release));
}

#[test]
fn note_on_is_dropped_when_the_oldest_key_lost_its_voice() {
    let mut notes: Notes<f32> = Notes::new();
    notes.set_voice_count(1);
    notes.note_on(60, 1.0);
    notes.get_notes()[0].steal_note(61, 1.0);
    notes.note_on(62, 1.0);
    assert_eq!(stages(&mut notes)[0], (61, ADSRStage::Retrigger));
}

#[test]
fn note_off_forgets_every_press_of_the_key() {
    let mut notes: Notes<f32> = Notes::new();
    notes.set_voice_count(1);
    notes.note_on(60, 1.0);
    notes.note_on(62, 1.0);
    notes.note_on(60, 1.0);
    notes.note_off(60);
    // 62 is the only held key left, so the voice goes back to it
    assert_eq!(stages(&mut notes)[0], (62, ADSRStage::Retrigger));
    notes.note_off(62);
    assert_eq!(stages(&mut notes)[0], (62, ADSRStage::Release));
}

#[test]
fn time_text_ignores_case_and_padding() {
    for written in ["250ms", "250MS", "250Ms", " 250ms", "250ms\t\n", "\u{3000}250 ms "] {
        let (number, unit) = split_time_text(&chars(written));
        assert_eq!(text(&number), "250");
        assert_eq!(unit, TimeUnit::Milliseconds);
    }
    for written in ["2s", "2S", "  2 s", "2 S\u{2028}"] {
        let (number, unit) = split_time_text(&chars(written));
        assert_eq!(text(&number), "2");
        assert_eq!(unit, TimeUnit::Seconds);
    }
}
