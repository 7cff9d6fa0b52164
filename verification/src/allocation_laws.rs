use vstd::prelude::*;

use crate::envelope::ADSRStage;
use crate::note::{Gain, NoteView};
use crate::notes::{
    idle_voice, other_key, voice_sounding, voice_with_note, MidiEvent, NotesState,
    ALL_NOTES_OFF_CC, ALL_SOUND_OFF_CC,
};
use crate::search::{first_index, lemma_first_index};

verus! {

/// A note-on changes at most one voice, and never the number of voices.
pub proof fn law_note_on_changes_one_voice<V>(s: NotesState<V>, note: u8, velocity: V)
    ensures
        ({
            let t = s.after_note_on(note, velocity);
            &&& t.voices.len() == s.voices.len()
            &&& forall|j: int, k: int|
                0 <= j < k < s.voices.len() ==> t.voices[j] == s.voices[j] || t.voices[k] == s.voices[k]
        }),
{
    lemma_first_index(s.voices, idle_voice(), 0, s.voice_limit());
    if s.held.len() >= s.voice_count {
        let oldest = s.held[s.held.len() - s.voice_count].0;
        lemma_first_index(s.voices, voice_with_note(oldest), 0, s.voices.len() as int);
    }
}

/// A note-on is either dropped whole, leaving everything as it was, or the key joins
/// the held keys and some voice starts playing it.
pub proof fn law_note_on_all_or_nothing<V>(s: NotesState<V>, note: u8, velocity: V)
    ensures
        ({
            let t = s.after_note_on(note, velocity);
            ||| t == s
            ||| {
                &&& t.held == s.held.push((note, velocity))
                &&& exists|i: int|
                    0 <= i < t.voices.len() && (#[trigger] t.voices[i]).note == note && (
                    t.voices[i].stage == ADSRStage::Attack || t.voices[i].stage == ADSRStage::Retrigger)
            }
        }),
{
    let t = s.after_note_on(note, velocity);
    lemma_first_index(s.voices, idle_voice(), 0, s.voice_limit());
    match first_index(s.voices, idle_voice(), 0, s.voice_limit()) {
        Some(i) => {
            assert(t.voices[i].note == note);
        },
        None => {
            if s.held.len() >= s.voice_count {
                let oldest = s.held[s.held.len() - s.voice_count].0;
                lemma_first_index(s.voices, voice_with_note(oldest), 0, s.voices.len() as int);
                match first_index(s.voices, voice_with_note(oldest), 0, s.voices.len() as int) {
                    Some(i) => {
                        assert(t.voices[i].note == note);
                    },
                    None => {},
                }
            } else if s.held.len() < s.voices.len() {
                let i = s.held.len() as int;
                assert(t.voices[i].note == note);
            }
        },
    }
}

/// While one of the voices that may sound is idle, a note-on starts the note there
/// from its attack and cuts off no voice that is sounding.
pub proof fn law_free_voice_is_used_first<V>(s: NotesState<V>, note: u8, velocity: V, free: int)
    requires
        0 <= free < s.voice_limit(),
        s.voices[free].stage == ADSRStage::Idle,
    ensures
        ({
            let t = s.after_note_on(note, velocity);
            &&& t.held == s.held.push((note, velocity))
            &&& exists|i: int|
                0 <= i < t.voices.len() && #[trigger] t.voices[i] == s.voices[i].started(note, velocity)
            &&& forall|k: int|
                0 <= k < s.voices.len() && (#[trigger] s.voices[k]).stage != ADSRStage::Idle
                    ==> t.voices[k] == s.voices[k]
        }),
{
    lemma_first_index(s.voices, idle_voice(), 0, s.voice_limit());
    let i = first_index(s.voices, idle_voice(), 0, s.voice_limit())->0;
    let t = s.after_note_on(note, velocity);
    assert(t.voices[i] == s.voices[i].started(note, velocity));
}

/// Without the pedal, a note-off leaves no held key for that note, keeps the other held
/// keys in order, and changes at most one voice.
pub proof fn law_note_off_forgets_key<V>(s: NotesState<V>, note: u8)
    requires
        !s.sustained,
    ensures
        ({
            let t = s.after_note_off(note);
            &&& t.held == s.held.filter(other_key(note))
            &&& forall|k: int| 0 <= k < t.held.len() ==> (#[trigger] t.held[k]).0 != note
            &&& t.voices.len() == s.voices.len()
            &&& forall|j: int, k: int|
                0 <= j < k < s.voices.len() ==> t.voices[j] == s.voices[j] || t.voices[k] == s.voices[k]
        }),
{
    let t = s.after_note_off(note);
    lemma_first_index(s.voices, voice_sounding(note), 0, s.voices.len() as int);
    assert forall|k: int| 0 <= k < t.held.len() implies (#[trigger] t.held[k]).0 != note by {
        s.held.lemma_filter_pred(other_key(note), k);
    }
}

/// Note-offs that arrive while the pedal is down pile up in order and change nothing else.
proof fn lemma_offs_while_sustained<V>(s: NotesState<V>, offs: Seq<u8>)
    requires
        s.sustained,
    ensures
        s.after_note_offs(offs) == (NotesState { pending_offs: s.pending_offs + offs, ..s }),
    decreases offs.len(),
{
    if offs.len() > 0 {
        lemma_offs_while_sustained(s, offs.drop_last());
        assert(s.pending_offs + offs.drop_last() + seq![offs.last()] =~= s.pending_offs + offs);
    } else {
        assert(s.pending_offs + offs =~= s.pending_offs);
    }
}

/// Pressing the pedal, letting keys go, and lifting the pedal releases those keys as if
/// they had gone up after the pedal was lifted, in the same order.
pub proof fn law_sustain_defers_note_offs<V>(s: NotesState<V>, offs: Seq<u8>)
    requires
        !s.sustained,
        s.pending_offs.len() == 0,
    ensures
        s.after_sustain(true).after_note_offs(offs).after_sustain(false) == s.after_note_offs(offs),
{
    let pressed = s.after_sustain(true);
    lemma_offs_while_sustained(pressed, offs);
    let waiting = pressed.after_note_offs(offs);
    assert(s.pending_offs + offs =~= offs);
    assert((NotesState { sustained: false, pending_offs: Seq::empty(), ..waiting }) == s);
}

/// Setting the number of voices twice to the same value is the same as setting it once.
pub proof fn law_set_voice_count_idempotent<V>(s: NotesState<V>, voice_count: nat)
    ensures
        s.after_set_voice_count(voice_count).after_set_voice_count(voice_count)
            == s.after_set_voice_count(voice_count),
{
}

/// After every voice was silenced, the next note-on starts in the first voice.
pub proof fn law_silenced_starts_first_voice<V>(s: NotesState<V>, note: u8, velocity: V)
    requires
        s.voice_count > 0,
        s.voices.len() > 0,
    ensures
        s.silenced().after_note_on(note, velocity) == s.silenced().with_voice(
            0,
            NoteView::<V>::silent().started(note, velocity),
        ).holding(note, velocity),
{
    let q = s.silenced();
    assert(q.voices[0] == NoteView::<V>::silent());
}

/// With a single voice, letting go of the key it sounds hands it to the most recently
/// pressed key that is still held (last-note priority), or releases it when none is.
pub proof fn law_single_voice_last_note_priority<V>(s: NotesState<V>, note: u8, i: int)
    requires
        s.voice_count == 1,
        !s.sustained,
        first_index(s.voices, voice_sounding(note), 0, s.voices.len() as int) == Some(i),
    ensures
        ({
            let t = s.after_note_off(note);
            &&& t.held.len() > 0 ==> t.voices[i] == s.voices[i].stolen(
                t.held.last().0,
                t.held.last().1,
            )
            &&& t.held.len() == 0 ==> t.voices[i] == s.voices[i].in_stage(ADSRStage::Release)
        }),
{
    lemma_first_index(s.voices, voice_sounding(note), 0, s.voices.len() as int);
}

/// A pedal-down message while the pedal is already down changes nothing: the releases
/// remembered so far are kept, so each is applied when the pedal next lifts.
pub proof fn law_repeated_pedal_down_changes_nothing<V>(s: NotesState<V>)
    requires
        s.sustained,
    ensures
        s.after_sustain(true) == s,
        s.after_sustain(true).pending_offs == s.pending_offs,
{
}

/// Any number of pedal-down messages in a row act as one.
pub proof fn law_pedal_down_is_idempotent<V>(s: NotesState<V>)
    ensures
        s.after_sustain(true).after_sustain(true) == s.after_sustain(true),
        s.after_sustain(true).sustained,
        s.after_sustain(true).voices == s.voices,
        s.after_sustain(true).held == s.held,
        s.after_sustain(true).pending_offs == s.pending_offs,
{
}

/// A key let go while the pedal is down, followed by further pedal-down messages, is
/// released when the pedal lifts exactly as if it had gone up after the lift.
pub proof fn law_release_survives_pedal_down_messages<V>(s: NotesState<V>, note: u8)
    requires
        !s.sustained,
        s.pending_offs.len() == 0,
    ensures
        s.after_sustain(true).after_note_off(note).after_sustain(true).after_sustain(false)
            == s.after_note_off(note),
{
    let p = s.after_sustain(true).after_note_off(note);
    assert(p.pending_offs =~= seq![note]);
    assert(p.after_sustain(true) == p);
    let q = NotesState { sustained: false, pending_offs: Seq::<u8>::empty(), ..p };
    assert(q == s);
    assert(seq![note].drop_last() =~= Seq::<u8>::empty());
    assert(q.after_note_offs(Seq::<u8>::empty()) == q);
    assert(q.after_note_offs(p.pending_offs) == q.after_note_offs(seq![note].drop_last()).after_note_off(note));
    assert(p.after_sustain(false) == q.after_note_offs(p.pending_offs));
}

/// All Notes Off moves every voice into its release and changes nothing else, whatever
/// the value of the message; All Sound Off silences every voice, whatever its value.
pub proof fn law_all_off_controllers_ignore_value<V>(s: NotesState<V>, value_above_zero: bool)
    ensures
        ({
            let t = s.after_event(
                MidiEvent::ControlChange { cc: ALL_NOTES_OFF_CC, value_above_zero },
            );
            &&& t.voices.len() == s.voices.len()
            &&& forall|i: int|
                0 <= i < s.voices.len() ==> (#[trigger] t.voices[i]).stage == ADSRStage::Release
                    && t.voices[i].note == s.voices[i].note && t.voices[i].gain == s.voices[i].gain
            &&& t.held == s.held
            &&& t.pending_offs == s.pending_offs
            &&& t.voice_count == s.voice_count
            &&& t.sustained == s.sustained
        }),
        ({
            let t = s.after_event(MidiEvent::ControlChange { cc: ALL_SOUND_OFF_CC, value_above_zero });
            &&& t.voices.len() == s.voices.len()
            &&& forall|i: int|
                0 <= i < s.voices.len() ==> (#[trigger] t.voices[i]).stage == ADSRStage::Idle
                    && t.voices[i].note == 0 && t.voices[i].gain == Gain::<V>::Zero
            &&& t.held == s.held
            &&& t.pending_offs == s.pending_offs
            &&& t.voice_count == s.voice_count
            &&& t.sustained == s.sustained
        }),
{
}

/// The only voice a note-on changes plays the pressed note, with a gain made from the
/// pressed velocity: the square root when it starts from idle within the voice limit
/// (attack), the velocity itself when it is taken over (attack if it was idle, else
/// retrigger).
pub proof fn law_note_on_uses_pressed_velocity<V>(s: NotesState<V>, note: u8, velocity: V)
    ensures
        ({
            let t = s.after_note_on(note, velocity);
            forall|i: int|
                0 <= i < s.voices.len() && #[trigger] t.voices[i] != s.voices[i] ==> {
                    &&& t.voices[i].note == note
                    &&& (t.voices[i].gain == Gain::SquareRootOf(velocity) && t.voices[i].stage
                        == ADSRStage::Attack && i < s.voice_count && s.voices[i].stage
                        == ADSRStage::Idle)
                        || (t.voices[i].gain == Gain::Linear(velocity) && t.voices[i].stage == (
                    if s.voices[i].stage == ADSRStage::Idle {
                        ADSRStage::Attack
                    } else {
                        ADSRStage::Retrigger
                    }))
                }
        }),
{
    lemma_first_index(s.voices, idle_voice(), 0, s.voice_limit());
    if s.held.len() >= s.voice_count {
        let oldest = s.held[s.held.len() - s.voice_count].0;
        lemma_first_index(s.voices, voice_with_note(oldest), 0, s.voices.len() as int);
    }
}

/// When a key goes up and its voice is handed to a still-held key, the voice takes the
/// note and the velocity of one and the same remaining held entry: the one that is
/// `voice_count`-th newest.
pub proof fn law_note_off_hands_over_whole_key<V>(s: NotesState<V>, note: u8, i: int)
    requires
        !s.sustained,
        first_index(s.voices, voice_sounding(note), 0, s.voices.len() as int) == Some(i),
        s.held.filter(other_key(note)).len() >= s.voice_count > 0,
    ensures
        ({
            let t = s.after_note_off(note);
            let j = t.held.len() - s.voice_count;
            &&& 0 <= j < t.held.len()
            &&& t.voices[i] == s.voices[i].stolen(t.held[j].0, t.held[j].1)
            &&& t.voices[i].note == t.held[j].0
            &&& t.voices[i].gain == Gain::Linear(t.held[j].1)
            &&& forall|k: int| 0 <= k < s.voices.len() && k != i ==> #[trigger] t.voices[k] == s.voices[k]
        }),
{
    lemma_first_index(s.voices, voice_sounding(note), 0, s.voices.len() as int);
}

/// Which voice a note-on takes: the lowest idle voice among the first `voice_count`;
/// when there is none and at least `voice_count` keys are held, the lowest voice that
/// plays the oldest of the `voice_count` newest keys (or none, and the event is dropped).
pub proof fn law_note_on_picks_voice<V>(s: NotesState<V>, note: u8, velocity: V)
    requires
        s.voice_count > 0,
    ensures
        ({
            let t = s.after_note_on(note, velocity);
            &&& (exists|j: int| 0 <= j < s.voice_limit() && (#[trigger] s.voices[j]).stage
                == ADSRStage::Idle) ==> exists|i: int|
                0 <= i < s.voice_limit() && s.voices[i].stage == ADSRStage::Idle && (forall|j: int|
                    0 <= j < i ==> (#[trigger] s.voices[j]).stage != ADSRStage::Idle)
                    && #[trigger] t.voices[i] == s.voices[i].started(note, velocity)
            &&& (forall|j: int| 0 <= j < s.voice_limit() ==> (#[trigger] s.voices[j]).stage
                != ADSRStage::Idle) && s.held.len() >= s.voice_count ==> {
                let oldest = s.held[s.held.len() - s.voice_count].0;
                ||| (t == s && forall|j: int| 0 <= j < s.voices.len() ==> (#[trigger] s.voices[j]).note
                    != oldest)
                ||| exists|i: int|
                    0 <= i < s.voices.len() && s.voices[i].note == oldest && (forall|j: int|
                        0 <= j < i ==> (#[trigger] s.voices[j]).note != oldest)
                        && #[trigger] t.voices[i] == s.voices[i].stolen(note, velocity)
            }
        }),
{
    let t = s.after_note_on(note, velocity);
    lemma_first_index(s.voices, idle_voice(), 0, s.voice_limit());
    match first_index(s.voices, idle_voice(), 0, s.voice_limit()) {
        Some(i) => {
            assert(t.voices[i] == s.voices[i].started(note, velocity));
        },
        None => {
            if s.held.len() >= s.voice_count {
                let oldest = s.held[s.held.len() - s.voice_count].0;
                lemma_first_index(s.voices, voice_with_note(oldest), 0, s.voices.len() as int);
                match first_index(s.voices, voice_with_note(oldest), 0, s.voices.len() as int) {
                    Some(i) => {
                        assert(t.voices[i] == s.voices[i].stolen(note, velocity));
                    },
                    None => {},
                }
            }
        },
    }
}

/// A key that goes up without the pedal releases the lowest voice that sounds it,
/// keeping its note and gain, unless enough keys are still held to take the voice over;
/// a key no voice sounds leaves the voices as they are.
pub proof fn law_note_off_releases_lowest_sounding_voice<V>(s: NotesState<V>, note: u8)
    requires
        !s.sustained,
    ensures
        ({
            let t = s.after_note_off(note);
            &&& (forall|j: int| 0 <= j < s.voices.len() ==> !voice_sounding::<V>(note)(
                #[trigger] s.voices[j])) ==> t.voices == s.voices
            &&& t.held.len() < s.voice_count ==> forall|i: int|
                0 <= i < s.voices.len() && #[trigger] t.voices[i] != s.voices[i] ==> {
                    &&& s.voices[i].note == note
                    &&& s.voices[i].stage != ADSRStage::Idle
                    &&& s.voices[i].stage != ADSRStage::Release
                    &&& forall|j: int| 0 <= j < i ==> !voice_sounding::<V>(note)(#[trigger] s.voices[j])
                    &&& t.voices[i].stage == ADSRStage::Release
                    &&& t.voices[i].note == s.voices[i].note
                    &&& t.voices[i].gain == s.voices[i].gain
                }
        }),
{
    lemma_first_index(s.voices, voice_sounding(note), 0, s.voices.len() as int);
}

/// While the pedal is down a note-off only remembers the key: voices and held keys stay.
pub proof fn law_note_off_while_sustained_only_remembers<V>(s: NotesState<V>, note: u8)
    requires
        s.sustained,
    ensures
        s.after_note_off(note).voices == s.voices,
        s.after_note_off(note).held == s.held,
        s.after_note_off(note).pending_offs == s.pending_offs.push(note),
        s.after_note_off(note).sustained,
{
}

} // verus!
