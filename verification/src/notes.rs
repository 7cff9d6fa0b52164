use vstd::prelude::*;

pub use crate::envelope::ADSRStage;
pub use crate::note::{Gain, Note, NoteView};
use crate::search::{first_index, lemma_first_index};

verus! {

/// The number of voices the synthesizer owns.
pub const MAX_VOICE_COUNT: usize = 8;

/// The views of a sequence of voices.
pub open spec fn voice_views<V>(notes: Seq<Note<V>>) -> Seq<NoteView<V>> {
    notes.map_values(|n: Note<V>| n@)
}

/// A voice whose envelope is idle.
pub open spec fn idle_voice<V>() -> spec_fn(NoteView<V>) -> bool {
    |n: NoteView<V>| n.stage == ADSRStage::Idle
}

/// A voice that holds `note`, whatever its stage.
pub open spec fn voice_with_note<V>(note: u8) -> spec_fn(NoteView<V>) -> bool {
    |n: NoteView<V>| n.note == note
}

/// A voice that holds `note` and is neither idle nor releasing.
pub open spec fn voice_sounding<V>(note: u8) -> spec_fn(NoteView<V>) -> bool {
    |n: NoteView<V>| n.note == note && n.stage != ADSRStage::Idle && n.stage != ADSRStage::Release
}

/// A held key that is not `note`.
pub open spec fn other_key<V>(note: u8) -> spec_fn((u8, V)) -> bool {
    |k: (u8, V)| k.0 != note
}

/// What the voice allocator holds.
#[verifier::ext_equal]
pub struct NotesState<V> {
    /// The voices, in slot order.
    pub voices: Seq<NoteView<V>>,
    /// The keys that are held down, oldest first, with their velocities.
    pub held: Seq<(u8, V)>,
    /// Releases that arrived while the sustain pedal was down, in order.
    pub pending_offs: Seq<u8>,
    /// How many voices may sound at once.
    pub voice_count: nat,
    /// Whether the sustain pedal is down.
    pub sustained: bool,
}

impl<V> NotesState<V> {
    /// The number of voices that note-on may start from silence.
    pub open spec fn voice_limit(self) -> int {
        if self.voice_count < self.voices.len() {
            self.voice_count as int
        } else {
            self.voices.len() as int
        }
    }

    /// The state with voice `i` replaced by `n`.
    pub open spec fn with_voice(self, i: int, n: NoteView<V>) -> NotesState<V> {
        NotesState { voices: self.voices.update(i, n), ..self }
    }

    /// The state with key `note` held, newest, at `velocity`.
    pub open spec fn holding(self, note: u8, velocity: V) -> NotesState<V> {
        NotesState { held: self.held.push((note, velocity)), ..self }
    }

    /// A note-on is defined unless no voice may sound while there are voices: it would
    /// then look up a held key past the last one.
    pub open spec fn note_on_defined(self) -> bool {
        self.voice_count > 0 || self.voices.len() == 0
    }

    /// The allocator after key `note` went down at `velocity`.
    ///
    /// `r` names the same index as `i`.
pub open spec fn found_at(r: Option<usize>, i: Option<int>) -> bool {
    match r {
        Some(k) => i == Some(k as int),
        None => i is None,
    }
}

/// The first idle voice among the first `voice_count` starts the note. When there is
    /// none, and at least `voice_count` keys are held, the voice that plays the oldest of
    /// the `voice_count` most recent keys is taken over; with fewer keys held, the voice in
    /// the slot after the last held key is taken over. When no voice is found the event
    /// is dropped, else the key joins the held keys.
    pub open spec fn after_note_on(self, note: u8, velocity: V) -> NotesState<V> {
        match first_index(self.voices, idle_voice(), 0, self.voice_limit()) {
            Some(i) => self.with_voice(i, self.voices[i].started(note, velocity)).holding(
                note,
                velocity,
            ),
            None => if self.held.len() >= self.voice_count {
                let oldest = self.held[self.held.len() - self.voice_count].0;
                match first_index(self.voices, voice_with_note(oldest), 0, self.voices.len() as int) {
                    Some(i) => self.with_voice(i, self.voices[i].stolen(note, velocity)).holding(
                        note,
                        velocity,
                    ),
                    None => self,
                }
            } else if self.held.len() < self.voices.len() {
                let i = self.held.len() as int;
                self.with_voice(i, self.voices[i].stolen(note, velocity)).holding(note, velocity)
            } else {
                self
            },
        }
    }

    /// A note-off is defined unless it would hand a sounding voice to a held key while
    /// no voice may sound.
    pub open spec fn note_off_defined(self, note: u8) -> bool {
        ||| self.sustained
        ||| self.voice_count > 0
        ||| first_index(self.voices, voice_sounding(note), 0, self.voices.len() as int) is None
    }

    /// The allocator after key `note` went up.
    ///
    /// With the pedal down the release is only remembered. Otherwise the key leaves the
    /// held keys and the first voice that sounds it is released; when at least
    /// `voice_count` keys are still held, that voice plays the oldest of the
    /// `voice_count` most recent of them instead.
    pub open spec fn after_note_off(self, note: u8) -> NotesState<V> {
        if self.sustained {
            NotesState { pending_offs: self.pending_offs.push(note), ..self }
        } else {
            let held = self.held.filter(other_key(note));
            let rest = NotesState { held, ..self };
            match first_index(self.voices, voice_sounding(note), 0, self.voices.len() as int) {
                Some(i) => if held.len() < self.voice_count {
                    rest.with_voice(i, self.voices[i].in_stage(ADSRStage::Release))
                } else {
                    let key = held[held.len() - self.voice_count];
                    rest.with_voice(i, self.voices[i].stolen(key.0, key.1))
                },
                None => rest,
            }
        }
    }

    /// `offs` applied in order, as note-offs, to this state.
    pub open spec fn after_note_offs(self, offs: Seq<u8>) -> NotesState<V>
        decreases offs.len(),
    {
        if offs.len() == 0 {
            self
        } else {
            self.after_note_offs(offs.drop_last()).after_note_off(offs.last())
        }
    }

    /// Lifting the pedal is defined unless a remembered release would hand a sounding
    /// voice to a held key while no voice may sound.
    pub open spec fn sustain_defined(self, sustain: bool) -> bool {
        (self.sustained && !sustain && self.voice_count == 0) ==> forall|k: int|
            0 <= k < self.pending_offs.len() ==> first_index(
                self.voices,
                voice_sounding(#[trigger] self.pending_offs[k]),
                0,
                self.voices.len() as int,
            ) is None
    }

    /// The allocator after the sustain pedal was set to `sustain`; lifting it applies
    /// the remembered releases in the order they came.
    pub open spec fn after_sustain(self, sustain: bool) -> NotesState<V> {
        if self.sustained && !sustain {
            NotesState { sustained: false, pending_offs: Seq::empty(), ..self }.after_note_offs(
                self.pending_offs,
            )
        } else {
            NotesState { sustained: sustain, ..self }
        }
    }

    /// Every voice silenced.
    pub open spec fn silenced(self) -> NotesState<V> {
        NotesState { voices: self.voices.map_values(|n: NoteView<V>| NoteView::silent()), ..self }
    }

    /// Every voice moved into its release.
    pub open spec fn released(self) -> NotesState<V> {
        NotesState {
            voices: self.voices.map_values(|n: NoteView<V>| n.in_stage(ADSRStage::Release)),
            ..self
        }
    }

    /// The allocator after the number of voices was set to `voice_count`: a change
    /// silences every voice.
    pub open spec fn after_set_voice_count(self, voice_count: nat) -> NotesState<V> {
        if voice_count == self.voice_count {
            self
        } else {
            NotesState { voice_count, ..self.silenced() }
        }
    }
}

/// The MIDI controller that holds notes while it is down.
pub const SUSTAIN_PEDAL_CC: u8 = 64;

/// The MIDI controller that silences every voice at once.
pub const ALL_SOUND_OFF_CC: u8 = 120;

/// The MIDI controller that releases every voice.
pub const ALL_NOTES_OFF_CC: u8 = 123;

/// A MIDI event, as far as the voice allocator reads it.
pub enum MidiEvent<V> {
    NoteOn { note: u8, velocity: V },
    NoteOff { note: u8 },
    /// A controller change; only whether its value is above zero matters.
    ControlChange { cc: u8, value_above_zero: bool },
    /// A pitch bend, which the synthesizer does not support.
    PitchBend,
    /// Any other event, which changes nothing.
    Other,
}

impl<V> NotesState<V> {
    /// An event is defined when the action it triggers is; pitch bends are not.
    pub open spec fn event_defined(self, event: MidiEvent<V>) -> bool {
        match event {
            MidiEvent::NoteOn { .. } => self.note_on_defined(),
            MidiEvent::NoteOff { note } => self.note_off_defined(note),
            MidiEvent::ControlChange { cc, value_above_zero } => cc == SUSTAIN_PEDAL_CC
                ==> self.sustain_defined(value_above_zero),
            MidiEvent::PitchBend => false,
            MidiEvent::Other => true,
        }
    }

    /// The allocator after `event`.
    pub open spec fn after_event(self, event: MidiEvent<V>) -> NotesState<V> {
        match event {
            MidiEvent::NoteOn { note, velocity } => self.after_note_on(note, velocity),
            MidiEvent::NoteOff { note } => self.after_note_off(note),
            MidiEvent::ControlChange { cc, value_above_zero } => if cc == SUSTAIN_PEDAL_CC {
                self.after_sustain(value_above_zero)
            } else if cc == ALL_SOUND_OFF_CC {
                self.silenced()
            } else if cc == ALL_NOTES_OFF_CC {
                self.released()
            } else {
                self
            },
            MidiEvent::PitchBend => self,
            MidiEvent::Other => self,
        }
    }
}

/// The polyphonic voice allocator: it decides which voice plays which key.
pub struct Notes<V> {
    notes: Vec<Note<V>>,
    note_queue: Vec<(u8, V)>,
    note_off_queue: Vec<u8>,
    voice_count: usize,
    is_sustained: bool,
}

impl<V> View for Notes<V> {
    type V = NotesState<V>;

    closed spec fn view(&self) -> NotesState<V> {
        NotesState {
            voices: voice_views(self.notes@),
            held: self.note_queue@,
            pending_offs: self.note_off_queue@,
            voice_count: self.voice_count as nat,
            sustained: self.is_sustained,
        }
    }
}

/// `r` names the same index as `i`.
pub open spec fn found_at(r: Option<usize>, i: Option<int>) -> bool {
    match r {
        Some(k) => i == Some(k as int),
        None => i is None,
    }
}

/// The first idle voice among the first `limit`.
fn first_idle_voice<V: Copy>(notes: &Vec<Note<V>>, limit: usize) -> (r: Option<usize>)
    requires
        limit <= notes.len(),
    ensures
        found_at(r, first_index(voice_views(notes@), idle_voice(), 0, limit as int)),
{
    let ghost voices = voice_views(notes@);
    let mut i: usize = 0;
    while i < limit
        invariant
            i <= limit <= notes.len(),
            voices == voice_views(notes@),
            first_index(voices, idle_voice(), 0, limit as int) == first_index(
                voices,
                idle_voice(),
                i as int,
                limit as int,
            ),
        decreases limit - i,
    {
        if *notes[i].get_adsr_stage() == ADSRStage::Idle {
            return Some(i);
        }
        i += 1;
    }
    None
}

/// The first voice that holds `note`.
fn first_voice_with_note<V: Copy>(notes: &Vec<Note<V>>, note: u8) -> (r: Option<usize>)
    ensures
        found_at(r, first_index(voice_views(notes@), voice_with_note(note), 0, notes.len() as int)),
{
    let ghost voices = voice_views(notes@);
    let mut i: usize = 0;
    while i < notes.len()
        invariant
            i <= notes.len(),
            voices == voice_views(notes@),
            first_index(voices, voice_with_note(note), 0, notes.len() as int) == first_index(
                voices,
                voice_with_note(note),
                i as int,
                notes.len() as int,
            ),
        decreases notes.len() - i,
    {
        if notes[i].get_note() == note {
            return Some(i);
        }
        i += 1;
    }
    None
}

/// The first voice that sounds `note`: holds it and is neither idle nor releasing.
fn first_voice_sounding<V: Copy>(notes: &Vec<Note<V>>, note: u8) -> (r: Option<usize>)
    ensures
        found_at(r, first_index(voice_views(notes@), voice_sounding(note), 0, notes.len() as int)),
{
    let ghost voices = voice_views(notes@);
    let mut i: usize = 0;
    while i < notes.len()
        invariant
            i <= notes.len(),
            voices == voice_views(notes@),
            first_index(voices, voice_sounding(note), 0, notes.len() as int) == first_index(
                voices,
                voice_sounding(note),
                i as int,
                notes.len() as int,
            ),
        decreases notes.len() - i,
    {
        let stage = *notes[i].get_adsr_stage();
        if notes[i].get_note() == note && stage != ADSRStage::Idle && stage != ADSRStage::Release {
            return Some(i);
        }
        i += 1;
    }
    None
}

impl<V: Copy> Notes<V> {
    /// An allocator with `MAX_VOICE_COUNT` silent voices, one of which may sound.
    pub fn new() -> (notes: Self)
        ensures
            notes@ == (NotesState::<V> {
                voices: Seq::new(MAX_VOICE_COUNT as nat, |i: int| NoteView::silent()),
                held: Seq::empty(),
                pending_offs: Seq::empty(),
                voice_count: 1,
                sustained: false,
            }),
    {
        let mut notes: Vec<Note<V>> = Vec::new();
        let mut i: usize = 0;
        while i < MAX_VOICE_COUNT
            invariant
                i <= MAX_VOICE_COUNT,
                notes.len() == i,
                forall|j: int| 0 <= j < i ==> (#[trigger] notes@[j])@ == NoteView::<V>::silent(),
            decreases MAX_VOICE_COUNT - i,
        {
            let n = Note::default();
            notes.push(n);
            i += 1;
        }
        assert(voice_views(notes@) =~= Seq::new(MAX_VOICE_COUNT as nat, |j: int| NoteView::<V>::silent()));
        Notes {
            notes,
            note_queue: Vec::with_capacity(128),
            note_off_queue: Vec::with_capacity(128),
            voice_count: 1,
            is_sustained: false,
        }
    }

    /// The voices, for the envelopes to advance.
    pub fn get_notes(&mut self) -> (notes: &mut Vec<Note<V>>)
        ensures
            voice_views(notes@) == old(self)@.voices,
            final(self)@ == (NotesState { voices: voice_views(final(notes)@), ..old(self)@ }),
    {
        &mut self.notes
    }

    /// Key `note` went down at `velocity`.
    pub fn note_on(&mut self, note: u8, velocity: V)
        requires
            old(self)@.note_on_defined(),
        ensures
            final(self)@ == old(self)@.after_note_on(note, velocity),
    {
        let ghost s = self@;
        let limit = if self.voice_count < self.notes.len() {
            self.voice_count
        } else {
            self.notes.len()
        };
        let found = first_idle_voice(&self.notes, limit);
        proof {
            lemma_first_index(s.voices, idle_voice(), 0, limit as int);
        }
        match found {
            Some(i) => {
                self.notes[i].note_on(note, velocity);
                assert(voice_views(self.notes@) =~= s.voices.update(i as int, s.voices[i as int].started(note, velocity)));
            },
            None => {
                if self.note_queue.len() >= self.voice_count {
                    if self.notes.len() == 0 {
                        return;
                    }
                    let oldest = self.note_queue[self.note_queue.len() - self.voice_count].0;
                    let found = first_voice_with_note(&self.notes, oldest);
                    proof {
                        lemma_first_index(s.voices, voice_with_note(oldest), 0, s.voices.len() as int);
                    }
                    match found {
                        Some(i) => {
                            self.notes[i].steal_note(note, velocity);
                            assert(voice_views(self.notes@) =~= s.voices.update(i as int, s.voices[i as int].stolen(note, velocity)));
                        },
                        None => {
                            return;
                        },
                    }
                } else {
                    let i = self.note_queue.len();
                    if i < self.notes.len() {
                        self.notes[i].steal_note(note, velocity);
                        assert(voice_views(self.notes@) =~= s.voices.update(i as int, s.voices[i as int].stolen(note, velocity)));
                    } else {
                        return;
                    }
                }
            },
        }
        self.note_queue.push((note, velocity));
    }

    /// Drops every held key `note`.
    fn forget_key(&mut self, note: u8)
        ensures
            final(self)@ == (NotesState { held: old(self)@.held.filter(other_key(note)), ..old(self)@ }),
    {
        let mut kept: Vec<(u8, V)> = Vec::new();
        let mut k: usize = 0;
        while k < self.note_queue.len()
            invariant
                k <= self.note_queue.len(),
                kept@ == self.note_queue@.take(k as int).filter(other_key(note)),
            decreases self.note_queue.len() - k,
        {
            let key = self.note_queue[k];
            if key.0 != note {
                kept.push(key);
            }
            proof {
                reveal_with_fuel(Seq::filter, 1);
                assert(self.note_queue@.take(k + 1).drop_last() =~= self.note_queue@.take(k as int));
            }
            k += 1;
        }
        assert(self.note_queue@.take(self.note_queue.len() as int) =~= self.note_queue@);
        self.note_queue = kept;
    }

    /// Key `note` went up.
    pub fn note_off(&mut self, note: u8)
        requires
            old(self)@.note_off_defined(note),
        ensures
            final(self)@ == old(self)@.after_note_off(note),
    {
        let ghost s = self@;
        if self.is_sustained {
            self.note_off_queue.push(note);
            return;
        }
        self.forget_key(note);
        let found = first_voice_sounding(&self.notes, note);
        proof {
            lemma_first_index(s.voices, voice_sounding(note), 0, s.voices.len() as int);
        }
        match found {
            Some(i) => {
                if self.note_queue.len() < self.voice_count {
                    self.notes[i].note_off();
                    assert(voice_views(self.notes@) =~= s.voices.update(
                        i as int,
                        s.voices[i as int].in_stage(ADSRStage::Release),
                    ));
                } else {
                    let key = self.note_queue[self.note_queue.len() - self.voice_count];
                    self.notes[i].steal_note(key.0, key.1);
                    assert(voice_views(self.notes@) =~= s.voices.update(
                        i as int,
                        s.voices[i as int].stolen(key.0, key.1),
                    ));
                }
            },
            None => {},
        }
    }

    /// The sustain pedal went to `sustain`; lifting it applies the releases that came
    /// while it was down.
    pub fn sustain(&mut self, sustain: bool)
        requires
            old(self)@.sustain_defined(sustain),
        ensures
            final(self)@ == old(self)@.after_sustain(sustain),
    {
        let prev_is_sustained = self.is_sustained;
        self.is_sustained = sustain;
        if prev_is_sustained && !self.is_sustained {
            let mut notes_to_off: Vec<u8> = Vec::new();
            std::mem::swap(&mut notes_to_off, &mut self.note_off_queue);
            let ghost start = self@;
            let mut k: usize = 0;
            while k < notes_to_off.len()
                invariant
                    k <= notes_to_off.len(),
                    start.sustained == false,
                    start.voice_count == 0 ==> forall|j: int|
                        0 <= j < notes_to_off@.len() ==> first_index(
                            start.voices,
                            voice_sounding(#[trigger] notes_to_off@[j]),
                            0,
                            start.voices.len() as int,
                        ) is None,
                    self@ == start.after_note_offs(notes_to_off@.take(k as int)),
                    self@.sustained == false,
                    self@.voice_count == start.voice_count,
                    start.voice_count == 0 ==> self@.voices == start.voices,
                decreases notes_to_off.len() - k,
            {
                let off = notes_to_off[k];
                self.note_off(off);
                assert(notes_to_off@.take(k + 1).drop_last() =~= notes_to_off@.take(k as int));
                k += 1;
            }
            assert(notes_to_off@.take(notes_to_off.len() as int) =~= notes_to_off@);
        }
    }

    /// Sets how many voices may sound at once; a change silences every voice.
    pub fn set_voice_count(&mut self, voice_count: usize)
        ensures
            final(self)@ == old(self)@.after_set_voice_count(voice_count as nat),
    {
        if voice_count == self.voice_count {
            return;
        }
        self.remove_notes();
        self.voice_count = voice_count;
    }

    /// Silences every voice.
    pub fn remove_notes(&mut self)
        ensures
            final(self)@ == old(self)@.silenced(),
    {
        let ghost s = self@;
        let mut i: usize = 0;
        while i < self.notes.len()
            invariant
                i <= self.notes.len(),
                self.notes.len() == s.voices.len(),
                self@ == (NotesState { voices: self@.voices, ..s }),
                forall|j: int| 0 <= j < i ==> (#[trigger] self.notes@[j])@ == NoteView::<V>::silent(),
                forall|j: int| i <= j < self.notes.len() ==> (#[trigger] self.notes@[j])@ == s.voices[j],
            decreases self.notes.len() - i,
        {
            self.notes[i].reset_note();
            i += 1;
        }
        assert(self@.voices =~= s.silenced().voices);
    }

    /// Moves every voice into its release.
    pub fn release_notes(&mut self)
        ensures
            final(self)@ == old(self)@.released(),
    {
        let ghost s = self@;
        let mut i: usize = 0;
        while i < self.notes.len()
            invariant
                i <= self.notes.len(),
                self.notes.len() == s.voices.len(),
                self@ == (NotesState { voices: self@.voices, ..s }),
                forall|j: int|
                    0 <= j < i ==> (#[trigger] self.notes@[j])@ == s.voices[j].in_stage(ADSRStage::Release),
                forall|j: int| i <= j < self.notes.len() ==> (#[trigger] self.notes@[j])@ == s.voices[j],
            decreases self.notes.len() - i,
        {
            self.notes[i].set_adsr_stage(ADSRStage::Release);
            i += 1;
        }
        assert(self@.voices =~= s.released().voices);
    }

    /// Whether `event` may be applied: pitch bends are not supported, and an event that
    /// would hand a sounding voice to a held key while no voice may sound is refused.
    pub fn handles_event(&self, event: &MidiEvent<V>) -> (b: bool)
        ensures
            b == self@.event_defined(*event),
    {
        match event {
            MidiEvent::NoteOn { .. } => self.voice_count > 0 || self.notes.len() == 0,
            MidiEvent::NoteOff { note } => {
                self.is_sustained || self.voice_count > 0 || first_voice_sounding(
                    &self.notes,
                    *note,
                ).is_none()
            },
            MidiEvent::ControlChange { cc, value_above_zero } => {
                if *cc != SUSTAIN_PEDAL_CC || !self.is_sustained || *value_above_zero
                    || self.voice_count > 0 {
                    return true;
                }
                let mut k: usize = 0;
                while k < self.note_off_queue.len()
                    invariant
                        k <= self.note_off_queue.len(),
                        *cc == SUSTAIN_PEDAL_CC,
                        *event == (MidiEvent::<V>::ControlChange {
                            cc: *cc,
                            value_above_zero: *value_above_zero,
                        }),
                        self@.sustained,
                        !*value_above_zero,
                        self@.voice_count == 0,
                        forall|j: int|
                            0 <= j < k ==> first_index(
                                self@.voices,
                                voice_sounding(#[trigger] self@.pending_offs[j]),
                                0,
                                self@.voices.len() as int,
                            ) is None,
                    decreases self.note_off_queue.len() - k,
                {
                    if first_voice_sounding(&self.notes, self.note_off_queue[k]).is_some() {
                        assert(first_index(
                            self@.voices,
                            voice_sounding(self@.pending_offs[k as int]),
                            0,
                            self@.voices.len() as int,
                        ) is Some);
                        return false;
                    }
                    k += 1;
                }
                true
            },
            MidiEvent::PitchBend => false,
            MidiEvent::Other => true,
        }
    }

    /// Applies one incoming MIDI event.
    pub fn process_midi_event(&mut self, event: MidiEvent<V>)
        requires
            old(self)@.event_defined(event),
        ensures
            final(self)@ == old(self)@.after_event(event),
    {
        match event {
            MidiEvent::NoteOn { note, velocity } => self.note_on(note, velocity),
            MidiEvent::NoteOff { note } => self.note_off(note),
            MidiEvent::ControlChange { cc, value_above_zero } => {
                if cc == SUSTAIN_PEDAL_CC {
                    self.sustain(value_above_zero);
                } else if cc == ALL_SOUND_OFF_CC {
                    self.remove_notes();
                } else if cc == ALL_NOTES_OFF_CC {
                    self.release_notes();
                }
            },
            MidiEvent::PitchBend => {},
            MidiEvent::Other => {},
        }
    }
}

} // verus!
