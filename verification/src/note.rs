use vstd::prelude::*;

use crate::envelope::ADSRStage;

verus! {

/// The loudness of a voice, as a function of the velocity that started it.
///
/// A voice started from silence plays at the square root of its velocity; a voice
/// that is taken over by another note plays at the velocity itself.
#[derive(Clone, Copy, Debug)]
pub enum Gain<V> {
    Zero,
    SquareRootOf(V),
    Linear(V),
}

/// What a voice holds: the MIDI note it plays, its gain and its envelope stage.
pub struct NoteView<V> {
    pub note: u8,
    pub gain: Gain<V>,
    pub stage: ADSRStage,
}

impl<V> NoteView<V> {
    /// A voice that plays nothing.
    pub open spec fn silent() -> NoteView<V> {
        NoteView { note: 0, gain: Gain::Zero, stage: ADSRStage::Idle }
    }

    /// The voice after it was started from silence with `note` at `velocity`.
    pub open spec fn started(self, note: u8, velocity: V) -> NoteView<V> {
        NoteView { note, gain: Gain::SquareRootOf(velocity), stage: ADSRStage::Attack }
    }

    /// The voice after `note` took it over at `velocity`: an idle voice starts its
    /// attack, any other voice first ramps down.
    pub open spec fn stolen(self, note: u8, velocity: V) -> NoteView<V> {
        NoteView {
            note,
            gain: Gain::Linear(velocity),
            stage: if self.stage == ADSRStage::Idle {
                ADSRStage::Attack
            } else {
                ADSRStage::Retrigger
            },
        }
    }

    /// The voice with its envelope moved to `stage`.
    pub open spec fn in_stage(self, stage: ADSRStage) -> NoteView<V> {
        NoteView { stage, ..self }
    }
}

/// One voice of the synthesizer.
#[derive(Clone, Copy)]
pub struct Note<V> {
    note: u8,
    gain: Gain<V>,
    adsr_stage: ADSRStage,
}

impl<V> View for Note<V> {
    type V = NoteView<V>;

    closed spec fn view(&self) -> NoteView<V> {
        NoteView { note: self.note, gain: self.gain, stage: self.adsr_stage }
    }
}

impl<V: Copy> Note<V> {
    /// A silent, idle voice.
    pub fn default() -> (n: Self)
        ensures
            n@ == NoteView::<V>::silent(),
    {
        Note { note: 0, gain: Gain::Zero, adsr_stage: ADSRStage::Idle }
    }

    /// Starts `note` on this voice at `velocity`.
    pub fn note_on(&mut self, note: u8, velocity: V)
        ensures
            final(self)@ == old(self)@.started(note, velocity),
    {
        self.note = note;
        self.gain = Gain::SquareRootOf(velocity);
        self.adsr_stage = ADSRStage::Attack;
    }

    /// Moves this voice into its release.
    pub fn note_off(&mut self)
        ensures
            final(self)@ == old(self)@.in_stage(ADSRStage::Release),
    {
        self.adsr_stage = ADSRStage::Release;
    }

    /// Hands this voice over to `note` at `velocity`.
    pub fn steal_note(&mut self, note: u8, velocity: V)
        ensures
            final(self)@ == old(self)@.stolen(note, velocity),
    {
        self.note = note;
        self.gain = Gain::Linear(velocity);
        self.adsr_stage = match self.adsr_stage {
            ADSRStage::Idle => ADSRStage::Attack,
            _ => ADSRStage::Retrigger,
        };
    }

    /// Silences this voice.
    pub fn reset_note(&mut self)
        ensures
            final(self)@ == NoteView::<V>::silent(),
    {
        self.note = 0;
        self.gain = Gain::Zero;
        self.adsr_stage = ADSRStage::Idle;
    }

    /// Moves the envelope of this voice to `adsr_stage`.
    pub fn set_adsr_stage(&mut self, adsr_stage: ADSRStage)
        ensures
            final(self)@ == old(self)@.in_stage(adsr_stage),
    {
        self.adsr_stage = adsr_stage;
    }

    /// The MIDI note this voice plays.
    pub fn get_note(&self) -> (note: u8)
        ensures
            note == self@.note,
    {
        self.note
    }

    /// The gain of this voice.
    pub fn get_gain(&self) -> (gain: Gain<V>)
        ensures
            gain == self@.gain,
    {
        self.gain
    }

    /// The envelope stage of this voice.
    pub fn get_adsr_stage(&self) -> (stage: &ADSRStage)
        ensures
            *stage == self@.stage,
    {
        &self.adsr_stage
    }
}

} // verus!
