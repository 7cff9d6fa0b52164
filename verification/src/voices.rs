use vstd::prelude::*;

use crate::envelope::ADSRStage;
use crate::note::{Note, NoteView};
use crate::notes::voice_views;

verus! {

/// The slot numbers `0..count`.
pub open spec fn slot_indices(count: nat) -> Seq<usize> {
    Seq::new(count, |i: int| i as usize)
}

/// A slot whose voice is not idle.
pub open spec fn slot_sounds<V>(voices: Seq<NoteView<V>>) -> spec_fn(usize) -> bool {
    |i: usize| voices[i as int].stage != ADSRStage::Idle
}

/// The slots, among the first `slots`, whose voice must be rendered: those that are
/// not idle, in slot order.
pub open spec fn sounding_slots<V>(voices: Seq<NoteView<V>>, slots: nat) -> Seq<usize> {
    let count = if slots < voices.len() {
        slots
    } else {
        voices.len()
    };
    slot_indices(count).filter(slot_sounds(voices))
}

/// The voices, among the first `slots`, that produce sound.
pub fn sounding_voices<V: Copy>(notes: &Vec<Note<V>>, slots: usize) -> (r: Vec<usize>)
    ensures
        r@ == sounding_slots(voice_views(notes@), slots as nat),
{
    let ghost voices = voice_views(notes@);
    let count = if slots < notes.len() {
        slots
    } else {
        notes.len()
    };
    let mut r: Vec<usize> = Vec::new();
    let mut k: usize = 0;
    while k < count
        invariant
            k <= count <= notes.len(),
            voices == voice_views(notes@),
            r@ == slot_indices(k as nat).filter(slot_sounds(voices)),
        decreases count - k,
    {
        if *notes[k].get_adsr_stage() != ADSRStage::Idle {
            r.push(k);
        }
        proof {
            reveal_with_fuel(Seq::filter, 1);
            assert(slot_indices((k + 1) as nat).drop_last() =~= slot_indices(k as nat));
        }
        k += 1;
    }
    r
}

/// Every voice that is not idle is rendered, whatever else its stage (a release tail is
/// heard), idle voices are not, and slots come out in increasing order without repeats.
pub proof fn law_rendered_exactly_the_non_idle_voices<V>(voices: Seq<NoteView<V>>, slots: nat)
    requires
        voices.len() <= usize::MAX,
    ensures
        ({
            let count = if slots < voices.len() {
                slots
            } else {
                voices.len()
            };
            let r = sounding_slots(voices, slots);
            &&& forall|k: int|
                0 <= k < count ==> (r.contains(k as usize) <==> (#[trigger] voices[k]).stage
                    != ADSRStage::Idle)
            &&& forall|j: int|
                0 <= j < r.len() ==> (#[trigger] r[j]) < count && voices[r[j] as int].stage
                    != ADSRStage::Idle
            &&& forall|j: int, l: int| 0 <= j < l < r.len() ==> #[trigger] r[j] < #[trigger] r[l]
        }),
{
    let count = if slots < voices.len() {
        slots
    } else {
        voices.len()
    };
    lemma_slots_filter(voices, count);
    let idx = slot_indices(count);
    let r = sounding_slots(voices, slots);
    assert forall|k: int| 0 <= k < count implies (r.contains(k as usize) <==> (
    #[trigger] voices[k]).stage != ADSRStage::Idle) by {
        assert(idx[k] == k as usize);
        if voices[k].stage != ADSRStage::Idle {
            idx.lemma_filter_contains(slot_sounds(voices), k);
        }
        if r.contains(k as usize) {
            let j = choose|j: int| 0 <= j < r.len() && r[j] == k as usize;
            idx.lemma_filter_pred(slot_sounds(voices), j);
        }
    }
}

/// The filtered slot numbers are below `count`, increasing, and each names a voice
/// that is not idle.
proof fn lemma_slots_filter<V>(voices: Seq<NoteView<V>>, count: nat)
    requires
        count <= usize::MAX,
    ensures
        ({
            let r = slot_indices(count).filter(slot_sounds(voices));
            &&& forall|j: int|
                0 <= j < r.len() ==> (#[trigger] r[j]) < count && voices[r[j] as int].stage
                    != ADSRStage::Idle
            &&& forall|j: int, l: int| 0 <= j < l < r.len() ==> #[trigger] r[j] < #[trigger] r[l]
        }),
    decreases count,
{
    reveal_with_fuel(Seq::filter, 1);
    if count > 0 {
        lemma_slots_filter(voices, (count - 1) as nat);
        assert(slot_indices(count).drop_last() =~= slot_indices((count - 1) as nat));
        assert(slot_indices(count).last() == (count - 1) as usize);
    }
}

} // verus!
