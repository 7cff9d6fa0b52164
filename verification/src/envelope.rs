use vstd::prelude::*;

verus! {

/// The stage an amplitude envelope is in.
#[derive(Clone, Copy, Debug, PartialEq, Eq, Structural)]
pub enum ADSRStage {
    Attack,
    Decay,
    Sustain,
    Release,
    Retrigger,
    Idle,
}

/// The stage that follows `stage` after one envelope step; `target_reached` tells
/// whether the step reached the level the stage moves towards.
pub open spec fn stage_after_step(stage: ADSRStage, target_reached: bool) -> ADSRStage {
    if !target_reached {
        stage
    } else {
        match stage {
            ADSRStage::Attack => ADSRStage::Decay,
            ADSRStage::Decay => ADSRStage::Sustain,
            ADSRStage::Release => ADSRStage::Idle,
            ADSRStage::Retrigger => ADSRStage::Attack,
            ADSRStage::Sustain => ADSRStage::Sustain,
            ADSRStage::Idle => ADSRStage::Idle,
        }
    }
}

impl ADSRStage {
    /// The stage after one envelope step.
    pub fn after_step(self, target_reached: bool) -> (next: ADSRStage)
        ensures
            next == stage_after_step(self, target_reached),
    {
        if !target_reached {
            return self;
        }
        match self {
            ADSRStage::Attack => ADSRStage::Decay,
            ADSRStage::Decay => ADSRStage::Sustain,
            ADSRStage::Release => ADSRStage::Idle,
            ADSRStage::Retrigger => ADSRStage::Attack,
            ADSRStage::Sustain => ADSRStage::Sustain,
            ADSRStage::Idle => ADSRStage::Idle,
        }
    }
}

/// Idle and sustaining envelopes stay where they are, whatever a step reaches.
pub proof fn law_resting_stages_are_fixed(target_reached: bool)
    ensures
        stage_after_step(ADSRStage::Idle, target_reached) == ADSRStage::Idle,
        stage_after_step(ADSRStage::Sustain, target_reached) == ADSRStage::Sustain,
{
}

/// Stepping alone never starts a release or a retrigger: only note events do.
pub proof fn law_steps_never_enter_release_or_retrigger(stage: ADSRStage, target_reached: bool)
    ensures
        stage_after_step(stage, target_reached) == ADSRStage::Release ==> stage == ADSRStage::Release,
        stage_after_step(stage, target_reached) == ADSRStage::Retrigger ==> stage
            == ADSRStage::Retrigger,
{
}

/// An envelope whose steps keep reaching their targets comes to rest, idle or
/// sustaining, within three steps; a retriggered one goes through a new attack and decay.
pub proof fn law_envelope_comes_to_rest(stage: ADSRStage)
    ensures
        ({
            let last = stage_after_step(
                stage_after_step(stage_after_step(stage, true), true),
                true,
            );
            last == ADSRStage::Idle || last == ADSRStage::Sustain
        }),
        stage == ADSRStage::Retrigger ==> stage_after_step(stage, true) == ADSRStage::Attack
            && stage_after_step(ADSRStage::Attack, true) == ADSRStage::Decay
            && stage_after_step(ADSRStage::Decay, true) == ADSRStage::Sustain,
{
}

} // verus!
