use vstd::prelude::*;

verus! {

/// Stage of a voice's amplitude envelope. `Idle` is the stage of a silent,
/// unallocated voice.
#[derive(Clone, Copy, Debug, PartialEq, Eq, Structural)]
pub enum EnvStage {
    Idle,
    Attack,
    Decay,
    Sustain,
    Release,
}

/// The stage that follows `stage` for one sample, where `elapsed` says that the
/// time spent in the current stage has reached that stage's duration.
/// Attack leads to Decay, Decay to Sustain, and Release to Idle; Sustain holds
/// until a note-off, and Idle stays Idle.
pub open spec fn next_stage(stage: EnvStage, elapsed: bool) -> EnvStage {
    match stage {
        EnvStage::Attack => if elapsed { EnvStage::Decay } else { EnvStage::Attack },
        EnvStage::Decay => if elapsed { EnvStage::Sustain } else { EnvStage::Decay },
        EnvStage::Release => if elapsed { EnvStage::Idle } else { EnvStage::Release },
        EnvStage::Sustain => EnvStage::Sustain,
        EnvStage::Idle => EnvStage::Idle,
    }
}

impl EnvStage {
    /// Advances the stage by one sample (see `next_stage`).
    pub fn advance(self, elapsed: bool) -> (r: EnvStage)
        ensures
            r == next_stage(self, elapsed),
    {
        match self {
            EnvStage::Attack => if elapsed { EnvStage::Decay } else { EnvStage::Attack },
            EnvStage::Decay => if elapsed { EnvStage::Sustain } else { EnvStage::Decay },
            EnvStage::Release => if elapsed { EnvStage::Idle } else { EnvStage::Release },
            EnvStage::Sustain => EnvStage::Sustain,
            EnvStage::Idle => EnvStage::Idle,
        }
    }

    /// Whether a note-off moves this stage to Release: every sounding stage
    /// does, except Release itself.
    pub fn releases_on_note_off(self) -> (r: bool)
        ensures
            r == (self != EnvStage::Idle && self != EnvStage::Release),
    {
        match self {
            EnvStage::Idle | EnvStage::Release => false,
            _ => true,
        }
    }
}

/// A sounding stage reaches Idle exactly when it is Release and the release
/// time is up.
pub proof fn lemma_idle_only_after_release(stage: EnvStage, elapsed: bool)
    requires
        stage != EnvStage::Idle,
    ensures
        next_stage(stage, elapsed) == EnvStage::Idle <==> (stage == EnvStage::Release && elapsed),
{
}

} // verus!
