//! When the model is loaded, so repeated dictations do not pay for loading it.
use vstd::prelude::*;

verus! {

/// Where the model for a transcription comes from.
#[derive(Clone, Copy, Debug, PartialEq, Eq, Structural)]
pub enum ModelUse {
    /// The one that is in memory.
    Resident,
    /// Load it, and keep it from now on.
    LoadAndKeep,
    /// Load it for this once.
    LoadOnce,
}

/// Whether the model is to stay in memory between dictations, and whether it is there.
#[derive(Clone, Copy, Debug, PartialEq, Eq, Structural)]
pub struct Engine {
    pub keep_loaded: bool,
    pub resident: bool,
}

impl Engine {
    /// Nothing stays in memory that is not meant to.
    pub open spec fn wf(self) -> bool {
        self.resident ==> self.keep_loaded
    }

    /// Where the model for the next transcription comes from.
    pub open spec fn next_use(self) -> ModelUse {
        if !self.keep_loaded {
            ModelUse::LoadOnce
        } else if self.resident {
            ModelUse::Resident
        } else {
            ModelUse::LoadAndKeep
        }
    }

    /// The engine after a load that worked: the model stays, if it is meant to.
    pub open spec fn after_load(self) -> Engine {
        Engine { keep_loaded: self.keep_loaded, resident: self.keep_loaded }
    }

    /// An engine without a model.
    pub fn new(keep_model_loaded: bool) -> (r: Engine)
        ensures
            r.wf(),
            r == (Engine { keep_loaded: keep_model_loaded, resident: false }),
    {
        Engine { keep_loaded: keep_model_loaded, resident: false }
    }

    /// Whether to load the model before the first dictation.
    pub fn loads_at_start(&self) -> (r: bool)
        ensures
            r == self.keep_loaded,
    {
        self.keep_loaded
    }

    /// Where the model for the next transcription comes from.
    pub fn transcribe(&self) -> (r: ModelUse)
        ensures
            r == self.next_use(),
    {
        if self.keep_loaded {
            if self.resident {
                ModelUse::Resident
            } else {
                ModelUse::LoadAndKeep
            }
        } else {
            ModelUse::LoadOnce
        }
    }

    /// Takes note of a load that worked. One that failed changes nothing, so that the next
    /// transcription tries again.
    pub fn loaded(&mut self)
        ensures
            *final(self) == old(self).after_load(),
            final(self).wf(),
    {
        self.resident = self.keep_loaded;
    }
}

/// How often the model is loaded in `runs` transcriptions in a row that all work.
pub open spec fn loads(engine: Engine, runs: nat) -> nat
    decreases runs,
{
    if runs == 0 {
        0
    } else if engine.next_use() == ModelUse::Resident {
        loads(engine, (runs - 1) as nat)
    } else {
        1 + loads(engine.after_load(), (runs - 1) as nat)
    }
}

/// A model that is kept is loaded once and for all; one that is not is loaded each time.
pub proof fn law_kept_model_is_loaded_once(engine: Engine, runs: nat)
    ensures
        engine.keep_loaded && engine.resident ==> loads(engine, runs) == 0,
        engine.keep_loaded && !engine.resident && runs > 0 ==> loads(engine, runs) == 1,
        !engine.keep_loaded ==> loads(engine, runs) == runs,
    decreases runs,
{
    if runs > 0 {
        law_kept_model_is_loaded_once(engine, (runs - 1) as nat);
        law_kept_model_is_loaded_once(engine.after_load(), (runs - 1) as nat);
    }
}

/// Where the model comes from: from memory only if it is kept and there, and it stays only if it is
/// to be kept.
pub proof fn law_where_the_model_comes_from(engine: Engine)
    ensures
        engine.next_use() == ModelUse::LoadOnce <==> !engine.keep_loaded,
        engine.next_use() == ModelUse::Resident <==> engine.keep_loaded && engine.resident,
        engine.after_load().resident == engine.keep_loaded,
        engine.after_load().keep_loaded == engine.keep_loaded,
{
}

} // verus!
