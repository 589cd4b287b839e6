//! The document: what is patched where, which effects exist, and the
//! validated, undoable changes to it.
pub mod state;
pub mod errors;
pub mod commands;
pub mod decider;
pub mod document;
pub mod resolve;
pub mod load;
pub mod project;


pub use state::{AddressIndex, DocState, DocView, UniverseSetting};


use crate::fixture_def::FixtureDefId;
use crate::ids::{EffectId, EffectSpecId, EffectTemplateId, FixtureId};
use crate::universe::{DmxAddress, UniverseId};
use vstd::prelude::*;

verus! {

/// What a change did, for the user interface to react to.
#[derive(Debug)]
pub enum DocEffect {
    UniverseSettingsChanged,
    UniverseAdded(UniverseId),
    UniverseRemoved(UniverseId),
    FixtureAdded(FixtureId),
    FixtureUpdated(FixtureId),
    FixtureRemoved(FixtureId),
    FixtureDefAdded(FixtureDefId),
    FixtureDefUpdated(FixtureDefId),
    FixtureDefRemoved(FixtureDefId),
    EffectSpecAdded(EffectSpecId),
    EffectSpecUpdated(EffectSpecId),
    EffectSpecRemoved(EffectSpecId),
    EffectTemplateAdded(EffectTemplateId),
    EffectTemplateUpdated(EffectTemplateId),
    EffectTemplateRemoved(EffectTemplateId),
    EffectAdded(EffectId),
    EffectUpdated(EffectId),
    EffectRemoved(EffectId),
    AddressIndexChanged((UniverseId, DmxAddress), (FixtureId, usize)),
    DefRegistryLoaded,
}

/// Keeps the effects of the changes made to a document, for those who
/// replay them.
pub trait EventStore {
    fn append(&self, event: DocEffect);
}

} // verus!
