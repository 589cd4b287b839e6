//! Why a change to the document, or a lookup in it, was refused.
use crate::fixture_def::{FixtureDefId, FixtureDefLookupError};
use crate::ids::{EffectId, EffectSpecId, EffectTemplateId, FixtureId};
use crate::universe::{DmxAddress, UniverseId};
use vstd::prelude::*;

verus! {

/// Why an address could not be resolved to a channel.
#[derive(Debug)]
pub enum ResolveError {
    FixtureNotFound(FixtureNotFoundError),
    /// The fixture's mode has no channel of this name.
    ChannelNotFound { fixture_def: FixtureDefId, mode: String, channel: String },
    /// The fixture's mode has no channel at this offset.
    ChannelWithOffsetNotFound { fixture_def: FixtureDefId, mode: String, offset: usize },
}

/// There is no fixture with this id.
#[derive(Debug, Clone, Copy, PartialEq, Eq, Structural)]
pub struct FixtureNotFoundError(pub FixtureId);

/// The definition of a fixture could not be found.
#[derive(Debug)]
pub struct FixtureDefNotFoundError {
    pub fixture_id: FixtureId,
    pub fixture_def_id: FixtureDefId,
    pub source: FixtureDefLookupError,
}

/// A definition has no mode of this name.
#[derive(Debug)]
pub struct ModeNotFoundError {
    pub fixture_def: FixtureDefId,
    pub mode: String,
}

/// Why an output of a universe could not be changed.
#[derive(Debug, Clone, Copy, PartialEq, Eq, Structural)]
pub enum OutputMapError {
    UniverseNotFound(UniverseId),
}

/// Why a fixture could not be added.
#[derive(Debug)]
pub enum FixtureAddError {
    FixtureDefNotFound(FixtureDefNotFoundError),
    ModeNotFound(ModeNotFoundError),
    AddressValidateError(ValidateError),
    FixtureAlreadyExists(FixtureId),
}

/// Why a fixture could not be updated.
#[derive(Debug)]
pub enum FixtureUpdateError {
    FixtureNotFound(FixtureNotFoundError),
    ModeNotFound(ModeNotFoundError),
    AddressValidateError(ValidateError),
}

/// Why the slots of a fixture are not free.
#[derive(Debug)]
pub enum ValidateError {
    /// Each slot that another fixture already takes, in the order of the
    /// new fixture's channels.
    AddressConflicted(Vec<AddressConflictedError>),
}

/// One slot that two fixtures would share.
#[derive(Debug, Clone, Copy, PartialEq, Eq, Structural)]
pub struct AddressConflictedError {
    pub universe: UniverseId,
    pub address: DmxAddress,
    pub existing_fixture_id: FixtureId,
    pub existing_offset: usize,
    pub new_fixture_id: FixtureId,
    pub new_offset: usize,
}

/// Why a fixture could not be removed.
#[derive(Debug, Clone, Copy, PartialEq, Eq, Structural)]
pub enum FixtureRemoveError {
    FixtureNotFound(FixtureNotFoundError),
}

#[derive(Debug, Clone, Copy, PartialEq, Eq, Structural)]
pub enum AddEffectSpecError {
    IdAlreadyUsed(EffectSpecId),
}

#[derive(Debug, Clone, Copy, PartialEq, Eq, Structural)]
pub enum UpdateEffectSpecError {
    NotFound(EffectSpecId),
}

#[derive(Debug, Clone, Copy, PartialEq, Eq, Structural)]
pub enum RemoveEffectSpecError {
    NotFound(EffectSpecId),
}

#[derive(Debug, Clone, Copy, PartialEq, Eq, Structural)]
pub enum AddEffectTemplateError {
    IdAlreadyUsed(EffectTemplateId),
}

#[derive(Debug, Clone, Copy, PartialEq, Eq, Structural)]
pub enum UpdateEffectTemplateError {
    NotFound(EffectTemplateId),
}

#[derive(Debug, Clone, Copy, PartialEq, Eq, Structural)]
pub enum RemoveEffectTemplateError {
    NotFound(EffectTemplateId),
}

#[derive(Debug, Clone, Copy, PartialEq, Eq, Structural)]
pub enum AddEffectError {
    IdAlreadyUsed(EffectId),
}

#[derive(Debug, Clone, Copy, PartialEq, Eq, Structural)]
pub enum UpdateEffectError {
    NotFound(EffectId),
}

#[derive(Debug, Clone, Copy, PartialEq, Eq, Structural)]
pub enum RemoveEffectError {
    NotFound(EffectId),
}

/// Why an address index could not be built from stored fixtures.
#[derive(Debug)]
pub enum AddressIndexConstructError {
    FixtureDefNotFound(FixtureDefNotFoundError),
    /// The definition of fixture `fixture_id` has no mode of its name.
    ModeNotFound { fixture_id: FixtureId, source: ModeNotFoundError },
}

} // verus!
