use crate::effects::{Expression, FixtureQuery, Type, Value};
use crate::ids::{EffectId, EffectSpecId, EffectTemplateId};
use crate::keyed::KeyedVec;
use crate::time::Duration;
use vstd::prelude::*;

verus! {

/// A step of a sequence spec or template.
#[derive(Debug)]
pub struct SequenceTemplateStepBase<T> {
    /// How long the step holds, after its fade-in.
    pub hold: Expression,
    pub fade_in: Expression,
    /// What the step runs.
    pub key: T,
}

/// Steps of specs, each on its own fixtures.
#[derive(Debug)]
pub struct SequenceEffectSpecBody {
    pub props: KeyedVec<String, Type>,
    pub steps: Vec<SequenceTemplateStepBase<(EffectSpecId, FixtureQuery)>>,
}

/// The body of a sequence template.
#[derive(Debug)]
pub enum SequenceEffectTemplateBody {
    FromSpec {
        spec_key: (EffectSpecId, FixtureQuery),
        spec_props: KeyedVec<String, Expression>,
        props: KeyedVec<String, Type>,
    },
    New {
        props: KeyedVec<String, Type>,
        steps: Vec<SequenceTemplateStepBase<EffectTemplateId>>,
        fixtures: FixtureQuery,
    },
}

/// A spec that could not be found.
#[derive(Debug)]
pub enum FromSpecError {
    SpecNotFound(EffectSpecId),
}

/// The body of a sequence effect.
#[derive(Debug)]
pub enum SequenceEffectBody {
    FromTemplate(EffectTemplateId, KeyedVec<String, Value>),
    New(Vec<SequenceStep>),
}

impl SequenceEffectBody {
    /// No steps.
    pub fn new() -> (r: Self)
        ensures
            r matches SequenceEffectBody::New(steps) && steps@.len() == 0,
    {
        SequenceEffectBody::New(Vec::new())
    }
}

/// A step of a sequence effect.
#[derive(Clone, Copy, Debug)]
pub struct SequenceStep {
    hold: Duration,
    fade_in: Option<Duration>,
    effect_id: EffectId,
}

impl SequenceStep {
    pub closed spec fn hold_spec(self) -> Duration {
        self.hold
    }

    pub closed spec fn fade_in_spec(self) -> Option<Duration> {
        self.fade_in
    }

    pub closed spec fn effect_id_spec(self) -> EffectId {
        self.effect_id
    }

    /// A step that fades in for `fade_in` (none if `None`), then runs
    /// `effect_id` for `hold`.
    pub fn new(hold: Duration, fade_in: Option<Duration>, effect_id: EffectId) -> (r: Self)
        ensures
            r.hold_spec() == hold,
            r.fade_in_spec() == fade_in,
            r.effect_id_spec() == effect_id,
    {
        SequenceStep { hold, fade_in, effect_id }
    }

    pub fn hold(&self) -> (r: Duration)
        ensures
            r == self.hold_spec(),
    {
        self.hold
    }

    pub fn fade_in(&self) -> (r: Option<Duration>)
        ensures
            r == self.fade_in_spec(),
    {
        self.fade_in
    }

    pub fn effect_id(&self) -> (r: EffectId)
        ensures
            r == self.effect_id_spec(),
    {
        self.effect_id
    }
}

} // verus!
