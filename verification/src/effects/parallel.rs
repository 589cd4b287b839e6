use crate::effects::{Expression, FixtureQuery, Type, Value};
use crate::ids::{EffectId, EffectSpecId, EffectTemplateId};
use crate::keyed::KeyedVec;
use vstd::prelude::*;

verus! {

/// Specs run side by side, each on its own fixtures.
#[derive(Debug)]
pub struct ParallelEffectSpecBody {
    items: Vec<(EffectSpecId, FixtureQuery)>,
}

impl ParallelEffectSpecBody {
    /// The specs and the fixtures each runs on.
    pub closed spec fn items_spec(self) -> Seq<(EffectSpecId, FixtureQuery)> {
        self.items@
    }

    /// The specs and the fixtures each runs on.
    pub fn items(&self) -> (r: &Vec<(EffectSpecId, FixtureQuery)>)
        ensures
            r@ == self.items_spec(),
    {
        &self.items
    }

    /// Specs run side by side.
    pub fn new(items: Vec<(EffectSpecId, FixtureQuery)>) -> (r: Self)
        ensures
            r.items_spec() == items@,
    {
        ParallelEffectSpecBody { items }
    }
}

/// The body of a parallel template.
#[derive(Debug)]
pub enum ParallelEffectTemplateBody {
    FromSpec {
        spec_key: (EffectSpecId, FixtureQuery),
        spec_props: KeyedVec<String, Expression>,
        props: KeyedVec<String, Type>,
    },
    New { props: KeyedVec<String, Type>, items: Vec<EffectTemplateId> },
}

/// The body of a parallel effect.
#[derive(Debug)]
pub enum ParallelEffectBody {
    FromTemplate { tmpl_id: EffectTemplateId, tmpl_props: KeyedVec<String, Value> },
    New { items: Vec<EffectId> },
}

impl ParallelEffectBody {
    /// No items.
    pub fn new() -> (r: Self)
        ensures
            r matches ParallelEffectBody::New { items } && items@.len() == 0,
    {
        ParallelEffectBody::New { items: Vec::new() }
    }
}

} // verus!
