use crate::effects::{Expression, FixtureQuery, Type, Value};
use crate::ids::{EffectSpecId, EffectTemplateId, FixtureId};
use crate::keyed::KeyedVec;
use vstd::prelude::*;

verus! {

/// A simple spec: the dimmer level and color to give every selected fixture.
#[derive(Debug)]
pub struct SimpleEffectSpecBody {
    pub dimmer: Option<Expression>,
    pub color: Option<Expression>,
}

impl SimpleEffectSpecBody {
    /// Neither dimmer nor color.
    pub fn new() -> (r: Self)
        ensures
            r.dimmer.is_none(),
            r.color.is_none(),
    {
        SimpleEffectSpecBody { dimmer: None, color: None }
    }
}

/// The body of a simple template.
#[derive(Debug)]
pub enum SimpleEffectTemplateBody {
    /// A spec with some of its properties given.
    FromSpec {
        spec_id: EffectSpecId,
        spec_props: KeyedVec<String, Expression>,
        props: KeyedVec<String, Type>,
        fixtures: FixtureQuery,
    },
    /// Fixed channel values plus a dimmer level and a color for the selected
    /// fixtures.
    New {
        fixtures: FixtureQuery,
        values: KeyedVec<(FixtureId, usize), u8>,
        dimmer: Expression,
        color: Expression,
        props: KeyedVec<String, Type>,
    },
}

impl SimpleEffectTemplateBody {
    /// A template for the default query with no values, dimmer 0 and black.
    pub fn new() -> (r: Self)
        ensures
            r matches SimpleEffectTemplateBody::New { fixtures, values, dimmer, color, props }
                && fixtures.is_default() && values@ == Map::<(FixtureId, usize), u8>::empty()
                && dimmer == Expression::Value(Value::Dimmer(0))
                && (color matches Expression::Value(Value::Color(c)) && c@ == seq![0u8, 0u8, 0u8])
                && props@ == Map::<Seq<char>, Type>::empty(),
    {
        let c: [u8; 3] = [0, 0, 0];
        assert(c@ =~= seq![0u8, 0u8, 0u8]);
        SimpleEffectTemplateBody::New {
            fixtures: FixtureQuery::default_query(),
            values: KeyedVec::new(),
            dimmer: Expression::Value(Value::Dimmer(0)),
            color: Expression::Value(Value::Color(c)),
            props: KeyedVec::new(),
        }
    }
}

/// The body of a simple effect.
#[derive(Debug)]
pub enum SimpleEffectBody {
    /// A template with its properties given.
    FromTemplate { tmpl_id: EffectTemplateId, tmpl_props: KeyedVec<String, Value> },
    /// Fixed values, by fixture and channel offset.
    New { fixtures: FixtureQuery, values: KeyedVec<(FixtureId, usize), u8> },
}

impl SimpleEffectBody {
    /// The default query and no values.
    pub fn new() -> (r: Self)
        ensures
            r matches SimpleEffectBody::New { fixtures, values } && fixtures.is_default()
                && values@ == Map::<(FixtureId, usize), u8>::empty(),
    {
        SimpleEffectBody::New { fixtures: FixtureQuery::default_query(), values: KeyedVec::new() }
    }
}

} // verus!
