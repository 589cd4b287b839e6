//! Deciding whether an effect, a template or a spec can be resolved at a
//! given depth, before resolving it: what it refers to exists, its
//! properties are given with the right types, the fixtures it selects have
//! the channels it writes, and the sequences whose frames a step reads have
//! steps.
use crate::doc::state::DocState;
use crate::effects::create::{
    effect_body_frames, effect_body_ok, effect_frames, effect_items_frames, effect_items_ok,
    effect_ok, effect_steps_ok, lemma_effect_items_ok_take, lemma_effect_steps_ok_take,
    lemma_spec_items_ok_take, lemma_spec_steps_ok_take, lemma_template_items_ok_take,
    lemma_template_steps_ok_take, all_given, spec_body_frames, spec_body_ok, spec_frames, spec_items_frames,
    spec_items_ok, spec_ok, spec_steps_ok, template_body_frames, template_body_ok, template_frames,
    template_items_frames, template_items_ok, template_ok, template_steps_ok,
};
use crate::effects::parallel::{ParallelEffectBody, ParallelEffectTemplateBody};
use crate::effects::resolve::{
    dimmer_of, expr_color, expr_dimmer, expr_duration, expr_value, lemma_query_members, opt_color,
    opt_dimmer, rgb_of, simple_spec_ok, simple_template_ok, substitute_props,
};
use crate::effects::sequence::{SequenceEffectBody, SequenceEffectTemplateBody, SequenceTemplateStepBase};
use crate::effects::simple::{SimpleEffectBody, SimpleEffectSpecBody, SimpleEffectTemplateBody};
use crate::effects::{
    selected_count, EffectBody, EffectSpecBody, EffectTemplateBody, Expression, FixtureQuery,
    SequenceStep, Value,
};
use crate::ids::{EffectId, EffectSpecId, EffectTemplateId, FixtureId};
use crate::keyed::KeyedVec;
use vstd::prelude::*;

verus! {

/// The value `e` stands for under `props`, if it is defined there.
fn expr_lookup<'a>(e: &'a Expression, props: &'a KeyedVec<String, Value>) -> (r: Option<&'a Value>)
    ensures
        match r {
            Some(v) => expr_value(*e, props@) == Some(*v),
            None => expr_value(*e, props@) is None,
        },
{
    match e {
        Expression::Value(v) => Some(v),
        Expression::Prop(p) => props.get(p),
    }
}

/// `e` stands for a dimmer level under `props`.
fn gives_dimmer(e: &Expression, props: &KeyedVec<String, Value>) -> (r: bool)
    ensures
        r == (expr_dimmer(*e, props@) is Some),
{
    match expr_lookup(e, props) {
        Some(Value::Dimmer(_)) => true,
        _ => false,
    }
}

/// `e` stands for a color under `props`.
fn gives_color(e: &Expression, props: &KeyedVec<String, Value>) -> (r: bool)
    ensures
        r == (expr_color(*e, props@) is Some),
{
    match expr_lookup(e, props) {
        Some(Value::Color(_)) => true,
        _ => false,
    }
}

/// `e` stands for a span under `props`.
fn gives_duration(e: &Expression, props: &KeyedVec<String, Value>) -> (r: bool)
    ensures
        r == (expr_duration(*e, props@) is Some),
{
    match expr_lookup(e, props) {
        Some(Value::Duration(_)) => true,
        _ => false,
    }
}

/// Every expression of `spec_props` is defined under `props`.
fn check_all_given(spec_props: &KeyedVec<String, Expression>, props: &KeyedVec<String, Value>) -> (r:
    bool)
    ensures
        r == all_given(spec_props@, props@),
{
    let n = spec_props.len();
    let mut i: usize = 0;
    while i < n
        invariant
            n == spec_props.entries().len(),
            i <= n,
            forall|j: int|
                0 <= j < spec_props.entries().len() ==> spec_props@.contains_key(
                    #[trigger] spec_props.entries()[j].0@,
                ) && spec_props@[spec_props.entries()[j].0@] == spec_props.entries()[j].1,
            forall|j: int| 0 <= j < i ==> expr_value(#[trigger] spec_props.entries()[j].1, props@) is Some,
        decreases n - i,
    {
        if expr_lookup(spec_props.value_at(i), props).is_none() {
            proof {
                let k = spec_props.entries()[i as int].0@;
                assert(spec_props@.contains_key(k));
                assert(expr_value(spec_props@[k], props@) is None);
            }
            return false;
        }
        i = i + 1;
    }
    proof {
        assert forall|m: Seq<char>| #[trigger] spec_props@.contains_key(m) implies expr_value(
            spec_props@[m],
            props@,
        ) is Some by {
            let j = crate::keyed::seq_index_of(spec_props.entries(), m);
            assert(spec_props.entries()[j].0@ == m);
        }
    }
    true
}

/// Each fixture that `fixtures` selects has a dimmer channel where
/// `need_dimmer`, and red, green and blue channels where `need_color`.
fn selected_have_channels(doc: &DocState, fixtures: &FixtureQuery, need_dimmer: bool, need_color: bool) -> (r:
    bool)
    requires
        doc@.consistent(),
    ensures
        r == forall|f: FixtureId|
            selected_count(doc@, f, fixtures@.1) > 0 ==> (need_dimmer ==> dimmer_of(doc@, f) is Some)
                && (need_color ==> rgb_of(doc@, f) is Some),
{
    let ids = fixtures.query(doc);
    proof {
        lemma_query_members(doc@, ids@, *fixtures);
    }
    let n = ids.len();
    let mut i: usize = 0;
    while i < n
        invariant
            n == ids@.len(),
            i <= n,
            doc@.consistent(),
            forall|id: FixtureId| ids@.contains(id) <==> selected_count(doc@, id, fixtures@.1) > 0,
            forall|j: int| 0 <= j < ids@.len() ==> doc@.fixtures.contains_key(#[trigger] ids@[j]),
            forall|j: int|
                0 <= j < i ==> (need_dimmer ==> dimmer_of(doc@, #[trigger] ids@[j]) is Some) && (need_color
                    ==> rgb_of(doc@, ids@[j]) is Some),
        decreases n - i,
    {
        let (dm, col) = doc.get_dimmer_and_color(ids[i]);
        if (need_dimmer && dm.is_none()) || (need_color && col.is_none()) {
            proof {
                assert(ids@.contains(ids@[i as int]));
            }
            return false;
        }
        i = i + 1;
    }
    proof {
        assert forall|f: FixtureId| selected_count(doc@, f, fixtures@.1) > 0 implies (need_dimmer
            ==> dimmer_of(doc@, f) is Some) && (need_color ==> rgb_of(doc@, f) is Some) by {
            assert(ids@.contains(f));
            let j = choose|j: int| 0 <= j < ids@.len() && ids@[j] == f;
            assert(ids@[j] == f);
        }
    }
    true
}

/// Whether the simple spec `b` can be resolved on `fixtures` under `props`.
fn check_simple_spec(
    doc: &DocState,
    b: &SimpleEffectSpecBody,
    fixtures: &FixtureQuery,
    props: &KeyedVec<String, Value>,
) -> (r: bool)
    requires
        doc@.consistent(),
    ensures
        r == simple_spec_ok(doc@, *b, *fixtures, props@),
{
    let dimmer_ok = match &b.dimmer {
        Some(e) => gives_dimmer(e, props),
        None => true,
    };
    let color_ok = match &b.color {
        Some(e) => gives_color(e, props),
        None => true,
    };
    assert(dimmer_ok == (b.dimmer is Some ==> opt_dimmer(b.dimmer, props@) is Some));
    assert(color_ok == (b.color is Some ==> opt_color(b.color, props@) is Some));
    dimmer_ok && color_ok && selected_have_channels(doc, fixtures, b.dimmer.is_some(), b.color.is_some())
}

/// Whether the simple template `b` can be resolved under `props`.
fn check_simple_template(doc: &DocState, b: &SimpleEffectTemplateBody, props: &KeyedVec<String, Value>) -> (r:
    bool)
    requires
        doc@.consistent(),
    ensures
        r == simple_template_ok(doc@, *b, props@),
{
    match b {
        SimpleEffectTemplateBody::FromSpec { spec_id, spec_props, fixtures, .. } => {
            let spec = match doc.effect_spec(spec_id) {
                Some(s) => s,
                None => {
                    return false;
                },
            };
            match spec.body() {
                EffectSpecBody::Simple(sb) => {
                    if !check_all_given(spec_props, props) {
                        return false;
                    }
                    let resolved = substitute_props(spec_props, props);
                    check_simple_spec(doc, sb, fixtures, &resolved)
                },
                _ => false,
            }
        },
        SimpleEffectTemplateBody::New { fixtures, dimmer, color, .. } => {
            gives_dimmer(dimmer, props) && gives_color(color, props) && selected_have_channels(
                doc,
                fixtures,
                true,
                true,
            )
        },
    }
}

fn check_effect(doc: &DocState, id: EffectId, d: u64) -> (r: (bool, bool))
    requires
        doc@.consistent(),
    ensures
        r.0 == effect_ok(doc@, id, d as nat),
        r.0 ==> r.1 == effect_frames(doc@, id, d as nat),
    decreases d, 0nat, 0nat,
{
    if d == 0 {
        return (false, false);
    }
    let e = match doc.effect(&id) {
        Some(e) => e,
        None => {
            return (false, false);
        },
    };
    check_effect_body(doc, e.body(), d - 1)
}

fn check_effect_body(doc: &DocState, b: &EffectBody, d: u64) -> (r: (bool, bool))
    requires
        doc@.consistent(),
    ensures
        r.0 == effect_body_ok(doc@, *b, d as nat),
        r.0 ==> r.1 == effect_body_frames(doc@, *b, d as nat),
    decreases d, 3nat, 0nat,
{
    match b {
        EffectBody::Simple(SimpleEffectBody::New { .. }) => (true, true),
        EffectBody::Simple(SimpleEffectBody::FromTemplate { tmpl_id, tmpl_props }) => {
            check_template(doc, *tmpl_id, tmpl_props, d)
        },
        EffectBody::Sequence(SequenceEffectBody::FromTemplate(t, p)) => check_template(doc, *t, p, d),
        EffectBody::Sequence(SequenceEffectBody::New(steps)) => {
            (check_effect_steps(doc, steps, d), steps.len() > 0)
        },
        EffectBody::Parallel(ParallelEffectBody::FromTemplate { tmpl_id, tmpl_props }) => {
            check_template(doc, *tmpl_id, tmpl_props, d)
        },
        EffectBody::Parallel(ParallelEffectBody::New { items }) => check_effect_items(doc, items, d),
    }
}

fn check_effect_steps(doc: &DocState, steps: &Vec<SequenceStep>, d: u64) -> (r: bool)
    requires
        doc@.consistent(),
    ensures
        r == effect_steps_ok(doc@, steps@, d as nat),
    decreases d, 2nat, steps@.len(),
{
    let n = steps.len();
    let mut i: usize = 0;
    while i < n
        invariant
            n == steps@.len(),
            i <= n,
            doc@.consistent(),
            effect_steps_ok(doc@, steps@.take(i as int), d as nat),
        decreases n - i,
    {
        let (ok, frames) = check_effect(doc, steps[i].effect_id(), d);
        proof {
            assert(steps@.take(i + 1).drop_last() =~= steps@.take(i as int));
            assert(steps@.take(i + 1).last() == steps@[i as int]);
        }
        if !(ok && frames) {
            proof {
                if effect_steps_ok(doc@, steps@, d as nat) {
                    lemma_effect_steps_ok_take(doc@, steps@, d as nat, i + 1);
                }
            }
            return false;
        }
        i = i + 1;
    }
    proof {
        assert(steps@.take(n as int) =~= steps@);
    }
    true
}

fn check_effect_items(doc: &DocState, items: &Vec<EffectId>, d: u64) -> (r: (bool, bool))
    requires
        doc@.consistent(),
    ensures
        r.0 == effect_items_ok(doc@, items@, d as nat),
        r.0 ==> r.1 == effect_items_frames(doc@, items@, d as nat),
    decreases d, 2nat, items@.len(),
{
    let n = items.len();
    let mut all_frames = true;
    let mut i: usize = 0;
    while i < n
        invariant
            n == items@.len(),
            i <= n,
            doc@.consistent(),
            effect_items_ok(doc@, items@.take(i as int), d as nat),
            all_frames == effect_items_frames(doc@, items@.take(i as int), d as nat),
        decreases n - i,
    {
        let (ok, frames) = check_effect(doc, items[i], d);
        proof {
            assert(items@.take(i + 1).drop_last() =~= items@.take(i as int));
            assert(items@.take(i + 1).last() == items@[i as int]);
        }
        if !ok {
            proof {
                if effect_items_ok(doc@, items@, d as nat) {
                    lemma_effect_items_ok_take(doc@, items@, d as nat, i + 1);
                }
            }
            return (false, false);
        }
        all_frames = all_frames && frames;
        i = i + 1;
    }
    proof {
        assert(items@.take(n as int) =~= items@);
    }
    (true, all_frames)
}

fn check_template(doc: &DocState, id: EffectTemplateId, props: &KeyedVec<String, Value>, d: u64) -> (r: (
    bool,
    bool,
))
    requires
        doc@.consistent(),
    ensures
        r.0 == template_ok(doc@, id, props@, d as nat),
        r.0 ==> r.1 == template_frames(doc@, id, d as nat),
    decreases d, 0nat, 0nat,
{
    if d == 0 {
        return (false, false);
    }
    let t = match doc.effect_template(&id) {
        Some(t) => t,
        None => {
            return (false, false);
        },
    };
    check_template_body(doc, t.body(), props, d - 1)
}

fn check_template_body(doc: &DocState, b: &EffectTemplateBody, props: &KeyedVec<String, Value>, d: u64) -> (r:
    (bool, bool))
    requires
        doc@.consistent(),
    ensures
        r.0 == template_body_ok(doc@, *b, props@, d as nat),
        r.0 ==> r.1 == template_body_frames(doc@, *b, d as nat),
    decreases d, 3nat, 0nat,
{
    match b {
        EffectTemplateBody::Simple(sb) => (check_simple_template(doc, sb, props), true),
        EffectTemplateBody::Sequence(
            SequenceEffectTemplateBody::FromSpec { spec_key, spec_props, .. },
        ) => {
            if !check_all_given(spec_props, props) {
                return (false, false);
            }
            let resolved = substitute_props(spec_props, props);
            check_spec(doc, spec_key.0, &spec_key.1, &resolved, d)
        },
        EffectTemplateBody::Sequence(SequenceEffectTemplateBody::New { steps, .. }) => {
            (check_template_steps(doc, steps, props, d), steps.len() > 0)
        },
        EffectTemplateBody::Parallel(
            ParallelEffectTemplateBody::FromSpec { spec_key, spec_props, .. },
        ) => {
            if !check_all_given(spec_props, props) {
                return (false, false);
            }
            let resolved = substitute_props(spec_props, props);
            check_spec(doc, spec_key.0, &spec_key.1, &resolved, d)
        },
        EffectTemplateBody::Parallel(ParallelEffectTemplateBody::New { items, .. }) => {
            check_template_items(doc, items, props, d)
        },
    }
}

fn check_template_steps(
    doc: &DocState,
    steps: &Vec<SequenceTemplateStepBase<EffectTemplateId>>,
    props: &KeyedVec<String, Value>,
    d: u64,
) -> (r: bool)
    requires
        doc@.consistent(),
    ensures
        r == template_steps_ok(doc@, steps@, props@, d as nat),
    decreases d, 2nat, steps@.len(),
{
    let n = steps.len();
    let mut i: usize = 0;
    while i < n
        invariant
            n == steps@.len(),
            i <= n,
            doc@.consistent(),
            template_steps_ok(doc@, steps@.take(i as int), props@, d as nat),
        decreases n - i,
    {
        let step = &steps[i];
        proof {
            assert(steps@.take(i + 1).drop_last() =~= steps@.take(i as int));
            assert(steps@.take(i + 1).last() == steps@[i as int]);
        }
        let timing = gives_duration(&step.hold, props) && gives_duration(&step.fade_in, props);
        let (ok, frames) = check_template(doc, step.key, props, d);
        if !(timing && ok && frames) {
            proof {
                if template_steps_ok(doc@, steps@, props@, d as nat) {
                    lemma_template_steps_ok_take(doc@, steps@, props@, d as nat, i + 1);
                }
            }
            return false;
        }
        i = i + 1;
    }
    proof {
        assert(steps@.take(n as int) =~= steps@);
    }
    true
}

fn check_template_items(
    doc: &DocState,
    items: &Vec<EffectTemplateId>,
    props: &KeyedVec<String, Value>,
    d: u64,
) -> (r: (bool, bool))
    requires
        doc@.consistent(),
    ensures
        r.0 == template_items_ok(doc@, items@, props@, d as nat),
        r.0 ==> r.1 == template_items_frames(doc@, items@, d as nat),
    decreases d, 2nat, items@.len(),
{
    let n = items.len();
    let mut all_frames = true;
    let mut i: usize = 0;
    while i < n
        invariant
            n == items@.len(),
            i <= n,
            doc@.consistent(),
            template_items_ok(doc@, items@.take(i as int), props@, d as nat),
            all_frames == template_items_frames(doc@, items@.take(i as int), d as nat),
        decreases n - i,
    {
        let (ok, frames) = check_template(doc, items[i], props, d);
        proof {
            assert(items@.take(i + 1).drop_last() =~= items@.take(i as int));
            assert(items@.take(i + 1).last() == items@[i as int]);
        }
        if !ok {
            proof {
                if template_items_ok(doc@, items@, props@, d as nat) {
                    lemma_template_items_ok_take(doc@, items@, props@, d as nat, i + 1);
                }
            }
            return (false, false);
        }
        all_frames = all_frames && frames;
        i = i + 1;
    }
    proof {
        assert(items@.take(n as int) =~= items@);
    }
    (true, all_frames)
}

fn check_spec(
    doc: &DocState,
    id: EffectSpecId,
    fixtures: &FixtureQuery,
    props: &KeyedVec<String, Value>,
    d: u64,
) -> (r: (bool, bool))
    requires
        doc@.consistent(),
    ensures
        r.0 == spec_ok(doc@, id, *fixtures, props@, d as nat),
        r.0 ==> r.1 == spec_frames(doc@, id, d as nat),
    decreases d, 0nat, 0nat,
{
    if d == 0 {
        return (false, false);
    }
    let s = match doc.effect_spec(&id) {
        Some(s) => s,
        None => {
            return (false, false);
        },
    };
    check_spec_body(doc, s.body(), fixtures, props, d - 1)
}

fn check_spec_body(
    doc: &DocState,
    b: &EffectSpecBody,
    fixtures: &FixtureQuery,
    props: &KeyedVec<String, Value>,
    d: u64,
) -> (r: (bool, bool))
    requires
        doc@.consistent(),
    ensures
        r.0 == spec_body_ok(doc@, *b, *fixtures, props@, d as nat),
        r.0 ==> r.1 == spec_body_frames(doc@, *b, d as nat),
    decreases d, 3nat, 0nat,
{
    match b {
        EffectSpecBody::Simple(sb) => (check_simple_spec(doc, sb, fixtures, props), true),
        EffectSpecBody::Sequence(sq) => (check_spec_steps(doc, &sq.steps, props, d), sq.steps.len() > 0),
        EffectSpecBody::Parallel(pb) => check_spec_items(doc, pb.items(), props, d),
    }
}

fn check_spec_steps(
    doc: &DocState,
    steps: &Vec<SequenceTemplateStepBase<(EffectSpecId, FixtureQuery)>>,
    props: &KeyedVec<String, Value>,
    d: u64,
) -> (r: bool)
    requires
        doc@.consistent(),
    ensures
        r == spec_steps_ok(doc@, steps@, props@, d as nat),
    decreases d, 2nat, steps@.len(),
{
    let n = steps.len();
    let mut i: usize = 0;
    while i < n
        invariant
            n == steps@.len(),
            i <= n,
            doc@.consistent(),
            spec_steps_ok(doc@, steps@.take(i as int), props@, d as nat),
        decreases n - i,
    {
        let step = &steps[i];
        proof {
            assert(steps@.take(i + 1).drop_last() =~= steps@.take(i as int));
            assert(steps@.take(i + 1).last() == steps@[i as int]);
        }
        let timing = gives_duration(&step.hold, props) && gives_duration(&step.fade_in, props);
        let (ok, frames) = check_spec(doc, step.key.0, &step.key.1, props, d);
        if !(timing && ok && frames) {
            proof {
                if spec_steps_ok(doc@, steps@, props@, d as nat) {
                    lemma_spec_steps_ok_take(doc@, steps@, props@, d as nat, i + 1);
                }
            }
            return false;
        }
        i = i + 1;
    }
    proof {
        assert(steps@.take(n as int) =~= steps@);
    }
    true
}

fn check_spec_items(
    doc: &DocState,
    items: &Vec<(EffectSpecId, FixtureQuery)>,
    props: &KeyedVec<String, Value>,
    d: u64,
) -> (r: (bool, bool))
    requires
        doc@.consistent(),
    ensures
        r.0 == spec_items_ok(doc@, items@, props@, d as nat),
        r.0 ==> r.1 == spec_items_frames(doc@, items@, d as nat),
    decreases d, 2nat, items@.len(),
{
    let n = items.len();
    let mut all_frames = true;
    let mut i: usize = 0;
    while i < n
        invariant
            n == items@.len(),
            i <= n,
            doc@.consistent(),
            spec_items_ok(doc@, items@.take(i as int), props@, d as nat),
            all_frames == spec_items_frames(doc@, items@.take(i as int), d as nat),
        decreases n - i,
    {
        let (ok, frames) = check_spec(doc, items[i].0, &items[i].1, props, d);
        proof {
            assert(items@.take(i + 1).drop_last() =~= items@.take(i as int));
            assert(items@.take(i + 1).last() == items@[i as int]);
        }
        if !ok {
            proof {
                if spec_items_ok(doc@, items@, props@, d as nat) {
                    lemma_spec_items_ok_take(doc@, items@, props@, d as nat, i + 1);
                }
            }
            return (false, false);
        }
        all_frames = all_frames && frames;
        i = i + 1;
    }
    proof {
        assert(items@.take(n as int) =~= items@);
    }
    (true, all_frames)
}

impl DocState {
    /// Whether the stored effect `id` can be resolved following at most
    /// `depth` references, that is whether [`DocState::create_runtime`]
    /// accepts it at that depth.
    pub fn can_create_runtime(&self, id: EffectId, depth: u64) -> (r: bool)
        requires
            self@.consistent(),
        ensures
            r == effect_ok(self@, id, depth as nat),
    {
        check_effect(self, id, depth).0
    }
}

} // verus!
