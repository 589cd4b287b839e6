//! Creating the runtime of an effect from the document: effects, templates
//! and specs refer to each other by id and are resolved recursively.
//!
//! Every resolution is indexed by a depth `d`, the number of references it
//! may still follow; an effect that refers to itself resolves at no depth.
use crate::doc::state::{DocState, DocView};
use crate::effects::parallel::{ParallelEffectBody, ParallelEffectSpecBody, ParallelEffectTemplateBody};
use crate::effects::resolve::{
    eval_expr, expr_duration, expr_value, simple_spec_made, simple_spec_ok, simple_template_made,
    simple_template_ok, substitute_props, substituted,
};
use crate::effects::runtime::{
    frame_keys, frame_values, lemma_has_frames, lemma_par_has_frames, write_command, EffectRuntime, FadeInRuntime,
    ParallelEffectRuntime, SequenceEffectRuntime, SequenceStepState, SimpleEffectRuntime,
    StepRuntime,
};
use crate::effects::sequence::{
    SequenceEffectBody, SequenceEffectSpecBody, SequenceEffectTemplateBody, SequenceTemplateStepBase,
};
use crate::effects::simple::SimpleEffectBody;
use crate::effects::{
    Effect, EffectBody, EffectBodyOrReference, EffectCommand, EffectSpecBody, EffectTemplateBody,
    FixtureQuery, SequenceStep, Value,
};
use crate::ids::{EffectId, EffectSpecId, EffectTemplateId};
use crate::keyed::KeyedVec;
use crate::time::Duration;
use vstd::prelude::*;

verus! {

/// A fade that lasts 0 is no fade.
pub open spec fn fade_opt(d: Duration) -> Option<Duration> {
    if d.ns() == 0 {
        None
    } else {
        Some(d)
    }
}

/// `st` holds for `hold` and fades in for `fade_in`, and starts with the
/// fade if there is one.
pub open spec fn step_shaped(st: StepRuntime, hold: Duration, fade_in: Option<Duration>) -> bool {
    &&& st.hold_ns() == hold.ns()
    &&& st.fade_in_spec() == fade_in
    &&& match fade_in {
        Some(f) => st.next_ns() == f.ns() && st.state_spec() == SequenceStepState::FadeIn,
        None => st.next_ns() == hold.ns() && st.state_spec() == SequenceStepState::Hold,
    }
}

/// `fr` fades over `dur` from what `from` writes to what `to` writes.
pub open spec fn fade_between(
    fr: FadeInRuntime,
    from: Seq<EffectCommand>,
    to: Seq<EffectCommand>,
    dur: Duration,
) -> bool {
    &&& fr.from_map() == frame_values(from)
    &&& fr.to_map() == frame_values(to)
    &&& fr.keys() == frame_keys(frame_keys(Seq::empty(), from), to)
    &&& fr.duration_ns() == dur.ns()
    &&& fr.elapsed_ns() == 0
}

/// `st` has a fade exactly when `fade_in` is given, from the frame `from` to
/// the first frame of the step's effect.
pub open spec fn step_faded(st: StepRuntime, from: Seq<EffectCommand>, fade_in: Option<Duration>) -> bool {
    match fade_in {
        None => st.fade_spec() is None,
        Some(f) => st.fade_spec() is Some && fade_between(
            st.fade_spec()->Some_0,
            from,
            st.runtime_spec().first_frame(),
            f,
        ),
    }
}

// ---------------------------------------------------------------------------
// Which runtimes will have frames: a sequence needs at least one step.

pub open spec fn effect_frames(v: DocView, id: EffectId, d: nat) -> bool
    decreases d, 0nat, 0nat,
{
    d > 0 && effect_body_frames(v, v.effects[id].body_spec(), (d - 1) as nat)
}

pub open spec fn effect_body_frames(v: DocView, b: EffectBody, d: nat) -> bool
    decreases d, 3nat, 0nat,
{
    match b {
        EffectBody::Simple(SimpleEffectBody::New { .. }) => true,
        EffectBody::Simple(SimpleEffectBody::FromTemplate { tmpl_id, .. }) => template_frames(v, tmpl_id, d),
        EffectBody::Sequence(SequenceEffectBody::FromTemplate(t, _)) => template_frames(v, t, d),
        EffectBody::Sequence(SequenceEffectBody::New(steps)) => steps@.len() > 0,
        EffectBody::Parallel(ParallelEffectBody::FromTemplate { tmpl_id, .. }) => template_frames(v, tmpl_id, d),
        EffectBody::Parallel(ParallelEffectBody::New { items }) => effect_items_frames(v, items@, d),
    }
}

pub open spec fn effect_items_frames(v: DocView, items: Seq<EffectId>, d: nat) -> bool
    decreases d, 2nat, items.len(),
{
    items.len() == 0 || (effect_items_frames(v, items.drop_last(), d) && effect_frames(v, items.last(), d))
}

pub open spec fn template_frames(v: DocView, id: EffectTemplateId, d: nat) -> bool
    decreases d, 0nat, 0nat,
{
    d > 0 && template_body_frames(v, v.effect_templates[id].body_spec(), (d - 1) as nat)
}

pub open spec fn template_body_frames(v: DocView, b: EffectTemplateBody, d: nat) -> bool
    decreases d, 3nat, 0nat,
{
    match b {
        EffectTemplateBody::Simple(_) => true,
        EffectTemplateBody::Sequence(SequenceEffectTemplateBody::FromSpec { spec_key, .. }) => spec_frames(v, spec_key.0, d),
        EffectTemplateBody::Sequence(SequenceEffectTemplateBody::New { steps, .. }) => steps@.len() > 0,
        EffectTemplateBody::Parallel(ParallelEffectTemplateBody::FromSpec { spec_key, .. }) => spec_frames(v, spec_key.0, d),
        EffectTemplateBody::Parallel(ParallelEffectTemplateBody::New { items, .. }) => template_items_frames(v, items@, d),
    }
}

pub open spec fn template_items_frames(v: DocView, items: Seq<EffectTemplateId>, d: nat) -> bool
    decreases d, 2nat, items.len(),
{
    items.len() == 0 || (template_items_frames(v, items.drop_last(), d) && template_frames(v, items.last(), d))
}

pub open spec fn spec_frames(v: DocView, id: EffectSpecId, d: nat) -> bool
    decreases d, 0nat, 0nat,
{
    d > 0 && spec_body_frames(v, v.effect_specs[id].body_spec(), (d - 1) as nat)
}

pub open spec fn spec_body_frames(v: DocView, b: EffectSpecBody, d: nat) -> bool
    decreases d, 3nat, 0nat,
{
    match b {
        EffectSpecBody::Simple(_) => true,
        EffectSpecBody::Sequence(sq) => sq.steps@.len() > 0,
        EffectSpecBody::Parallel(pb) => spec_items_frames(v, pb.items_spec(), d),
    }
}

pub open spec fn spec_items_frames(v: DocView, items: Seq<(EffectSpecId, FixtureQuery)>, d: nat) -> bool
    decreases d, 2nat, items.len(),
{
    items.len() == 0 || (spec_items_frames(v, items.drop_last(), d) && spec_frames(v, items.last().0, d))
}

// ---------------------------------------------------------------------------
// When resolution succeeds: what it refers to exists, properties are given
// with the right types, and the runtimes whose frames a sequence reads have
// frames.

pub open spec fn effect_ok(v: DocView, id: EffectId, d: nat) -> bool
    decreases d, 0nat, 0nat,
{
    d > 0 && v.effects.contains_key(id) && effect_body_ok(v, v.effects[id].body_spec(), (d - 1) as nat)
}

pub open spec fn effect_body_ok(v: DocView, b: EffectBody, d: nat) -> bool
    decreases d, 3nat, 0nat,
{
    match b {
        EffectBody::Simple(SimpleEffectBody::New { .. }) => true,
        EffectBody::Simple(SimpleEffectBody::FromTemplate { tmpl_id, tmpl_props }) => template_ok(
            v,
            tmpl_id,
            tmpl_props@,
            d,
        ),
        EffectBody::Sequence(SequenceEffectBody::FromTemplate(t, p)) => template_ok(v, t, p@, d),
        EffectBody::Sequence(SequenceEffectBody::New(steps)) => effect_steps_ok(v, steps@, d),
        EffectBody::Parallel(ParallelEffectBody::FromTemplate { tmpl_id, tmpl_props }) => template_ok(
            v,
            tmpl_id,
            tmpl_props@,
            d,
        ),
        EffectBody::Parallel(ParallelEffectBody::New { items }) => effect_items_ok(v, items@, d),
    }
}

pub open spec fn effect_steps_ok(v: DocView, steps: Seq<SequenceStep>, d: nat) -> bool
    decreases d, 2nat, steps.len(),
{
    steps.len() == 0 || (effect_steps_ok(v, steps.drop_last(), d) && effect_ok(
        v,
        steps.last().effect_id_spec(),
        d,
    ) && effect_frames(v, steps.last().effect_id_spec(), d))
}

pub open spec fn effect_items_ok(v: DocView, items: Seq<EffectId>, d: nat) -> bool
    decreases d, 2nat, items.len(),
{
    items.len() == 0 || (effect_items_ok(v, items.drop_last(), d) && effect_ok(v, items.last(), d))
}

pub open spec fn template_ok(v: DocView, id: EffectTemplateId, props: Map<Seq<char>, Value>, d: nat) -> bool
    decreases d, 0nat, 0nat,
{
    d > 0 && v.effect_templates.contains_key(id) && template_body_ok(
        v,
        v.effect_templates[id].body_spec(),
        props,
        (d - 1) as nat,
    )
}

/// Each property of `spec_props` is given under `props`.
pub open spec fn all_given(spec_props: Map<Seq<char>, crate::effects::Expression>, props: Map<Seq<char>, Value>) -> bool {
    forall|n: Seq<char>| #[trigger] spec_props.contains_key(n) ==> expr_value(spec_props[n], props) is Some
}

pub open spec fn template_body_ok(v: DocView, b: EffectTemplateBody, props: Map<Seq<char>, Value>, d: nat) -> bool
    decreases d, 3nat, 0nat,
{
    match b {
        EffectTemplateBody::Simple(sb) => simple_template_ok(v, sb, props),
        EffectTemplateBody::Sequence(
            SequenceEffectTemplateBody::FromSpec { spec_key, spec_props, .. },
        ) => all_given(spec_props@, props) && spec_ok(
            v,
            spec_key.0,
            spec_key.1,
            substituted(spec_props@, props),
            d,
        ),
        EffectTemplateBody::Sequence(SequenceEffectTemplateBody::New { steps, .. }) => template_steps_ok(
            v,
            steps@,
            props,
            d,
        ),
        EffectTemplateBody::Parallel(
            ParallelEffectTemplateBody::FromSpec { spec_key, spec_props, .. },
        ) => all_given(spec_props@, props) && spec_ok(
            v,
            spec_key.0,
            spec_key.1,
            substituted(spec_props@, props),
            d,
        ),
        EffectTemplateBody::Parallel(ParallelEffectTemplateBody::New { items, .. }) => template_items_ok(
            v,
            items@,
            props,
            d,
        ),
    }
}

pub open spec fn template_steps_ok(
    v: DocView,
    steps: Seq<SequenceTemplateStepBase<EffectTemplateId>>,
    props: Map<Seq<char>, Value>,
    d: nat,
) -> bool
    decreases d, 2nat, steps.len(),
{
    steps.len() == 0 || (template_steps_ok(v, steps.drop_last(), props, d) && expr_duration(
        steps.last().hold,
        props,
    ) is Some && expr_duration(steps.last().fade_in, props) is Some && template_ok(
        v,
        steps.last().key,
        props,
        d,
    ) && template_frames(v, steps.last().key, d))
}

pub open spec fn template_items_ok(
    v: DocView,
    items: Seq<EffectTemplateId>,
    props: Map<Seq<char>, Value>,
    d: nat,
) -> bool
    decreases d, 2nat, items.len(),
{
    items.len() == 0 || (template_items_ok(v, items.drop_last(), props, d) && template_ok(
        v,
        items.last(),
        props,
        d,
    ))
}

pub open spec fn spec_ok(
    v: DocView,
    id: EffectSpecId,
    fixtures: FixtureQuery,
    props: Map<Seq<char>, Value>,
    d: nat,
) -> bool
    decreases d, 0nat, 0nat,
{
    d > 0 && v.effect_specs.contains_key(id) && spec_body_ok(
        v,
        v.effect_specs[id].body_spec(),
        fixtures,
        props,
        (d - 1) as nat,
    )
}

pub open spec fn spec_body_ok(
    v: DocView,
    b: EffectSpecBody,
    fixtures: FixtureQuery,
    props: Map<Seq<char>, Value>,
    d: nat,
) -> bool
    decreases d, 3nat, 0nat,
{
    match b {
        EffectSpecBody::Simple(sb) => simple_spec_ok(v, sb, fixtures, props),
        EffectSpecBody::Sequence(sq) => spec_steps_ok(v, sq.steps@, props, d),
        EffectSpecBody::Parallel(pb) => spec_items_ok(v, pb.items_spec(), props, d),
    }
}

pub open spec fn spec_steps_ok(
    v: DocView,
    steps: Seq<SequenceTemplateStepBase<(EffectSpecId, FixtureQuery)>>,
    props: Map<Seq<char>, Value>,
    d: nat,
) -> bool
    decreases d, 2nat, steps.len(),
{
    steps.len() == 0 || (spec_steps_ok(v, steps.drop_last(), props, d) && expr_duration(
        steps.last().hold,
        props,
    ) is Some && expr_duration(steps.last().fade_in, props) is Some && spec_ok(
        v,
        steps.last().key.0,
        steps.last().key.1,
        props,
        d,
    ) && spec_frames(v, steps.last().key.0, d))
}

pub open spec fn spec_items_ok(
    v: DocView,
    items: Seq<(EffectSpecId, FixtureQuery)>,
    props: Map<Seq<char>, Value>,
    d: nat,
) -> bool
    decreases d, 2nat, items.len(),
{
    items.len() == 0 || (spec_items_ok(v, items.drop_last(), props, d) && spec_ok(
        v,
        items.last().0,
        items.last().1,
        props,
        d,
    ))
}

// ---------------------------------------------------------------------------
// What resolution creates.

pub open spec fn effect_made(v: DocView, id: EffectId, rt: EffectRuntime, d: nat) -> bool
    decreases d, 0nat, 0nat,
{
    d > 0 && effect_body_made(v, v.effects[id].body_spec(), rt, (d - 1) as nat)
}

pub open spec fn effect_body_made(v: DocView, b: EffectBody, rt: EffectRuntime, d: nat) -> bool
    decreases d, 3nat, 0nat,
{
    match b {
        EffectBody::Simple(SimpleEffectBody::New { values, .. }) => rt is Simple
            && rt->Simple_0.commands_spec() == values.entries().map_values(
            |e: ((crate::ids::FixtureId, usize), u8)| write_command(e.0, e.1),
        ),
        EffectBody::Simple(SimpleEffectBody::FromTemplate { tmpl_id, tmpl_props }) => template_made(
            v,
            tmpl_id,
            tmpl_props@,
            rt,
            d,
        ),
        EffectBody::Sequence(SequenceEffectBody::FromTemplate(t, p)) => template_made(v, t, p@, rt, d),
        EffectBody::Sequence(SequenceEffectBody::New(steps)) => rt is Sequence
            && rt->Sequence_0.current_spec() == 0 && rt->Sequence_0.buffer_ns() == 0
            && effect_steps_made(v, steps@, rt->Sequence_0.steps_spec(), d),
        EffectBody::Parallel(ParallelEffectBody::FromTemplate { tmpl_id, tmpl_props }) => template_made(
            v,
            tmpl_id,
            tmpl_props@,
            rt,
            d,
        ),
        EffectBody::Parallel(ParallelEffectBody::New { items }) => rt is Parallel && effect_items_made(
            v,
            items@,
            rt->Parallel_0.runtimes_spec(),
            d,
        ),
    }
}

/// The steps of an effect's own sequence: each runs its effect, and its fade
/// goes from the last frame of the step before (nothing for the first step)
/// to its effect's first frame.
pub open spec fn effect_steps_made(v: DocView, steps: Seq<SequenceStep>, sts: Seq<StepRuntime>, d: nat) -> bool
    decreases d, 2nat, steps.len(),
{
    &&& steps.len() == sts.len()
    &&& steps.len() == 0 || {
        &&& effect_steps_made(v, steps.drop_last(), sts.drop_last(), d)
        &&& effect_made(v, steps.last().effect_id_spec(), sts.last().runtime_spec(), d)
        &&& step_shaped(sts.last(), steps.last().hold_spec(), steps.last().fade_in_spec())
        &&& step_faded(sts.last(), previous_last_frame(sts, sts.len() - 1), steps.last().fade_in_spec())
    }
}

pub open spec fn effect_items_made(v: DocView, items: Seq<EffectId>, rts: Seq<EffectRuntime>, d: nat) -> bool
    decreases d, 2nat, items.len(),
{
    &&& items.len() == rts.len()
    &&& items.len() == 0 || (effect_items_made(v, items.drop_last(), rts.drop_last(), d) && effect_made(
        v,
        items.last(),
        rts.last(),
        d,
    ))
}

pub open spec fn template_made(
    v: DocView,
    id: EffectTemplateId,
    props: Map<Seq<char>, Value>,
    rt: EffectRuntime,
    d: nat,
) -> bool
    decreases d, 0nat, 0nat,
{
    d > 0 && template_body_made(v, v.effect_templates[id].body_spec(), props, rt, (d - 1) as nat)
}

pub open spec fn template_body_made(
    v: DocView,
    b: EffectTemplateBody,
    props: Map<Seq<char>, Value>,
    rt: EffectRuntime,
    d: nat,
) -> bool
    decreases d, 3nat, 0nat,
{
    match b {
        EffectTemplateBody::Simple(sb) => simple_template_made(v, sb, props, rt),
        EffectTemplateBody::Sequence(
            SequenceEffectTemplateBody::FromSpec { spec_key, spec_props, .. },
        ) => spec_made(v, spec_key.0, spec_key.1, substituted(spec_props@, props), rt, d),
        EffectTemplateBody::Sequence(SequenceEffectTemplateBody::New { steps, .. }) => rt is Sequence
            && rt->Sequence_0.current_spec() == 0 && rt->Sequence_0.buffer_ns() == 0
            && template_steps_made(v, steps@, props, rt->Sequence_0.steps_spec(), d),
        EffectTemplateBody::Parallel(
            ParallelEffectTemplateBody::FromSpec { spec_key, spec_props, .. },
        ) => spec_made(v, spec_key.0, spec_key.1, substituted(spec_props@, props), rt, d),
        EffectTemplateBody::Parallel(ParallelEffectTemplateBody::New { items, .. }) => rt is Parallel
            && template_items_made(v, items@, props, rt->Parallel_0.runtimes_spec(), d),
    }
}

/// The frame a resolved step fades from: the last frame of the step before,
/// or nothing for the first step.
pub open spec fn previous_last_frame(sts: Seq<StepRuntime>, i: int) -> Seq<EffectCommand> {
    if i == 0 {
        Seq::empty()
    } else {
        sts[i - 1].runtime_spec().last_frame()
    }
}

pub open spec fn template_steps_made(
    v: DocView,
    steps: Seq<SequenceTemplateStepBase<EffectTemplateId>>,
    props: Map<Seq<char>, Value>,
    sts: Seq<StepRuntime>,
    d: nat,
) -> bool
    decreases d, 2nat, steps.len(),
{
    &&& steps.len() == sts.len()
    &&& steps.len() == 0 || {
        let s = steps.last();
        let st = sts.last();
        let fade = fade_opt(expr_duration(s.fade_in, props)->Some_0);
        &&& template_steps_made(v, steps.drop_last(), props, sts.drop_last(), d)
        &&& template_made(v, s.key, props, st.runtime_spec(), d)
        &&& step_shaped(st, expr_duration(s.hold, props)->Some_0, fade)
        &&& step_faded(st, previous_last_frame(sts, sts.len() - 1), fade)
    }
}

pub open spec fn template_items_made(
    v: DocView,
    items: Seq<EffectTemplateId>,
    props: Map<Seq<char>, Value>,
    rts: Seq<EffectRuntime>,
    d: nat,
) -> bool
    decreases d, 2nat, items.len(),
{
    &&& items.len() == rts.len()
    &&& items.len() == 0 || (template_items_made(v, items.drop_last(), props, rts.drop_last(), d)
        && template_made(v, items.last(), props, rts.last(), d))
}

pub open spec fn spec_made(
    v: DocView,
    id: EffectSpecId,
    fixtures: FixtureQuery,
    props: Map<Seq<char>, Value>,
    rt: EffectRuntime,
    d: nat,
) -> bool
    decreases d, 0nat, 0nat,
{
    d > 0 && spec_body_made(v, v.effect_specs[id].body_spec(), fixtures, props, rt, (d - 1) as nat)
}

pub open spec fn spec_body_made(
    v: DocView,
    b: EffectSpecBody,
    fixtures: FixtureQuery,
    props: Map<Seq<char>, Value>,
    rt: EffectRuntime,
    d: nat,
) -> bool
    decreases d, 3nat, 0nat,
{
    match b {
        EffectSpecBody::Simple(sb) => simple_spec_made(v, sb, fixtures, props, rt),
        EffectSpecBody::Sequence(sq) => rt is Sequence && rt->Sequence_0.current_spec() == 0
            && rt->Sequence_0.buffer_ns() == 0 && spec_steps_made(
            v,
            sq.steps@,
            props,
            rt->Sequence_0.steps_spec(),
            d,
        ),
        EffectSpecBody::Parallel(pb) => rt is Parallel && spec_items_made(
            v,
            pb.items_spec(),
            props,
            rt->Parallel_0.runtimes_spec(),
            d,
        ),
    }
}

pub open spec fn spec_steps_made(
    v: DocView,
    steps: Seq<SequenceTemplateStepBase<(EffectSpecId, FixtureQuery)>>,
    props: Map<Seq<char>, Value>,
    sts: Seq<StepRuntime>,
    d: nat,
) -> bool
    decreases d, 2nat, steps.len(),
{
    &&& steps.len() == sts.len()
    &&& steps.len() == 0 || {
        let s = steps.last();
        let st = sts.last();
        let fade = fade_opt(expr_duration(s.fade_in, props)->Some_0);
        &&& spec_steps_made(v, steps.drop_last(), props, sts.drop_last(), d)
        &&& spec_made(v, s.key.0, s.key.1, props, st.runtime_spec(), d)
        &&& step_shaped(st, expr_duration(s.hold, props)->Some_0, fade)
        &&& step_faded(st, previous_last_frame(sts, sts.len() - 1), fade)
    }
}

pub open spec fn spec_items_made(
    v: DocView,
    items: Seq<(EffectSpecId, FixtureQuery)>,
    props: Map<Seq<char>, Value>,
    rts: Seq<EffectRuntime>,
    d: nat,
) -> bool
    decreases d, 2nat, items.len(),
{
    &&& items.len() == rts.len()
    &&& items.len() == 0 || (spec_items_made(v, items.drop_last(), props, rts.drop_last(), d)
        && spec_made(v, items.last().0, items.last().1, props, rts.last(), d))
}

// ---------------------------------------------------------------------------
// Prefixes of step and item lists keep what the whole list has.

pub(crate) proof fn lemma_effect_steps_ok_take(v: DocView, s: Seq<SequenceStep>, d: nat, i: int)
    requires
        effect_steps_ok(v, s, d),
        0 <= i <= s.len(),
    ensures
        effect_steps_ok(v, s.take(i), d),
    decreases s.len(),
{
    if i == s.len() {
        assert(s.take(i) =~= s);
    } else {
        lemma_effect_steps_ok_take(v, s.drop_last(), d, i);
        assert(s.drop_last().take(i) =~= s.take(i));
    }
}

pub(crate) proof fn lemma_effect_items_ok_take(v: DocView, s: Seq<EffectId>, d: nat, i: int)
    requires
        effect_items_ok(v, s, d),
        0 <= i <= s.len(),
    ensures
        effect_items_ok(v, s.take(i), d),
    decreases s.len(),
{
    if i == s.len() {
        assert(s.take(i) =~= s);
    } else {
        lemma_effect_items_ok_take(v, s.drop_last(), d, i);
        assert(s.drop_last().take(i) =~= s.take(i));
    }
}

proof fn lemma_effect_items_frames_all(v: DocView, s: Seq<EffectId>, d: nat)
    requires
        effect_items_frames(v, s, d),
    ensures
        forall|j: int| 0 <= j < s.len() ==> #[trigger] effect_frames(v, s[j], d),
    decreases s.len(),
{
    if s.len() > 0 {
        lemma_effect_items_frames_all(v, s.drop_last(), d);
        assert forall|j: int| 0 <= j < s.len() implies #[trigger] effect_frames(v, s[j], d) by {
            if j < s.len() - 1 {
                assert(s.drop_last()[j] == s[j]);
            }
        }
    }
}

// ---------------------------------------------------------------------------
// Creating runtimes, at a given depth.

pub(crate) fn effect_runtime_at(doc: &DocState, id: EffectId, Ghost(d): Ghost<nat>) -> (r: EffectRuntime)
    requires
        effect_ok(doc@, id, d),
    ensures
        effect_made(doc@, id, r, d),
        effect_frames(doc@, id, d) ==> r.has_frames(),
    decreases d, 0nat, 0nat,
{
    let e = match doc.effect(&id) {
        Some(e) => e,
        None => vstd::pervasive::unreached(),
    };
    effect_body_runtime_at(doc, e.body(), Ghost((d - 1) as nat))
}

fn effect_body_runtime_at(doc: &DocState, b: &EffectBody, Ghost(d): Ghost<nat>) -> (r: EffectRuntime)
    requires
        effect_body_ok(doc@, *b, d),
    ensures
        effect_body_made(doc@, *b, r, d),
        effect_body_frames(doc@, *b, d) ==> r.has_frames(),
    decreases d, 3nat, 0nat,
{
    match b {
        EffectBody::Simple(SimpleEffectBody::New { values, .. }) => {
            let r = EffectRuntime::Simple(SimpleEffectRuntime::new(values));
            proof {
                lemma_has_frames(r);
            }
            r
        },
        EffectBody::Simple(SimpleEffectBody::FromTemplate { tmpl_id, tmpl_props }) => {
            template_runtime_at(doc, *tmpl_id, tmpl_props, Ghost(d))
        },
        EffectBody::Sequence(SequenceEffectBody::FromTemplate(t, p)) => {
            template_runtime_at(doc, *t, p, Ghost(d))
        },
        EffectBody::Sequence(SequenceEffectBody::New(steps)) => {
            let sts = effect_steps_runtimes(doc, steps, Ghost(d));
            let r = EffectRuntime::Sequence(SequenceEffectRuntime::new(sts));
            proof {
                lemma_has_frames(r);
                if sts@.len() > 0 {
                    assert(sts@.last() == sts@[sts@.len() - 1]);
                    assert(sts@[0].runtime_spec().has_frames());
                    assert(sts@[sts@.len() - 1].runtime_spec().has_frames());
                }
            }
            r
        },
        EffectBody::Parallel(ParallelEffectBody::FromTemplate { tmpl_id, tmpl_props }) => {
            template_runtime_at(doc, *tmpl_id, tmpl_props, Ghost(d))
        },
        EffectBody::Parallel(ParallelEffectBody::New { items }) => {
            let rts = effect_items_runtimes(doc, items, Ghost(d));
            let r = EffectRuntime::Parallel(ParallelEffectRuntime::new(rts));
            proof {
                lemma_has_frames(r);
                if effect_items_frames(doc@, items@, d) {
                    lemma_effect_items_frames_all(doc@, items@, d);
                }
            }
            r
        },
    }
}

fn effect_steps_runtimes(doc: &DocState, steps: &Vec<SequenceStep>, Ghost(d): Ghost<nat>) -> (r: Vec<
    StepRuntime,
>)
    requires
        effect_steps_ok(doc@, steps@, d),
    ensures
        effect_steps_made(doc@, steps@, r@, d),
        forall|j: int| 0 <= j < r@.len() ==> #[trigger] r@[j].runtime_spec().has_frames(),
    decreases d, 2nat, steps@.len(),
{
    let n = steps.len();
    let mut out: Vec<StepRuntime> = Vec::new();
    let mut prev_last: Vec<EffectCommand> = Vec::new();
    let mut i: usize = 0;
    while i < n
        invariant
            n == steps@.len(),
            i <= n,
            out@.len() == i,
            effect_steps_ok(doc@, steps@, d),
            effect_steps_made(doc@, steps@.take(i as int), out@, d),
            forall|j: int| 0 <= j < out@.len() ==> #[trigger] out@[j].runtime_spec().has_frames(),
            i == 0 ==> prev_last@ == Seq::<EffectCommand>::empty(),
            i > 0 ==> prev_last@ == out@[i - 1].runtime_spec().last_frame(),
        decreases n - i,
    {
        let step = &steps[i];
        proof {
            lemma_effect_steps_ok_take(doc@, steps@, d, i + 1);
            assert(steps@.take(i + 1).drop_last() =~= steps@.take(i as int));
            assert(steps@.take(i + 1).last() == steps@[i as int]);
        }
        let rt = effect_runtime_at(doc, step.effect_id(), Ghost(d));
        let first = rt.first_frame_hint();
        let last = rt.last_frame_hint();
        let fade = match step.fade_in() {
            Some(f) => Some(FadeInRuntime::new(&prev_last, &first, f)),
            None => None,
        };
        let st = StepRuntime::new(step.hold(), rt, step.fade_in(), fade);
        proof {
            assert(out@.push(st).drop_last() =~= out@);
            assert(previous_last_frame(out@.push(st), i as int) == prev_last@);
        }
        out.push(st);
        prev_last = last;
        i = i + 1;
    }
    proof {
        assert(steps@.take(n as int) =~= steps@);
    }
    out
}

fn effect_items_runtimes(doc: &DocState, items: &Vec<EffectId>, Ghost(d): Ghost<nat>) -> (r: Vec<
    EffectRuntime,
>)
    requires
        effect_items_ok(doc@, items@, d),
    ensures
        effect_items_made(doc@, items@, r@, d),
        forall|j: int|
            0 <= j < r@.len() && effect_frames(doc@, items@[j], d) ==> #[trigger] r@[j].has_frames(),
    decreases d, 2nat, items@.len(),
{
    let n = items.len();
    let mut out: Vec<EffectRuntime> = Vec::new();
    let mut i: usize = 0;
    while i < n
        invariant
            n == items@.len(),
            i <= n,
            out@.len() == i,
            effect_items_ok(doc@, items@, d),
            effect_items_made(doc@, items@.take(i as int), out@, d),
            forall|j: int|
                0 <= j < out@.len() && effect_frames(doc@, items@[j], d) ==> #[trigger] out@[j].has_frames(),
        decreases n - i,
    {
        proof {
            lemma_effect_items_ok_take(doc@, items@, d, i + 1);
            assert(items@.take(i + 1).drop_last() =~= items@.take(i as int));
            assert(items@.take(i + 1).last() == items@[i as int]);
        }
        let rt = effect_runtime_at(doc, items[i], Ghost(d));
        proof {
            assert(out@.push(rt).drop_last() =~= out@);
        }
        out.push(rt);
        i = i + 1;
    }
    proof {
        assert(items@.take(n as int) =~= items@);
    }
    out
}

pub(crate) proof fn lemma_template_steps_ok_take(
    v: DocView,
    s: Seq<SequenceTemplateStepBase<EffectTemplateId>>,
    props: Map<Seq<char>, Value>,
    d: nat,
    i: int,
)
    requires
        template_steps_ok(v, s, props, d),
        0 <= i <= s.len(),
    ensures
        template_steps_ok(v, s.take(i), props, d),
    decreases s.len(),
{
    if i == s.len() {
        assert(s.take(i) =~= s);
    } else {
        lemma_template_steps_ok_take(v, s.drop_last(), props, d, i);
        assert(s.drop_last().take(i) =~= s.take(i));
    }
}

pub(crate) proof fn lemma_template_items_ok_take(
    v: DocView,
    s: Seq<EffectTemplateId>,
    props: Map<Seq<char>, Value>,
    d: nat,
    i: int,
)
    requires
        template_items_ok(v, s, props, d),
        0 <= i <= s.len(),
    ensures
        template_items_ok(v, s.take(i), props, d),
    decreases s.len(),
{
    if i == s.len() {
        assert(s.take(i) =~= s);
    } else {
        lemma_template_items_ok_take(v, s.drop_last(), props, d, i);
        assert(s.drop_last().take(i) =~= s.take(i));
    }
}

proof fn lemma_template_items_frames_all(v: DocView, s: Seq<EffectTemplateId>, d: nat)
    requires
        template_items_frames(v, s, d),
    ensures
        forall|j: int| 0 <= j < s.len() ==> #[trigger] template_frames(v, s[j], d),
    decreases s.len(),
{
    if s.len() > 0 {
        lemma_template_items_frames_all(v, s.drop_last(), d);
        assert forall|j: int| 0 <= j < s.len() implies #[trigger] template_frames(v, s[j], d) by {
            if j < s.len() - 1 {
                assert(s.drop_last()[j] == s[j]);
            }
        }
    }
}

pub(crate) proof fn lemma_spec_steps_ok_take(
    v: DocView,
    s: Seq<SequenceTemplateStepBase<(EffectSpecId, FixtureQuery)>>,
    props: Map<Seq<char>, Value>,
    d: nat,
    i: int,
)
    requires
        spec_steps_ok(v, s, props, d),
        0 <= i <= s.len(),
    ensures
        spec_steps_ok(v, s.take(i), props, d),
    decreases s.len(),
{
    if i == s.len() {
        assert(s.take(i) =~= s);
    } else {
        lemma_spec_steps_ok_take(v, s.drop_last(), props, d, i);
        assert(s.drop_last().take(i) =~= s.take(i));
    }
}

pub(crate) proof fn lemma_spec_items_ok_take(
    v: DocView,
    s: Seq<(EffectSpecId, FixtureQuery)>,
    props: Map<Seq<char>, Value>,
    d: nat,
    i: int,
)
    requires
        spec_items_ok(v, s, props, d),
        0 <= i <= s.len(),
    ensures
        spec_items_ok(v, s.take(i), props, d),
    decreases s.len(),
{
    if i == s.len() {
        assert(s.take(i) =~= s);
    } else {
        lemma_spec_items_ok_take(v, s.drop_last(), props, d, i);
        assert(s.drop_last().take(i) =~= s.take(i));
    }
}

proof fn lemma_spec_items_frames_all(v: DocView, s: Seq<(EffectSpecId, FixtureQuery)>, d: nat)
    requires
        spec_items_frames(v, s, d),
    ensures
        forall|j: int| 0 <= j < s.len() ==> #[trigger] spec_frames(v, s[j].0, d),
    decreases s.len(),
{
    if s.len() > 0 {
        lemma_spec_items_frames_all(v, s.drop_last(), d);
        assert forall|j: int| 0 <= j < s.len() implies #[trigger] spec_frames(v, s[j].0, d) by {
            if j < s.len() - 1 {
                assert(s.drop_last()[j] == s[j]);
            }
        }
    }
}

fn template_runtime_at(
    doc: &DocState,
    id: EffectTemplateId,
    props: &KeyedVec<String, Value>,
    Ghost(d): Ghost<nat>,
) -> (r: EffectRuntime)
    requires
        template_ok(doc@, id, props@, d),
    ensures
        template_made(doc@, id, props@, r, d),
        template_frames(doc@, id, d) ==> r.has_frames(),
    decreases d, 0nat, 0nat,
{
    let t = match doc.effect_template(&id) {
        Some(t) => t,
        None => vstd::pervasive::unreached(),
    };
    template_body_runtime_at(doc, t.body(), props, Ghost((d - 1) as nat))
}

fn template_body_runtime_at(
    doc: &DocState,
    b: &EffectTemplateBody,
    props: &KeyedVec<String, Value>,
    Ghost(d): Ghost<nat>,
) -> (r: EffectRuntime)
    requires
        template_body_ok(doc@, *b, props@, d),
    ensures
        template_body_made(doc@, *b, props@, r, d),
        template_body_frames(doc@, *b, d) ==> r.has_frames(),
    decreases d, 3nat, 0nat,
{
    match b {
        EffectTemplateBody::Simple(sb) => {
            let r = sb.resolve_props(props, doc);
            proof {
                lemma_has_frames(r);
            }
            r
        },
        EffectTemplateBody::Sequence(
            SequenceEffectTemplateBody::FromSpec { spec_key, spec_props, .. },
        ) => {
            let resolved = substitute_props(spec_props, props);
            spec_runtime_at(doc, spec_key.0, &spec_key.1, &resolved, Ghost(d))
        },
        EffectTemplateBody::Sequence(SequenceEffectTemplateBody::New { steps, .. }) => {
            let sts = template_steps_runtimes(doc, steps, props, Ghost(d));
            let r = EffectRuntime::Sequence(SequenceEffectRuntime::new(sts));
            proof {
                lemma_has_frames(r);
                if sts@.len() > 0 {
                    assert(sts@.last() == sts@[sts@.len() - 1]);
                    assert(sts@[0].runtime_spec().has_frames());
                    assert(sts@[sts@.len() - 1].runtime_spec().has_frames());
                }
            }
            r
        },
        EffectTemplateBody::Parallel(
            ParallelEffectTemplateBody::FromSpec { spec_key, spec_props, .. },
        ) => {
            let resolved = substitute_props(spec_props, props);
            spec_runtime_at(doc, spec_key.0, &spec_key.1, &resolved, Ghost(d))
        },
        EffectTemplateBody::Parallel(ParallelEffectTemplateBody::New { items, .. }) => {
            let rts = template_items_runtimes(doc, items, props, Ghost(d));
            let r = EffectRuntime::Parallel(ParallelEffectRuntime::new(rts));
            proof {
                lemma_has_frames(r);
                if template_items_frames(doc@, items@, d) {
                    lemma_template_items_frames_all(doc@, items@, d);
                }
            }
            r
        },
    }
}

fn template_steps_runtimes(
    doc: &DocState,
    steps: &Vec<SequenceTemplateStepBase<EffectTemplateId>>,
    props: &KeyedVec<String, Value>,
    Ghost(d): Ghost<nat>,
) -> (r: Vec<StepRuntime>)
    requires
        template_steps_ok(doc@, steps@, props@, d),
    ensures
        template_steps_made(doc@, steps@, props@, r@, d),
        forall|j: int| 0 <= j < r@.len() ==> #[trigger] r@[j].runtime_spec().has_frames(),
    decreases d, 2nat, steps@.len(),
{
    let n = steps.len();
    let mut out: Vec<StepRuntime> = Vec::new();
    let mut prev_last: Vec<EffectCommand> = Vec::new();
    let mut i: usize = 0;
    while i < n
        invariant
            n == steps@.len(),
            i <= n,
            out@.len() == i,
            template_steps_ok(doc@, steps@, props@, d),
            template_steps_made(doc@, steps@.take(i as int), props@, out@, d),
            forall|j: int| 0 <= j < out@.len() ==> #[trigger] out@[j].runtime_spec().has_frames(),
            i == 0 ==> prev_last@ == Seq::<EffectCommand>::empty(),
            i > 0 ==> prev_last@ == out@[i - 1].runtime_spec().last_frame(),
        decreases n - i,
    {
        let step = &steps[i];
        proof {
            lemma_template_steps_ok_take(doc@, steps@, props@, d, i + 1);
            assert(steps@.take(i + 1).drop_last() =~= steps@.take(i as int));
            assert(steps@.take(i + 1).last() == steps@[i as int]);
        }
        let hold = eval_expr(&step.hold, props).unwrap_duration();
        let fade_len = eval_expr(&step.fade_in, props).unwrap_duration();
        let fade_in = if fade_len.is_zero() {
            None
        } else {
            Some(fade_len)
        };
        let rt = template_runtime_at(doc, step.key, props, Ghost(d));
        let fade = match fade_in {
            Some(f) => {
                let first = rt.first_frame_hint();
                Some(FadeInRuntime::new(&prev_last, &first, f))
            },
            None => None,
        };
        let last = rt.last_frame_hint();
        let st = StepRuntime::new(hold, rt, fade_in, fade);
        proof {
            assert(out@.push(st).drop_last() =~= out@);
            assert(previous_last_frame(out@.push(st), i as int) == prev_last@);
        }
        prev_last = last;
        out.push(st);
        i = i + 1;
    }
    proof {
        assert(steps@.take(n as int) =~= steps@);
    }
    out
}

fn template_items_runtimes(
    doc: &DocState,
    items: &Vec<EffectTemplateId>,
    props: &KeyedVec<String, Value>,
    Ghost(d): Ghost<nat>,
) -> (r: Vec<EffectRuntime>)
    requires
        template_items_ok(doc@, items@, props@, d),
    ensures
        template_items_made(doc@, items@, props@, r@, d),
        forall|j: int|
            0 <= j < r@.len() && template_frames(doc@, items@[j], d) ==> #[trigger] r@[j].has_frames(),
    decreases d, 2nat, items@.len(),
{
    let n = items.len();
    let mut out: Vec<EffectRuntime> = Vec::new();
    let mut i: usize = 0;
    while i < n
        invariant
            n == items@.len(),
            i <= n,
            out@.len() == i,
            template_items_ok(doc@, items@, props@, d),
            template_items_made(doc@, items@.take(i as int), props@, out@, d),
            forall|j: int|
                0 <= j < out@.len() && template_frames(doc@, items@[j], d)
                    ==> #[trigger] out@[j].has_frames(),
        decreases n - i,
    {
        proof {
            lemma_template_items_ok_take(doc@, items@, props@, d, i + 1);
            assert(items@.take(i + 1).drop_last() =~= items@.take(i as int));
            assert(items@.take(i + 1).last() == items@[i as int]);
        }
        let rt = template_runtime_at(doc, items[i], props, Ghost(d));
        proof {
            assert(out@.push(rt).drop_last() =~= out@);
        }
        out.push(rt);
        i = i + 1;
    }
    proof {
        assert(items@.take(n as int) =~= items@);
    }
    out
}

fn spec_runtime_at(
    doc: &DocState,
    id: EffectSpecId,
    fixtures: &FixtureQuery,
    props: &KeyedVec<String, Value>,
    Ghost(d): Ghost<nat>,
) -> (r: EffectRuntime)
    requires
        spec_ok(doc@, id, *fixtures, props@, d),
    ensures
        spec_made(doc@, id, *fixtures, props@, r, d),
        spec_frames(doc@, id, d) ==> r.has_frames(),
    decreases d, 0nat, 0nat,
{
    let s = match doc.effect_spec(&id) {
        Some(s) => s,
        None => vstd::pervasive::unreached(),
    };
    spec_body_runtime_at(doc, s.body(), fixtures, props, Ghost((d - 1) as nat))
}

fn spec_body_runtime_at(
    doc: &DocState,
    b: &EffectSpecBody,
    fixtures: &FixtureQuery,
    props: &KeyedVec<String, Value>,
    Ghost(d): Ghost<nat>,
) -> (r: EffectRuntime)
    requires
        spec_body_ok(doc@, *b, *fixtures, props@, d),
    ensures
        spec_body_made(doc@, *b, *fixtures, props@, r, d),
        spec_body_frames(doc@, *b, d) ==> r.has_frames(),
    decreases d, 3nat, 0nat,
{
    match b {
        EffectSpecBody::Simple(sb) => {
            let r = sb.resolve_props(fixtures, props, doc);
            proof {
                lemma_has_frames(r);
            }
            r
        },
        EffectSpecBody::Sequence(sq) => {
            let sts = spec_steps_runtimes(doc, &sq.steps, props, Ghost(d));
            let r = EffectRuntime::Sequence(SequenceEffectRuntime::new(sts));
            proof {
                lemma_has_frames(r);
                if sts@.len() > 0 {
                    assert(sts@.last() == sts@[sts@.len() - 1]);
                    assert(sts@[0].runtime_spec().has_frames());
                    assert(sts@[sts@.len() - 1].runtime_spec().has_frames());
                }
            }
            r
        },
        EffectSpecBody::Parallel(pb) => {
            let rts = spec_items_runtimes(doc, pb.items(), props, Ghost(d));
            let r = EffectRuntime::Parallel(ParallelEffectRuntime::new(rts));
            proof {
                lemma_has_frames(r);
                if spec_items_frames(doc@, pb.items_spec(), d) {
                    lemma_spec_items_frames_all(doc@, pb.items_spec(), d);
                }
            }
            r
        },
    }
}

fn spec_steps_runtimes(
    doc: &DocState,
    steps: &Vec<SequenceTemplateStepBase<(EffectSpecId, FixtureQuery)>>,
    props: &KeyedVec<String, Value>,
    Ghost(d): Ghost<nat>,
) -> (r: Vec<StepRuntime>)
    requires
        spec_steps_ok(doc@, steps@, props@, d),
    ensures
        spec_steps_made(doc@, steps@, props@, r@, d),
        forall|j: int| 0 <= j < r@.len() ==> #[trigger] r@[j].runtime_spec().has_frames(),
    decreases d, 2nat, steps@.len(),
{
    let n = steps.len();
    let mut out: Vec<StepRuntime> = Vec::new();
    let mut prev_last: Vec<EffectCommand> = Vec::new();
    let mut i: usize = 0;
    while i < n
        invariant
            n == steps@.len(),
            i <= n,
            out@.len() == i,
            spec_steps_ok(doc@, steps@, props@, d),
            spec_steps_made(doc@, steps@.take(i as int), props@, out@, d),
            forall|j: int| 0 <= j < out@.len() ==> #[trigger] out@[j].runtime_spec().has_frames(),
            i == 0 ==> prev_last@ == Seq::<EffectCommand>::empty(),
            i > 0 ==> prev_last@ == out@[i - 1].runtime_spec().last_frame(),
        decreases n - i,
    {
        let step = &steps[i];
        proof {
            lemma_spec_steps_ok_take(doc@, steps@, props@, d, i + 1);
            assert(steps@.take(i + 1).drop_last() =~= steps@.take(i as int));
            assert(steps@.take(i + 1).last() == steps@[i as int]);
        }
        let hold = eval_expr(&step.hold, props).unwrap_duration();
        let fade_len = eval_expr(&step.fade_in, props).unwrap_duration();
        let fade_in = if fade_len.is_zero() {
            None
        } else {
            Some(fade_len)
        };
        let rt = spec_runtime_at(doc, step.key.0, &step.key.1, props, Ghost(d));
        let fade = match fade_in {
            Some(f) => {
                let first = rt.first_frame_hint();
                Some(FadeInRuntime::new(&prev_last, &first, f))
            },
            None => None,
        };
        let last = rt.last_frame_hint();
        let st = StepRuntime::new(hold, rt, fade_in, fade);
        proof {
            assert(out@.push(st).drop_last() =~= out@);
            assert(previous_last_frame(out@.push(st), i as int) == prev_last@);
        }
        prev_last = last;
        out.push(st);
        i = i + 1;
    }
    proof {
        assert(steps@.take(n as int) =~= steps@);
    }
    out
}

fn spec_items_runtimes(
    doc: &DocState,
    items: &Vec<(EffectSpecId, FixtureQuery)>,
    props: &KeyedVec<String, Value>,
    Ghost(d): Ghost<nat>,
) -> (r: Vec<EffectRuntime>)
    requires
        spec_items_ok(doc@, items@, props@, d),
    ensures
        spec_items_made(doc@, items@, props@, r@, d),
        forall|j: int|
            0 <= j < r@.len() && spec_frames(doc@, items@[j].0, d) ==> #[trigger] r@[j].has_frames(),
    decreases d, 2nat, items@.len(),
{
    let n = items.len();
    let mut out: Vec<EffectRuntime> = Vec::new();
    let mut i: usize = 0;
    while i < n
        invariant
            n == items@.len(),
            i <= n,
            out@.len() == i,
            spec_items_ok(doc@, items@, props@, d),
            spec_items_made(doc@, items@.take(i as int), props@, out@, d),
            forall|j: int|
                0 <= j < out@.len() && spec_frames(doc@, items@[j].0, d) ==> #[trigger] out@[j].has_frames(),
        decreases n - i,
    {
        proof {
            lemma_spec_items_ok_take(doc@, items@, props@, d, i + 1);
            assert(items@.take(i + 1).drop_last() =~= items@.take(i as int));
            assert(items@.take(i + 1).last() == items@[i as int]);
        }
        let rt = spec_runtime_at(doc, items[i].0, &items[i].1, props, Ghost(d));
        proof {
            assert(out@.push(rt).drop_last() =~= out@);
        }
        out.push(rt);
        i = i + 1;
    }
    proof {
        assert(items@.take(n as int) =~= items@);
    }
    out
}

// ---------------------------------------------------------------------------
// The public entry points. Each resolves at a depth at which its input can
// be resolved; `exists` in a contract ranges over such depths.

impl DocState {
    /// The runtime of the stored effect `id`, with every template and spec
    /// it refers to resolved.
    pub fn create_runtime(&self, id: EffectId) -> (r: EffectRuntime)
        requires
            exists|d: nat| effect_ok(self@, id, d),
        ensures
            exists|d: nat| effect_ok(self@, id, d) && #[trigger] effect_made(self@, id, r, d),
    {
        let ghost d = choose|d: nat| effect_ok(self@, id, d);
        effect_runtime_at(self, id, Ghost(d))
    }

    /// The runtime of the stored template `id` with its properties given by
    /// `given_props`.
    pub fn resolve_template_props(&self, id: EffectTemplateId, given_props: &KeyedVec<String, Value>) -> (r:
        EffectRuntime)
        requires
            exists|d: nat| template_ok(self@, id, given_props@, d),
        ensures
            exists|d: nat|
                template_ok(self@, id, given_props@, d) && #[trigger] template_made(
                    self@,
                    id,
                    given_props@,
                    r,
                    d,
                ),
    {
        let ghost d = choose|d: nat| template_ok(self@, id, given_props@, d);
        template_runtime_at(self, id, given_props, Ghost(d))
    }

    /// The runtime of the stored spec `key.0` on the fixtures that `key.1`
    /// selects, with its properties given by `given_props`.
    pub fn resolve_spec_props(
        &self,
        key: &(EffectSpecId, FixtureQuery),
        given_props: &KeyedVec<String, Value>,
    ) -> (r: EffectRuntime)
        requires
            exists|d: nat| spec_ok(self@, key.0, key.1, given_props@, d),
        ensures
            exists|d: nat|
                spec_ok(self@, key.0, key.1, given_props@, d) && #[trigger] spec_made(
                    self@,
                    key.0,
                    key.1,
                    given_props@,
                    r,
                    d,
                ),
    {
        let ghost d = choose|d: nat| spec_ok(self@, key.0, key.1, given_props@, d);
        spec_runtime_at(self, key.0, &key.1, given_props, Ghost(d))
    }
}

impl Effect {
    /// The runtime of this effect's body.
    pub fn create_runtime(&self, doc: &DocState) -> (r: EffectRuntime)
        requires
            exists|d: nat| effect_body_ok(doc@, self.body_spec(), d),
        ensures
            exists|d: nat|
                effect_body_ok(doc@, self.body_spec(), d) && #[trigger] effect_body_made(
                    doc@,
                    self.body_spec(),
                    r,
                    d,
                ),
    {
        self.body().create_runtime(doc)
    }
}

impl EffectBody {
    /// The runtime of this body: a template's is resolved with the given
    /// properties, a new body's is built from its values, steps or items.
    pub fn create_runtime(&self, doc: &DocState) -> (r: EffectRuntime)
        requires
            exists|d: nat| effect_body_ok(doc@, *self, d),
        ensures
            exists|d: nat| effect_body_ok(doc@, *self, d) && #[trigger] effect_body_made(doc@, *self, r, d),
    {
        let ghost d = choose|d: nat| effect_body_ok(doc@, *self, d);
        effect_body_runtime_at(doc, self, Ghost(d))
    }
}

impl SimpleEffectBody {
    /// The runtime of this simple body: a new one writes its values on
    /// every tick.
    pub fn create_runtime(&self, doc: &DocState) -> (r: EffectRuntime)
        requires
            exists|d: nat| effect_body_ok(doc@, EffectBody::Simple(*self), d),
        ensures
            exists|d: nat|
                effect_body_ok(doc@, EffectBody::Simple(*self), d) && #[trigger] effect_body_made(
                    doc@,
                    EffectBody::Simple(*self),
                    r,
                    d,
                ),
    {
        let ghost d = choose|d: nat| effect_body_ok(doc@, EffectBody::Simple(*self), d);
        let r = match self {
            SimpleEffectBody::FromTemplate { tmpl_id, tmpl_props } => {
                template_runtime_at(doc, *tmpl_id, tmpl_props, Ghost(d))
            },
            SimpleEffectBody::New { values, .. } => {
                EffectRuntime::Simple(SimpleEffectRuntime::new(values))
            },
        };
        proof {
            assert(effect_body_made(doc@, EffectBody::Simple(*self), r, d));
        }
        r
    }
}

impl SequenceEffectBody {
    /// The runtime of this sequence: each step runs its effect, fading in
    /// from that effect's last frame when the step has a fade.
    pub fn create_runtime(&self, doc: &DocState) -> (r: EffectRuntime)
        requires
            exists|d: nat| effect_body_ok(doc@, EffectBody::Sequence(*self), d),
        ensures
            exists|d: nat|
                effect_body_ok(doc@, EffectBody::Sequence(*self), d) && #[trigger] effect_body_made(
                    doc@,
                    EffectBody::Sequence(*self),
                    r,
                    d,
                ),
    {
        let ghost d = choose|d: nat| effect_body_ok(doc@, EffectBody::Sequence(*self), d);
        let r = match self {
            SequenceEffectBody::FromTemplate(t, p) => template_runtime_at(doc, *t, p, Ghost(d)),
            SequenceEffectBody::New(steps) => {
                let sts = effect_steps_runtimes(doc, steps, Ghost(d));
                EffectRuntime::Sequence(SequenceEffectRuntime::new(sts))
            },
        };
        proof {
            assert(effect_body_made(doc@, EffectBody::Sequence(*self), r, d));
        }
        r
    }
}

impl ParallelEffectBody {
    /// The runtime of this parallel body: its effects run side by side.
    pub fn create_runtime(&self, doc: &DocState) -> (r: EffectRuntime)
        requires
            exists|d: nat| effect_body_ok(doc@, EffectBody::Parallel(*self), d),
        ensures
            exists|d: nat|
                effect_body_ok(doc@, EffectBody::Parallel(*self), d) && #[trigger] effect_body_made(
                    doc@,
                    EffectBody::Parallel(*self),
                    r,
                    d,
                ),
    {
        let ghost d = choose|d: nat| effect_body_ok(doc@, EffectBody::Parallel(*self), d);
        let r = match self {
            ParallelEffectBody::FromTemplate { tmpl_id, tmpl_props } => {
                template_runtime_at(doc, *tmpl_id, tmpl_props, Ghost(d))
            },
            ParallelEffectBody::New { items } => {
                let rts = effect_items_runtimes(doc, items, Ghost(d));
                EffectRuntime::Parallel(ParallelEffectRuntime::new(rts))
            },
        };
        proof {
            assert(effect_body_made(doc@, EffectBody::Parallel(*self), r, d));
        }
        r
    }
}

impl EffectTemplateBody {
    /// The runtime of this template body under `given_props`.
    pub fn resolve_props(&self, given_props: &KeyedVec<String, Value>, doc: &DocState) -> (r:
        EffectRuntime)
        requires
            exists|d: nat| template_body_ok(doc@, *self, given_props@, d),
        ensures
            exists|d: nat|
                template_body_ok(doc@, *self, given_props@, d) && #[trigger] template_body_made(
                    doc@,
                    *self,
                    given_props@,
                    r,
                    d,
                ),
    {
        let ghost d = choose|d: nat| template_body_ok(doc@, *self, given_props@, d);
        template_body_runtime_at(doc, self, given_props, Ghost(d))
    }
}

impl SequenceEffectTemplateBody {
    /// The runtime of this sequence template under `given_props`: a template
    /// from a spec resolves the spec with its substituted properties; a new
    /// one resolves each step, fading in from the previous step's last frame.
    pub fn resolve_props(&self, given_props: &KeyedVec<String, Value>, doc: &DocState) -> (r:
        EffectRuntime)
        requires
            exists|d: nat|
                template_body_ok(doc@, EffectTemplateBody::Sequence(*self), given_props@, d),
        ensures
            exists|d: nat|
                template_body_ok(doc@, EffectTemplateBody::Sequence(*self), given_props@, d)
                    && #[trigger] template_body_made(
                    doc@,
                    EffectTemplateBody::Sequence(*self),
                    given_props@,
                    r,
                    d,
                ),
    {
        let ghost d = choose|d: nat|
            template_body_ok(doc@, EffectTemplateBody::Sequence(*self), given_props@, d);
        let r = match self {
            SequenceEffectTemplateBody::FromSpec { spec_key, spec_props, .. } => {
                let resolved = substitute_props(spec_props, given_props);
                spec_runtime_at(doc, spec_key.0, &spec_key.1, &resolved, Ghost(d))
            },
            SequenceEffectTemplateBody::New { steps, .. } => {
                let sts = template_steps_runtimes(doc, steps, given_props, Ghost(d));
                EffectRuntime::Sequence(SequenceEffectRuntime::new(sts))
            },
        };
        proof {
            assert(template_body_made(doc@, EffectTemplateBody::Sequence(*self), given_props@, r, d));
        }
        r
    }
}

impl ParallelEffectTemplateBody {
    /// The runtime of this parallel template under `given_props`: a template
    /// from a spec resolves the spec with its substituted properties; a new
    /// one runs each of its templates under the same properties.
    pub fn resolve_props(&self, given_props: &KeyedVec<String, Value>, doc: &DocState) -> (r:
        EffectRuntime)
        requires
            exists|d: nat|
                template_body_ok(doc@, EffectTemplateBody::Parallel(*self), given_props@, d),
        ensures
            exists|d: nat|
                template_body_ok(doc@, EffectTemplateBody::Parallel(*self), given_props@, d)
                    && #[trigger] template_body_made(
                    doc@,
                    EffectTemplateBody::Parallel(*self),
                    given_props@,
                    r,
                    d,
                ),
    {
        let ghost d = choose|d: nat|
            template_body_ok(doc@, EffectTemplateBody::Parallel(*self), given_props@, d);
        let r = match self {
            ParallelEffectTemplateBody::FromSpec { spec_key, spec_props, .. } => {
                let resolved = substitute_props(spec_props, given_props);
                spec_runtime_at(doc, spec_key.0, &spec_key.1, &resolved, Ghost(d))
            },
            ParallelEffectTemplateBody::New { items, .. } => {
                let rts = template_items_runtimes(doc, items, given_props, Ghost(d));
                EffectRuntime::Parallel(ParallelEffectRuntime::new(rts))
            },
        };
        proof {
            assert(template_body_made(doc@, EffectTemplateBody::Parallel(*self), given_props@, r, d));
        }
        r
    }
}

impl EffectSpecBody {
    /// The runtime of this spec body on the fixtures of `fixtures` under
    /// `given_props`.
    pub fn resolve_props(
        &self,
        fixtures: &FixtureQuery,
        given_props: &KeyedVec<String, Value>,
        doc: &DocState,
    ) -> (r: EffectRuntime)
        requires
            exists|d: nat| spec_body_ok(doc@, *self, *fixtures, given_props@, d),
        ensures
            exists|d: nat|
                spec_body_ok(doc@, *self, *fixtures, given_props@, d) && #[trigger] spec_body_made(
                    doc@,
                    *self,
                    *fixtures,
                    given_props@,
                    r,
                    d,
                ),
    {
        let ghost d = choose|d: nat| spec_body_ok(doc@, *self, *fixtures, given_props@, d);
        spec_body_runtime_at(doc, self, fixtures, given_props, Ghost(d))
    }
}

impl SequenceEffectSpecBody {
    /// The runtime of this sequence spec under `given_props`: each step runs
    /// its spec on its own fixtures, fading in from the previous step's last
    /// frame.
    pub fn resolve_props(&self, given_props: &KeyedVec<String, Value>, doc: &DocState) -> (r:
        EffectRuntime)
        requires
            exists|d: nat| spec_steps_ok(doc@, self.steps@, given_props@, d),
        ensures
            r is Sequence,
            r->Sequence_0.current_spec() == 0,
            r->Sequence_0.buffer_ns() == 0,
            exists|d: nat|
                spec_steps_ok(doc@, self.steps@, given_props@, d) && #[trigger] spec_steps_made(
                    doc@,
                    self.steps@,
                    given_props@,
                    r->Sequence_0.steps_spec(),
                    d,
                ),
    {
        let ghost d = choose|d: nat| spec_steps_ok(doc@, self.steps@, given_props@, d);
        let sts = spec_steps_runtimes(doc, &self.steps, given_props, Ghost(d));
        let r = EffectRuntime::Sequence(SequenceEffectRuntime::new(sts));
        proof {
            assert(spec_steps_made(doc@, self.steps@, given_props@, r->Sequence_0.steps_spec(), d));
        }
        r
    }
}

impl ParallelEffectSpecBody {
    /// The runtime of this parallel spec under `given_props`: each of its
    /// specs runs on its own fixtures, side by side.
    pub fn resolve_props(&self, given_props: &KeyedVec<String, Value>, doc: &DocState) -> (r:
        EffectRuntime)
        requires
            exists|d: nat| spec_items_ok(doc@, self.items_spec(), given_props@, d),
        ensures
            r is Parallel,
            exists|d: nat|
                spec_items_ok(doc@, self.items_spec(), given_props@, d) && #[trigger] spec_items_made(
                    doc@,
                    self.items_spec(),
                    given_props@,
                    r->Parallel_0.runtimes_spec(),
                    d,
                ),
    {
        let ghost d = choose|d: nat| spec_items_ok(doc@, self.items_spec(), given_props@, d);
        let rts = spec_items_runtimes(doc, self.items(), given_props, Ghost(d));
        let r = EffectRuntime::Parallel(ParallelEffectRuntime::new(rts));
        proof {
            assert(spec_items_made(doc@, self.items_spec(), given_props@, r->Parallel_0.runtimes_spec(), d));
        }
        r
    }
}

impl EffectBodyOrReference<EffectBody, EffectId> {
    /// The runtime of the body given in place, or of the stored effect it
    /// refers to.
    pub fn create_runtime(&self, doc: &DocState) -> (r: EffectRuntime)
        requires
            match *self {
                EffectBodyOrReference::Body(b) => exists|d: nat| effect_body_ok(doc@, b, d),
                EffectBodyOrReference::Reference(id) => exists|d: nat| effect_ok(doc@, id, d),
            },
        ensures
            match *self {
                EffectBodyOrReference::Body(b) => exists|d: nat|
                    effect_body_ok(doc@, b, d) && #[trigger] effect_body_made(doc@, b, r, d),
                EffectBodyOrReference::Reference(id) => exists|d: nat|
                    effect_ok(doc@, id, d) && #[trigger] effect_made(doc@, id, r, d),
            },
    {
        match self {
            EffectBodyOrReference::Body(b) => b.create_runtime(doc),
            EffectBodyOrReference::Reference(id) => doc.create_runtime(*id),
        }
    }
}

} // verus!
