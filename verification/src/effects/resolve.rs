//! Turning effect bodies into runtimes: properties are substituted, fixture
//! queries are run against the document, and dimmer and color levels are
//! written to the channels that the fixtures' definitions name.
use crate::doc::state::{DocState, DocView};
use crate::effects::runtime::{write_command, ChannelKey, EffectRuntime, SimpleEffectRuntime};
use crate::effects::simple::{SimpleEffectSpecBody, SimpleEffectTemplateBody};
use crate::effects::{selected_count, EffectSpecBody, Expression, FixtureQuery, Value};
use crate::fixture_def::{lookup_def, CapabilityKind};
use crate::ids::FixtureId;
use crate::keyed::{keys_distinct, KeyedVec};
use crate::time::Duration;
use vstd::prelude::*;

verus! {

/// The offset of the dimmer channel in the mode of fixture `f`.
pub open spec fn dimmer_of(v: DocView, f: FixtureId) -> Option<int> {
    let fx = v.fixtures[f];
    lookup_def(v.catalog, fx.def_spec()@)->Some_0.kind_offset(fx.mode_spec()@, CapabilityKind::Intensity)
}

/// The offsets of the red, green and blue channels in the mode of fixture
/// `f`, when it has all three.
pub open spec fn rgb_of(v: DocView, f: FixtureId) -> Option<(int, int, int)> {
    let fx = v.fixtures[f];
    let def = lookup_def(v.catalog, fx.def_spec()@)->Some_0;
    let m = fx.mode_spec()@;
    match (
        def.kind_offset(m, CapabilityKind::Red),
        def.kind_offset(m, CapabilityKind::Green),
        def.kind_offset(m, CapabilityKind::Blue),
    ) {
        (Some(r), Some(g), Some(b)) => Some((r, g, b)),
        _ => None,
    }
}

/// The value `e` stands for under `props`, when it is defined there.
pub open spec fn expr_value(e: Expression, props: Map<Seq<char>, Value>) -> Option<Value> {
    match e {
        Expression::Value(v) => Some(v),
        Expression::Prop(p) => if props.contains_key(p@) {
            Some(props[p@])
        } else {
            None
        },
    }
}

/// The dimmer level `e` stands for under `props`.
pub open spec fn expr_dimmer(e: Expression, props: Map<Seq<char>, Value>) -> Option<u8> {
    match expr_value(e, props) {
        Some(Value::Dimmer(d)) => Some(d),
        _ => None,
    }
}

/// The color `e` stands for under `props`.
pub open spec fn expr_color(e: Expression, props: Map<Seq<char>, Value>) -> Option<[u8; 3]> {
    match expr_value(e, props) {
        Some(Value::Color(c)) => Some(c),
        _ => None,
    }
}

/// The span `e` stands for under `props`.
pub open spec fn expr_duration(e: Expression, props: Map<Seq<char>, Value>) -> Option<Duration> {
    match expr_value(e, props) {
        Some(Value::Duration(d)) => Some(d),
        _ => None,
    }
}

/// `o` is the red, green or blue channel of fixture `f`.
pub open spec fn color_slot(v: DocView, f: FixtureId, o: usize) -> bool {
    match rgb_of(v, f) {
        Some(c) => c.0 == o || c.1 == o || c.2 == o,
        None => false,
    }
}

/// The part of `col` that goes to color channel `o` of fixture `f`.
pub open spec fn color_level(v: DocView, f: FixtureId, o: usize, col: [u8; 3]) -> u8 {
    let c = rgb_of(v, f)->Some_0;
    if c.0 == o {
        col[0]
    } else if c.1 == o {
        col[1]
    } else {
        col[2]
    }
}

/// `base` with, for each fixture in `member`, `dimmer` on its dimmer
/// channel and `color` on its red, green and blue channels.
pub open spec fn levels(
    v: DocView,
    base: Map<ChannelKey, u8>,
    member: spec_fn(FixtureId) -> bool,
    dimmer: Option<u8>,
    color: Option<[u8; 3]>,
) -> Map<ChannelKey, u8> {
    Map::new(
        |k: ChannelKey|
            base.contains_key(k) || (member(k.0) && ((dimmer is Some && dimmer_of(v, k.0) == Some(
                k.1 as int,
            )) || (color is Some && color_slot(v, k.0, k.1)))),
        |k: ChannelKey|
            if member(k.0) && dimmer is Some && dimmer_of(v, k.0) == Some(k.1 as int) {
                dimmer->Some_0
            } else if member(k.0) && color is Some && color_slot(v, k.0, k.1) {
                color_level(v, k.0, k.1, color->Some_0)
            } else {
                base[k]
            },
    )
}

/// The levels a simple body writes on the fixtures that `query` selects.
pub open spec fn simple_values(
    v: DocView,
    base: Map<ChannelKey, u8>,
    query: FixtureQuery,
    dimmer: Option<u8>,
    color: Option<[u8; 3]>,
) -> Map<ChannelKey, u8> {
    levels(v, base, |f: FixtureId| selected_count(v, f, query@.1) > 0, dimmer, color)
}

/// `cmds` writes exactly the values of `m`, each channel once.
pub open spec fn writes_exactly(cmds: Seq<EffectCommand>, m: Map<ChannelKey, u8>) -> bool {
    &&& forall|i: int|
        0 <= i < cmds.len() ==> (#[trigger] cmds[i] matches EffectCommand::WriteUniverse {
            fixture_id,
            channel,
            value,
        } && m.contains_key((fixture_id, channel)) && m[(fixture_id, channel)] == value)
    &&& forall|i: int, j: int|
        #![trigger cmds[i], cmds[j]]
        0 <= i < cmds.len() && 0 <= j < cmds.len() && i != j ==> cmds[i]->fixture_id
            != cmds[j]->fixture_id || cmds[i]->channel != cmds[j]->channel
    &&& forall|k: ChannelKey| #[trigger]
        m.contains_key(k) ==> exists|i: int| 0 <= i < cmds.len() && cmds[i] == write_command(k, m[k])
}

/// The runtime writes exactly the values of `m`.
pub open spec fn simple_runtime_writes(rt: EffectRuntime, m: Map<ChannelKey, u8>) -> bool {
    rt matches EffectRuntime::Simple(s) && writes_exactly(s.commands_spec(), m)
}

use crate::effects::EffectCommand;

/// A simple runtime made from a map writes exactly its values.
pub fn simple_runtime_of(values: &KeyedVec<ChannelKey, u8>) -> (r: EffectRuntime)
    ensures
        simple_runtime_writes(r, values@),
{
    let n = values.len();
    let s = SimpleEffectRuntime::new(values);
    proof {
        let es = values.entries();
        let cmds = s.commands_spec();
        assert(cmds.len() == es.len());
        assert forall|i: int| 0 <= i < cmds.len() implies (#[trigger] cmds[i] matches EffectCommand::WriteUniverse {
            fixture_id,
            channel,
            value,
        } && values@.contains_key((fixture_id, channel)) && values@[(fixture_id, channel)] == value) by {
            assert(cmds[i] == write_command(es[i].0, es[i].1));
            assert(es[i].0@ == es[i].0);
        }
        assert forall|i: int, j: int|
            #![trigger cmds[i], cmds[j]]
            0 <= i < cmds.len() && 0 <= j < cmds.len() && i != j implies cmds[i]->fixture_id
            != cmds[j]->fixture_id || cmds[i]->channel != cmds[j]->channel by {
            assert(cmds[i] == write_command(es[i].0, es[i].1));
            assert(cmds[j] == write_command(es[j].0, es[j].1));
            assert(es[i].0@ != es[j].0@);
        }
        assert forall|k: ChannelKey| #[trigger] values@.contains_key(k) implies exists|i: int|
            0 <= i < cmds.len() && cmds[i] == write_command(k, values@[k]) by {
            let i = crate::keyed::seq_index_of(es, k);
            assert(es[i].0@ == k);
            assert(es[i].0 == k);
            assert(cmds[i] == write_command(es[i].0, es[i].1));
        }
    }
    EffectRuntime::Simple(s)
}

impl DocState {
    /// The offsets of the dimmer channel and of the red, green and blue
    /// channels of fixture `fxt_id`, where its mode has them.
    pub fn get_dimmer_and_color(&self, fxt_id: FixtureId) -> (r: (Option<usize>, Option<[usize; 3]>))
        requires
            self@.consistent(),
            self@.fixtures.contains_key(fxt_id),
        ensures
            match r.0 {
                Some(o) => dimmer_of(self@, fxt_id) == Some(o as int),
                None => dimmer_of(self@, fxt_id) is None,
            },
            match r.1 {
                Some(a) => rgb_of(self@, fxt_id) == Some((a[0] as int, a[1] as int, a[2] as int)),
                None => rgb_of(self@, fxt_id) is None,
            },
    {
        let fxt = match self.fixture(&fxt_id) {
            Some(f) => f,
            None => vstd::pervasive::unreached(),
        };
        let def = match self.fixture_defs().get(fxt.fixture_def()) {
            Ok(d) => d,
            Err(_) => vstd::pervasive::unreached(),
        };
        let dimmer_channel = def.find_dimmer_channel_in_mode(fxt.fixture_mode());
        let color_channel = def.find_rgb_channel_in_mode(fxt.fixture_mode());
        (dimmer_channel, color_channel)
    }
}

/// The value `e` stands for under `props`.
pub(crate) fn eval_expr<'a>(e: &'a Expression, props: &'a KeyedVec<String, Value>) -> (r: &'a Value)
    requires
        expr_value(*e, props@) is Some,
    ensures
        expr_value(*e, props@) == Some(*r),
{
    match e {
        Expression::Value(v) => v,
        Expression::Prop(p) => match props.get(p) {
            Some(v) => v,
            None => vstd::pervasive::unreached(),
        },
    }
}

/// Writes `dimmer` and `color` to the channels of each fixture of `fixtures`
/// in `values`.
fn write_levels(
    doc: &DocState,
    fixtures: &Vec<FixtureId>,
    dimmer: Option<u8>,
    color: Option<[u8; 3]>,
    values: &mut KeyedVec<ChannelKey, u8>,
)
    requires
        doc@.consistent(),
        forall|i: int| 0 <= i < fixtures@.len() ==> doc@.fixtures.contains_key(#[trigger] fixtures@[i]),
        forall|i: int|
            0 <= i < fixtures@.len() ==> (dimmer is Some ==> dimmer_of(doc@, #[trigger] fixtures@[i]) is Some)
                && (color is Some ==> rgb_of(doc@, fixtures@[i]) is Some),
    ensures
        final(values)@ == levels(doc@, old(values)@, |f: FixtureId| fixtures@.contains(f), dimmer, color),
{
    let ghost v = doc@;
    let ghost base = values@;
    let n = fixtures.len();
    let mut i: usize = 0;
    while i < n
        invariant
            n == fixtures@.len(),
            i <= n,
            v == doc@,
            v.consistent(),
            forall|j: int| 0 <= j < fixtures@.len() ==> v.fixtures.contains_key(#[trigger] fixtures@[j]),
            forall|j: int|
                0 <= j < fixtures@.len() ==> (dimmer is Some ==> dimmer_of(v, #[trigger] fixtures@[j]) is Some)
                    && (color is Some ==> rgb_of(v, fixtures@[j]) is Some),
            values@ == levels(v, base, |g: FixtureId| fixtures@.take(i as int).contains(g), dimmer, color),
        decreases n - i,
    {
        let f = fixtures[i];
        let (dim_ch, col_ch) = doc.get_dimmer_and_color(f);
        assert(fixtures@.take(i + 1) =~= fixtures@.take(i as int).push(f));
        assert(v.fixtures.contains_key(f));
        let ghost fx = v.fixtures[f];
        let ghost def = lookup_def(v.catalog, fx.def_spec()@)->Some_0;
        let ghost m = fx.mode_spec()@;
        proof {
            if dim_ch.is_some() && col_ch.is_some() {
                def.lemma_kind_offsets_differ(m, CapabilityKind::Intensity, CapabilityKind::Red);
                def.lemma_kind_offsets_differ(m, CapabilityKind::Intensity, CapabilityKind::Green);
                def.lemma_kind_offsets_differ(m, CapabilityKind::Intensity, CapabilityKind::Blue);
            }
            if col_ch.is_some() {
                def.lemma_kind_offsets_differ(m, CapabilityKind::Red, CapabilityKind::Green);
                def.lemma_kind_offsets_differ(m, CapabilityKind::Red, CapabilityKind::Blue);
                def.lemma_kind_offsets_differ(m, CapabilityKind::Green, CapabilityKind::Blue);
            }
        }
        let ghost before = values@;
        match dimmer {
            Some(d) => {
                match dim_ch {
                    Some(o) => {
                        let _ = values.insert((f, o), d);
                    },
                    None => vstd::pervasive::unreached(),
                }
            },
            None => {},
        }
        match color {
            Some(c) => {
                match col_ch {
                    Some(chs) => {
                        let _ = values.insert((f, chs[0]), c[0]);
                        let _ = values.insert((f, chs[1]), c[1]);
                        let _ = values.insert((f, chs[2]), c[2]);
                    },
                    None => vstd::pervasive::unreached(),
                }
            },
            None => {},
        }
        i = i + 1;
        proof {
            let t0 = fixtures@.take((i - 1) as int);
            let t1 = fixtures@.take(i as int);
            assert(t1 =~= t0.push(f));
            assert forall|g: FixtureId| #[trigger] t1.contains(g) <==> t0.contains(g) || g == f by {
                if t1.contains(g) {
                    let j = choose|j: int| 0 <= j < t1.len() && t1[j] == g;
                    if j < t0.len() {
                        assert(t0[j] == g);
                    }
                }
                if t0.contains(g) {
                    let j = choose|j: int| 0 <= j < t0.len() && t0[j] == g;
                    assert(t1[j] == g);
                }
                if g == f {
                    assert(t1[t0.len() as int] == g);
                }
            }
            assert(values@ =~= levels(v, base, |g: FixtureId| t1.contains(g), dimmer, color));
        }
    }
    assert(fixtures@.take(n as int) =~= fixtures@);
}


/// The properties of a spec given by `spec_props`, each evaluated under
/// `given`.
pub open spec fn substituted(
    spec_props: Map<Seq<char>, Expression>,
    given: Map<Seq<char>, Value>,
) -> Map<Seq<char>, Value> {
    Map::new(
        |n: Seq<char>| spec_props.contains_key(n),
        |n: Seq<char>| expr_value(spec_props[n], given)->Some_0,
    )
}

/// The level a present dimmer expression stands for.
pub open spec fn opt_dimmer(e: Option<Expression>, props: Map<Seq<char>, Value>) -> Option<u8> {
    match e {
        Some(e) => expr_dimmer(e, props),
        None => None,
    }
}

/// The color a present color expression stands for.
pub open spec fn opt_color(e: Option<Expression>, props: Map<Seq<char>, Value>) -> Option<[u8; 3]> {
    match e {
        Some(e) => expr_color(e, props),
        None => None,
    }
}

/// Evaluates each expression of `spec_props` under `given`.
pub fn substitute_props(spec_props: &KeyedVec<String, Expression>, given: &KeyedVec<String, Value>) -> (r:
    KeyedVec<String, Value>)
    requires
        forall|n: Seq<char>| #[trigger]
            spec_props@.contains_key(n) ==> expr_value(spec_props@[n], given@) is Some,
    ensures
        r@ == substituted(spec_props@, given@),
{
    let n = spec_props.len();
    let mut out: KeyedVec<String, Value> = KeyedVec::new();
    let mut i: usize = 0;
    while i < n
        invariant
            n == spec_props.entries().len(),
            i <= n,
            keys_distinct(spec_props.entries()),
            forall|j: int|
                0 <= j < spec_props.entries().len() ==> spec_props@.contains_key(
                    #[trigger] spec_props.entries()[j].0@,
                ) && spec_props@[spec_props.entries()[j].0@] == spec_props.entries()[j].1,
            forall|m: Seq<char>| #[trigger]
                spec_props@.contains_key(m) ==> expr_value(spec_props@[m], given@) is Some,
            forall|m: Seq<char>| #[trigger]
                out@.contains_key(m) <==> exists|j: int| 0 <= j < i && spec_props.entries()[j].0@ == m,
            forall|m: Seq<char>| #[trigger]
                out@.contains_key(m) ==> out@[m] == expr_value(spec_props@[m], given@)->Some_0,
        decreases n - i,
    {
        let name = spec_props.key_at(i);
        let expr = spec_props.value_at(i);
        let ghost k = name@;
        assert(spec_props@.contains_key(k));
        let v = eval_expr(expr, given).duplicate();
        let _ = out.insert(name.clone(), v);
        i = i + 1;
        assert forall|m: Seq<char>| #[trigger]
            out@.contains_key(m) <==> exists|j: int| 0 <= j < i && spec_props.entries()[j].0@ == m by {
            if m == k {
                assert(spec_props.entries()[i - 1].0@ == m);
            }
        }
    }
    proof {
        let sub = substituted(spec_props@, given@);
        assert forall|m: Seq<char>| out@.contains_key(m) <==> sub.contains_key(m) by {
            if spec_props@.contains_key(m) {
                let j = crate::keyed::seq_index_of(spec_props.entries(), m);
                assert(spec_props.entries()[j].0@ == m);
            }
            if out@.contains_key(m) {
                let j = choose|j: int| 0 <= j < n && spec_props.entries()[j].0@ == m;
                assert(spec_props@.contains_key(spec_props.entries()[j].0@));
            }
        }
        assert(out@ =~= sub);
    }
    out
}

/// A copy of a map of channel levels.
pub fn copy_levels(values: &KeyedVec<ChannelKey, u8>) -> (r: KeyedVec<ChannelKey, u8>)
    ensures
        r@ == values@,
{
    let n = values.len();
    let mut out: KeyedVec<ChannelKey, u8> = KeyedVec::new();
    let mut i: usize = 0;
    while i < n
        invariant
            n == values.entries().len(),
            i <= n,
            keys_distinct(values.entries()),
            forall|j: int|
                0 <= j < values.entries().len() ==> values@.contains_key(
                    #[trigger] values.entries()[j].0@,
                ) && values@[values.entries()[j].0@] == values.entries()[j].1,
            forall|k: ChannelKey| #[trigger]
                out@.contains_key(k) <==> exists|j: int| 0 <= j < i && values.entries()[j].0@ == k,
            forall|k: ChannelKey| #[trigger] out@.contains_key(k) ==> out@[k] == values@[k],
        decreases n - i,
    {
        let k = *values.key_at(i);
        let v = *values.value_at(i);
        assert(values.entries()[i as int].0@ == k);
        let _ = out.insert(k, v);
        i = i + 1;
        assert forall|m: ChannelKey| #[trigger]
            out@.contains_key(m) <==> exists|j: int| 0 <= j < i && values.entries()[j].0@ == m by {
            if m == k {
                assert(values.entries()[i - 1].0@ == m);
            }
        }
    }
    proof {
        assert forall|k: ChannelKey| out@.contains_key(k) <==> values@.contains_key(k) by {
            if values@.contains_key(k) {
                let j = crate::keyed::seq_index_of(values.entries(), k);
                assert(values.entries()[j].0@ == k);
            }
            if out@.contains_key(k) {
                let j = choose|j: int| 0 <= j < n && values.entries()[j].0@ == k;
                assert(values@.contains_key(values.entries()[j].0@));
            }
        }
        assert(out@ =~= values@);
    }
    out
}

/// The fixtures `ids` are exactly those `query` selects, by membership.
pub(crate) proof fn lemma_query_members(v: DocView, ids: Seq<FixtureId>, query: FixtureQuery)
    requires
        forall|id: FixtureId| crate::effects::occurrences(ids, id) == selected_count(v, id, query@.1),
    ensures
        forall|id: FixtureId| ids.contains(id) <==> selected_count(v, id, query@.1) > 0,
        forall|i: int| 0 <= i < ids.len() ==> v.fixtures.contains_key(#[trigger] ids[i]),
{
    assert forall|id: FixtureId| ids.contains(id) <==> selected_count(v, id, query@.1) > 0 by {
        crate::effects::lemma_occurrences_contains(ids, id);
    }
    assert forall|i: int| 0 <= i < ids.len() implies v.fixtures.contains_key(#[trigger] ids[i]) by {
        crate::effects::lemma_occurrences_contains(ids, ids[i]);
        crate::effects::lemma_selected_in_doc(v, ids[i], query@.1);
    }
}

/// [`SimpleEffectSpecBody::resolve_props`] can resolve `b` on the fixtures
/// of `fixtures` under `props`: its dimmer and color are given as levels and
/// colors, and each selected fixture has the channels to write them to.
pub open spec fn simple_spec_ok(
    v: DocView,
    b: SimpleEffectSpecBody,
    fixtures: FixtureQuery,
    props: Map<Seq<char>, Value>,
) -> bool {
    &&& v.consistent()
    &&& b.dimmer is Some ==> opt_dimmer(b.dimmer, props) is Some
    &&& b.color is Some ==> opt_color(b.color, props) is Some
    &&& forall|f: FixtureId|
        selected_count(v, f, fixtures@.1) > 0 ==> (b.dimmer is Some ==> dimmer_of(v, f) is Some) && (
        b.color is Some ==> rgb_of(v, f) is Some)
}

/// What resolving the simple spec `b` on `fixtures` under `props` writes.
pub open spec fn simple_spec_made(
    v: DocView,
    b: SimpleEffectSpecBody,
    fixtures: FixtureQuery,
    props: Map<Seq<char>, Value>,
    rt: EffectRuntime,
) -> bool {
    simple_runtime_writes(
        rt,
        simple_values(v, Map::empty(), fixtures, opt_dimmer(b.dimmer, props), opt_color(b.color, props)),
    )
}

/// [`SimpleEffectTemplateBody::resolve_props`] can resolve `b` under
/// `props`: a template from a spec names a simple spec whose properties are
/// all given, and which can resolve; a new template's dimmer and color are
/// given, and each fixture it selects has dimmer and color channels.
pub open spec fn simple_template_ok(v: DocView, b: SimpleEffectTemplateBody, props: Map<Seq<char>, Value>) -> bool {
    &&& v.consistent()
    &&& match b {
        SimpleEffectTemplateBody::FromSpec { spec_id, spec_props, fixtures, .. } => {
            &&& v.effect_specs.contains_key(spec_id)
            &&& v.effect_specs[spec_id].body_spec() is Simple
            &&& forall|n: Seq<char>| #[trigger]
                spec_props@.contains_key(n) ==> expr_value(spec_props@[n], props) is Some
            &&& simple_spec_ok(
                v,
                v.effect_specs[spec_id].body_spec()->Simple_0,
                fixtures,
                substituted(spec_props@, props),
            )
        },
        SimpleEffectTemplateBody::New { fixtures, dimmer, color, .. } => {
            &&& expr_dimmer(dimmer, props) is Some
            &&& expr_color(color, props) is Some
            &&& forall|f: FixtureId|
                selected_count(v, f, fixtures@.1) > 0 ==> dimmer_of(v, f) is Some && rgb_of(v, f) is Some
        },
    }
}

/// What resolving the simple template `b` under `props` writes.
pub open spec fn simple_template_made(
    v: DocView,
    b: SimpleEffectTemplateBody,
    props: Map<Seq<char>, Value>,
    rt: EffectRuntime,
) -> bool {
    match b {
        SimpleEffectTemplateBody::FromSpec { spec_id, spec_props, fixtures, .. } => simple_spec_made(
            v,
            v.effect_specs[spec_id].body_spec()->Simple_0,
            fixtures,
            substituted(spec_props@, props),
            rt,
        ),
        SimpleEffectTemplateBody::New { fixtures, values, dimmer, color, .. } => simple_runtime_writes(
            rt,
            simple_values(v, values@, fixtures, expr_dimmer(dimmer, props), expr_color(color, props)),
        ),
    }
}

impl SimpleEffectSpecBody {
    /// The runtime of this spec on the fixtures that `fixtures` selects, its
    /// dimmer and color read under `given_props`.
    pub fn resolve_props(
        &self,
        fixtures: &FixtureQuery,
        given_props: &KeyedVec<String, Value>,
        doc: &DocState,
    ) -> (r: EffectRuntime)
        requires
            simple_spec_ok(doc@, *self, *fixtures, given_props@),
        ensures
            simple_spec_made(doc@, *self, *fixtures, given_props@, r),
    {
        let ids = fixtures.query(doc);
        proof {
            lemma_query_members(doc@, ids@, *fixtures);
        }
        let dimmer = match &self.dimmer {
            Some(e) => Some(eval_expr(e, given_props).unwrap_dimmer()),
            None => None,
        };
        let color = match &self.color {
            Some(e) => Some(eval_expr(e, given_props).unwrap_color()),
            None => None,
        };
        let mut values: KeyedVec<ChannelKey, u8> = KeyedVec::new();
        assert forall|i: int| 0 <= i < ids@.len() implies (dimmer is Some ==> dimmer_of(
            doc@,
            #[trigger] ids@[i],
        ) is Some) && (color is Some ==> rgb_of(doc@, ids@[i]) is Some) by {
            assert(ids@.contains(ids@[i]));
            assert(selected_count(doc@, ids@[i], fixtures@.1) > 0);
        }
        write_levels(doc, &ids, dimmer, color, &mut values);
        proof {
            let target = simple_values(doc@, Map::empty(), *fixtures, dimmer, color);
            assert(values@ =~= target);
        }
        simple_runtime_of(&values)
    }
}

impl SimpleEffectTemplateBody {
    /// The runtime of this template under `given_props`. A template from a
    /// spec substitutes the spec's properties and resolves the spec, which
    /// must be a simple one; a new template writes its fixed values and its
    /// dimmer and color on the fixtures it selects.
    pub fn resolve_props(&self, given_props: &KeyedVec<String, Value>, doc: &DocState) -> (r:
        EffectRuntime)
        requires
            simple_template_ok(doc@, *self, given_props@),
        ensures
            simple_template_made(doc@, *self, given_props@, r),
    {
        match self {
            SimpleEffectTemplateBody::FromSpec { spec_id, spec_props, fixtures, .. } => {
                let resolved = substitute_props(spec_props, given_props);
                let spec = match doc.effect_spec(spec_id) {
                    Some(s) => s,
                    None => vstd::pervasive::unreached(),
                };
                match spec.body() {
                    EffectSpecBody::Simple(body) => {
                        body.resolve_props(fixtures, &resolved, doc)
                    },
                    _ => vstd::pervasive::unreached(),
                }
            },
            SimpleEffectTemplateBody::New { fixtures, values, dimmer, color, .. } => {
                let d = eval_expr(dimmer, given_props).unwrap_dimmer();
                let c = eval_expr(color, given_props).unwrap_color();
                let ids = fixtures.query(doc);
                proof {
                    lemma_query_members(doc@, ids@, *fixtures);
                }
                let mut vals = copy_levels(values);
                assert forall|i: int| 0 <= i < ids@.len() implies (Some(d) is Some ==> dimmer_of(
                    doc@,
                    #[trigger] ids@[i],
                ) is Some) && (Some(c) is Some ==> rgb_of(doc@, ids@[i]) is Some) by {
                    assert(ids@.contains(ids@[i]));
                    assert(selected_count(doc@, ids@[i], fixtures@.1) > 0);
                }
                write_levels(doc, &ids, Some(d), Some(c), &mut vals);
                proof {
                    let target = simple_values(doc@, values@, *fixtures, Some(d), Some(c));
                    assert(vals@ =~= target);
                }
                simple_runtime_of(&vals)
            },
        }
    }
}

/// The levels a simple body writes to a fixture it selects: its dimmer level
/// on the fixture's dimmer channel, and the first, second and third
/// components of its color on the fixture's red, green and blue channels;
/// the fixed levels stay on every other channel.
pub proof fn lemma_selected_fixture_levels(
    v: DocView,
    base: Map<ChannelKey, u8>,
    query: FixtureQuery,
    dimmer: Option<u8>,
    color: Option<[u8; 3]>,
    f: FixtureId,
)
    requires
        selected_count(v, f, query@.1) > 0,
    ensures
        forall|o: usize|
            dimmer is Some && dimmer_of(v, f) == Some(o as int) ==> #[trigger] simple_values(
                v,
                base,
                query,
                dimmer,
                color,
            ).contains_key((f, o)) && simple_values(v, base, query, dimmer, color)[(f, o)] == dimmer->Some_0,
        forall|r: usize, g: usize, b: usize|
            color is Some && #[trigger] rgb_of(v, f) == Some((r as int, g as int, b as int)) ==> {
                let m = simple_values(v, base, query, dimmer, color);
                let col = color->Some_0;
                &&& m.contains_key((f, r)) && m[(f, r)] == col[0]
                &&& m.contains_key((f, g)) && m[(f, g)] == col[1]
                &&& m.contains_key((f, b)) && m[(f, b)] == col[2]
            },
{
    let fx = v.fixtures[f];
    let def = lookup_def(v.catalog, fx.def_spec()@)->Some_0;
    let mode = fx.mode_spec()@;
    assert forall|r: usize, g: usize, b: usize|
        color is Some && #[trigger] rgb_of(v, f) == Some((r as int, g as int, b as int)) implies {
        let m = simple_values(v, base, query, dimmer, color);
        let col = color->Some_0;
        &&& m.contains_key((f, r)) && m[(f, r)] == col[0]
        &&& m.contains_key((f, g)) && m[(f, g)] == col[1]
        &&& m.contains_key((f, b)) && m[(f, b)] == col[2]
    } by {
        def.lemma_kind_offsets_differ(mode, CapabilityKind::Red, CapabilityKind::Green);
        def.lemma_kind_offsets_differ(mode, CapabilityKind::Red, CapabilityKind::Blue);
        def.lemma_kind_offsets_differ(mode, CapabilityKind::Green, CapabilityKind::Blue);
        if def.kind_offset(mode, CapabilityKind::Intensity) is Some {
            def.lemma_kind_offsets_differ(mode, CapabilityKind::Intensity, CapabilityKind::Red);
            def.lemma_kind_offsets_differ(mode, CapabilityKind::Intensity, CapabilityKind::Green);
            def.lemma_kind_offsets_differ(mode, CapabilityKind::Intensity, CapabilityKind::Blue);
        }
        assert(color_slot(v, f, r) && color_slot(v, f, g) && color_slot(v, f, b));
    }
}

/// A new simple template keeps its fixed levels: every channel of its fixed
/// values that is not the dimmer, red, green or blue channel of a fixture
/// its query selects is written with its fixed level.
pub proof fn lemma_template_keeps_fixed_levels(
    v: DocView,
    b: SimpleEffectTemplateBody,
    props: Map<Seq<char>, Value>,
    rt: EffectRuntime,
)
    requires
        b is New,
        simple_template_made(v, b, props, rt),
    ensures
        forall|k: ChannelKey|
            #[trigger] b->New_values@.contains_key(k) && (selected_count(v, k.0, b->New_fixtures@.1) == 0 || (
            dimmer_of(v, k.0) != Some(k.1 as int) && !(rgb_of(v, k.0) matches Some(c) && (c.0 == k.1 as int || c.1
                == k.1 as int || c.2 == k.1 as int)))) ==> exists|i: int|
                0 <= i < rt->Simple_0.commands_spec().len() && rt->Simple_0.commands_spec()[i] == write_command(
                    k,
                    b->New_values@[k],
                ),
{
    if let SimpleEffectTemplateBody::New { fixtures, values, dimmer, color, .. } = b {
        let m = simple_values(v, values@, fixtures, expr_dimmer(dimmer, props), expr_color(color, props));
        assert forall|k: ChannelKey|
            #[trigger] values@.contains_key(k) && (selected_count(v, k.0, fixtures@.1) == 0 || (dimmer_of(v, k.0)
                != Some(k.1 as int) && !(rgb_of(v, k.0) matches Some(c) && (c.0 == k.1 as int || c.1 == k.1 as int
                || c.2 == k.1 as int)))) implies exists|i: int|
            0 <= i < rt->Simple_0.commands_spec().len() && rt->Simple_0.commands_spec()[i] == write_command(
                k,
                values@[k],
            ) by {
            assert(!color_slot(v, k.0, k.1) || selected_count(v, k.0, fixtures@.1) == 0);
            assert(m.contains_key(k));
            assert(m[k] == values@[k]);
        }
    }
}

} // verus!
