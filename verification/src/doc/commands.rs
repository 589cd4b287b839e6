//! The changes to a document. Applying a command changes the state and
//! gives back the command that undoes it.
use super::state::{
    insert_all, lemma_insert_all, lemma_occupied_distinct, lemma_remove_all, occupancy, remove_all,
    DocState, DocView, Slot, UniverseSetting,
};
use super::decider::{add_fixture_accepted, add_fixture_slots, lemma_conflicts_empty, update_fixture_accepted, update_fixture_slots};
use super::DocEffect;
use crate::effects::{Effect, EffectSpec, EffectTemplate};
use crate::fixture::{lemma_change_inverse_roundtrip, Fixture, FixtureChange};
use crate::fixture_def::lookup_def;
use crate::ids::{EffectId, EffectSpecId, EffectTemplateId, FixtureId, OutputPluginId};
use crate::universe::UniverseId;
use vstd::prelude::*;

verus! {

broadcast use {UniverseId::lemma_num_injective, UniverseId::lemma_of_num};

/// The highest universe number in `dom` that is at most `k`.
pub open spec fn top_universe_from(dom: Set<UniverseId>, k: int) -> Option<u8>
    decreases k + 1,
{
    if k < 0 || k > 255 {
        None
    } else if dom.contains(UniverseId::of(k as u8)) {
        Some(k as u8)
    } else {
        top_universe_from(dom, k - 1)
    }
}

/// The universe that adding one creates: one past the highest, or number 0
/// when there is none.
pub open spec fn next_universe(dom: Set<UniverseId>) -> UniverseId {
    match top_universe_from(dom, 255) {
        Some(m) => UniverseId::of((m + 1) as u8),
        None => UniverseId::of(0),
    }
}

/// What [`top_universe_from`] finds.
pub proof fn lemma_top_universe_from(dom: Set<UniverseId>, k: int)
    requires
        0 <= k <= 255,
    ensures
        top_universe_from(dom, k) matches Some(m) ==> m <= k && dom.contains(UniverseId::of(m))
            && forall|w: UniverseId| #[trigger] dom.contains(w) && w.num() <= k ==> w.num() <= m,
        top_universe_from(dom, k) is None ==> forall|w: UniverseId| #[trigger]
            dom.contains(w) ==> w.num() > k,
    decreases k,
{
    if !dom.contains(UniverseId::of(k as u8)) {
        assert forall|w: UniverseId| #[trigger] dom.contains(w) implies w.num() != k by {
            if w.num() == k {
                assert(UniverseId::of(k as u8).num() == k as u8);
                assert(w == UniverseId::of(k as u8));
            }
        }
        if k > 0 {
            lemma_top_universe_from(dom, k - 1);
        }
    }
}

/// `m` is the highest universe number of `dom`: the next universe is the one
/// after it.
pub proof fn lemma_next_universe_of_top(dom: Set<UniverseId>, m: UniverseId)
    requires
        dom.contains(m),
        forall|w: UniverseId| #[trigger] dom.contains(w) ==> w.num() <= m.num(),
    ensures
        top_universe_from(dom, 255) == Some(m.num()),
        m.num() < 255 ==> next_universe(dom).num() == m.num() + 1,
{
    lemma_top_universe_from(dom, 255);
    match top_universe_from(dom, 255) {
        Some(v) => {
            assert(dom.contains(UniverseId::of(v)));
            assert(UniverseId::of(v).num() <= m.num());
        },
        None => {
            assert(dom.contains(m));
        },
    }
}

/// With no universe, the next one is number 0.
pub proof fn lemma_next_universe_of_empty(dom: Set<UniverseId>)
    requires
        forall|w: UniverseId| !#[trigger] dom.contains(w),
    ensures
        top_universe_from(dom, 255) is None,
        next_universe(dom) == UniverseId::of(0),
{
    lemma_top_universe_from(dom, 255);
    if top_universe_from(dom, 255) is Some {
        let m = top_universe_from(dom, 255)->Some_0;
        assert(dom.contains(UniverseId::of(m)));
    }
}

/// A command as values.
pub enum CommandView {
    AddFixture(Fixture, Seq<Slot>),
    UpdateFixture(FixtureId, FixtureChange, Seq<Slot>, Seq<Slot>),
    RemoveFixture(FixtureId),
    AddEffectSpec(EffectSpec),
    UpdateEffectSpec(EffectSpec, EffectSpec),
    RemoveEffectSpec(EffectSpecId),
    AddEffectTemplate(EffectTemplate),
    UpdateEffectTemplate(EffectTemplate, EffectTemplate),
    RemoveEffectTemplate(EffectTemplateId),
    AddEffect(Effect),
    UpdateEffect(Effect, Effect),
    RemoveEffect(EffectId),
    AddUniverse,
    RemoveUniverse(UniverseId),
}

impl CommandView {
    /// The command can be applied to `v`: what it adds is new, what it
    /// changes or removes exists, and fixture slots are free.
    pub open spec fn enabled(self, v: DocView) -> bool {
        match self {
            CommandView::AddFixture(f, slots) => {
                &&& !v.fixtures.contains_key(f.id_spec())
                &&& occupancy(v.catalog, f) == Some(slots)
                &&& forall|i: int| 0 <= i < slots.len() ==> !v.index.contains_key(#[trigger] slots[i])
            },
            CommandView::UpdateFixture(id, change, old_slots, new_slots) => {
                &&& v.fixtures.contains_key(id)
                &&& old_slots == v.occ(id)
                &&& occupancy(v.catalog, v.fixtures[id].changed(change)) == Some(new_slots)
                &&& forall|i: int|
                    0 <= i < new_slots.len() && v.index.contains_key(#[trigger] new_slots[i])
                        ==> v.index[new_slots[i]].0 == id
            },
            CommandView::RemoveFixture(id) => v.fixtures.contains_key(id),
            CommandView::AddEffectSpec(s) => !v.effect_specs.contains_key(s.id_spec()),
            CommandView::UpdateEffectSpec(old, new) => {
                &&& v.effect_specs.contains_key(old.id_spec())
                &&& v.effect_specs[old.id_spec()] == old
                &&& new.id_spec() == old.id_spec()
            },
            CommandView::RemoveEffectSpec(id) => v.effect_specs.contains_key(id),
            CommandView::AddEffectTemplate(t) => !v.effect_templates.contains_key(t.id_spec()),
            CommandView::UpdateEffectTemplate(old, new) => {
                &&& v.effect_templates.contains_key(old.id_spec())
                &&& v.effect_templates[old.id_spec()] == old
                &&& new.id_spec() == old.id_spec()
            },
            CommandView::RemoveEffectTemplate(id) => v.effect_templates.contains_key(id),
            CommandView::AddEffect(e) => !v.effects.contains_key(e.id_spec()),
            CommandView::UpdateEffect(old, new) => {
                &&& v.effects.contains_key(old.id_spec())
                &&& v.effects[old.id_spec()] == old
                &&& new.id_spec() == old.id_spec()
            },
            CommandView::RemoveEffect(id) => v.effects.contains_key(id),
            CommandView::AddUniverse => forall|u: UniverseId| #[trigger]
                v.universes.contains_key(u) ==> u.num() < 255,
            CommandView::RemoveUniverse(u) => {
                &&& v.universes.contains_key(u)
                &&& forall|w: UniverseId| #[trigger] v.universes.contains_key(w) ==> w.num() <= u.num()
                &&& v.universes[u] == Seq::<OutputPluginId>::empty()
                &&& next_universe(v.universes.dom().remove(u)) == u
            },
        }
    }

    /// The document after the command.
    pub open spec fn applied(self, v: DocView) -> DocView {
        match self {
            CommandView::AddFixture(f, slots) => DocView {
                fixtures: v.fixtures.insert(f.id_spec(), f),
                index: insert_all(v.index, f.id_spec(), slots),
                ..v
            },
            CommandView::UpdateFixture(id, change, old_slots, new_slots) => DocView {
                fixtures: v.fixtures.insert(id, v.fixtures[id].changed(change)),
                index: insert_all(remove_all(v.index, old_slots), id, new_slots),
                ..v
            },
            CommandView::RemoveFixture(id) => DocView {
                fixtures: v.fixtures.remove(id),
                index: remove_all(v.index, v.occ(id)),
                ..v
            },
            CommandView::AddEffectSpec(s) => DocView {
                effect_specs: v.effect_specs.insert(s.id_spec(), s),
                ..v
            },
            CommandView::UpdateEffectSpec(old, new) => DocView {
                effect_specs: v.effect_specs.insert(new.id_spec(), new),
                ..v
            },
            CommandView::RemoveEffectSpec(id) => DocView {
                effect_specs: v.effect_specs.remove(id),
                ..v
            },
            CommandView::AddEffectTemplate(t) => DocView {
                effect_templates: v.effect_templates.insert(t.id_spec(), t),
                ..v
            },
            CommandView::UpdateEffectTemplate(old, new) => DocView {
                effect_templates: v.effect_templates.insert(new.id_spec(), new),
                ..v
            },
            CommandView::RemoveEffectTemplate(id) => DocView {
                effect_templates: v.effect_templates.remove(id),
                ..v
            },
            CommandView::AddEffect(e) => DocView { effects: v.effects.insert(e.id_spec(), e), ..v },
            CommandView::UpdateEffect(old, new) => DocView {
                effects: v.effects.insert(new.id_spec(), new),
                ..v
            },
            CommandView::RemoveEffect(id) => DocView { effects: v.effects.remove(id), ..v },
            CommandView::AddUniverse => DocView {
                universes: v.universes.insert(
                    next_universe(v.universes.dom()),
                    Seq::<OutputPluginId>::empty(),
                ),
                ..v
            },
            CommandView::RemoveUniverse(u) => DocView { universes: v.universes.remove(u), ..v },
        }
    }

    /// The command that undoes this one, applied to `v`.
    pub open spec fn inverse(self, v: DocView) -> CommandView {
        match self {
            CommandView::AddFixture(f, _) => CommandView::RemoveFixture(f.id_spec()),
            CommandView::UpdateFixture(id, change, old_slots, new_slots) => CommandView::UpdateFixture(
                id,
                change.inverse_spec(v.fixtures[id]),
                new_slots,
                old_slots,
            ),
            CommandView::RemoveFixture(id) => CommandView::AddFixture(v.fixtures[id], v.occ(id)),
            CommandView::AddEffectSpec(s) => CommandView::RemoveEffectSpec(s.id_spec()),
            CommandView::UpdateEffectSpec(old, new) => CommandView::UpdateEffectSpec(new, old),
            CommandView::RemoveEffectSpec(id) => CommandView::AddEffectSpec(v.effect_specs[id]),
            CommandView::AddEffectTemplate(t) => CommandView::RemoveEffectTemplate(t.id_spec()),
            CommandView::UpdateEffectTemplate(old, new) => CommandView::UpdateEffectTemplate(new, old),
            CommandView::RemoveEffectTemplate(id) => CommandView::AddEffectTemplate(
                v.effect_templates[id],
            ),
            CommandView::AddEffect(e) => CommandView::RemoveEffect(e.id_spec()),
            CommandView::UpdateEffect(old, new) => CommandView::UpdateEffect(new, old),
            CommandView::RemoveEffect(id) => CommandView::AddEffect(v.effects[id]),
            CommandView::AddUniverse => CommandView::RemoveUniverse(
                next_universe(v.universes.dom()),
            ),
            CommandView::RemoveUniverse(_) => CommandView::AddUniverse,
        }
    }

    /// What the command reports when applied to `v`.
    pub open spec fn effect(self, v: DocView) -> DocEffect {
        match self {
            CommandView::AddFixture(f, _) => DocEffect::FixtureAdded(f.id_spec()),
            CommandView::UpdateFixture(id, _, _, _) => DocEffect::FixtureUpdated(id),
            CommandView::RemoveFixture(id) => DocEffect::FixtureRemoved(id),
            CommandView::AddEffectSpec(s) => DocEffect::EffectSpecAdded(s.id_spec()),
            CommandView::UpdateEffectSpec(_, new) => DocEffect::EffectSpecUpdated(new.id_spec()),
            CommandView::RemoveEffectSpec(id) => DocEffect::EffectSpecRemoved(id),
            CommandView::AddEffectTemplate(t) => DocEffect::EffectTemplateAdded(t.id_spec()),
            CommandView::UpdateEffectTemplate(_, new) => DocEffect::EffectTemplateUpdated(
                new.id_spec(),
            ),
            CommandView::RemoveEffectTemplate(id) => DocEffect::EffectTemplateRemoved(id),
            CommandView::AddEffect(e) => DocEffect::EffectAdded(e.id_spec()),
            CommandView::UpdateEffect(_, new) => DocEffect::EffectUpdated(new.id_spec()),
            CommandView::RemoveEffect(id) => DocEffect::EffectRemoved(id),
            CommandView::AddUniverse => DocEffect::UniverseAdded(next_universe(v.universes.dom())),
            CommandView::RemoveUniverse(u) => DocEffect::UniverseRemoved(u),
        }
    }
}


/// The slots of a fixture whose definition resolves never repeat.
pub proof fn lemma_occupancy_distinct(v: DocView, f: Fixture)
    requires
        occupancy(v.catalog, f) is Some,
    ensures
        occupancy(v.catalog, f)->Some_0.no_duplicates(),
{
    let def = lookup_def(v.catalog, f.def_spec()@)->Some_0;
    lemma_occupied_distinct(
        f.universe_spec(),
        f.address_spec(),
        def.mode_map()[f.mode_spec()@].channels().len(),
    );
}

proof fn lemma_add_fixture_roundtrip(v: DocView, f: Fixture, slots: Seq<Slot>)
    requires
        v.consistent(),
        CommandView::AddFixture(f, slots).enabled(v),
    ensures
        CommandView::AddFixture(f, slots).applied(v).consistent(),
        CommandView::AddFixture(f, slots).inverse(v).enabled(
            CommandView::AddFixture(f, slots).applied(v),
        ),
        CommandView::AddFixture(f, slots).inverse(v).applied(
            CommandView::AddFixture(f, slots).applied(v),
        ) == v,
        CommandView::AddFixture(f, slots).inverse(v).inverse(
            CommandView::AddFixture(f, slots).applied(v),
        ) == CommandView::AddFixture(f, slots),
{
    let c = CommandView::AddFixture(f, slots);
    let id = f.id_spec();
    let v1 = c.applied(v);
    lemma_occupancy_distinct(v, f);
    lemma_insert_all(v.index, id, slots);
    assert forall|g: FixtureId| #[trigger] v1.fixtures.contains_key(g) implies v1.occ(g) == (if g
        == id {
        slots
    } else {
        v.occ(g)
    }) by {}
    assert forall|g: FixtureId, i: int|
        #![trigger v1.occ(g)[i]]
        v1.fixtures.contains_key(g) && 0 <= i < v1.occ(g).len() implies v1.index.contains_key(
        v1.occ(g)[i],
    ) && v1.index[v1.occ(g)[i]] == (g, i as usize) by {
        if g != id {
            let k = v.occ(g)[i];
            assert(v.index.contains_key(k));
            if slots.contains(k) {
                let j = choose|j: int| 0 <= j < slots.len() && slots[j] == k;
                assert(!v.index.contains_key(slots[j]));
            }
        }
    }
    assert forall|k: Slot| #[trigger] v1.index.contains_key(k) implies v1.fixtures.contains_key(
        v1.index[k].0,
    ) && v1.index[k].1 < v1.occ(v1.index[k].0).len() && v1.occ(v1.index[k].0)[v1.index[k].1 as int]
        == k by {
        if slots.contains(k) {
            let j = choose|j: int| 0 <= j < slots.len() && slots[j] == k;
            assert(v1.index[slots[j]] == (id, j as usize));
        } else {
            assert(v.index.contains_key(k));
        }
    }
    let inv = c.inverse(v);
    lemma_remove_all(v1.index, slots);
    assert(inv.applied(v1).index =~= v.index) by {
        assert forall|k: Slot| #[trigger] v.index.contains_key(k) implies !slots.contains(k) by {
            if slots.contains(k) {
                let j = choose|j: int| 0 <= j < slots.len() && slots[j] == k;
                assert(!v.index.contains_key(slots[j]));
            }
        }
    }
    assert(inv.applied(v1).fixtures =~= v.fixtures);
}

proof fn lemma_remove_fixture_roundtrip(v: DocView, id: FixtureId)
    requires
        v.consistent(),
        CommandView::RemoveFixture(id).enabled(v),
    ensures
        CommandView::RemoveFixture(id).applied(v).consistent(),
        CommandView::RemoveFixture(id).inverse(v).enabled(
            CommandView::RemoveFixture(id).applied(v),
        ),
        CommandView::RemoveFixture(id).inverse(v).applied(
            CommandView::RemoveFixture(id).applied(v),
        ) == v,
        CommandView::RemoveFixture(id).inverse(v).inverse(
            CommandView::RemoveFixture(id).applied(v),
        ) == CommandView::RemoveFixture(id),
{
    let c = CommandView::RemoveFixture(id);
    let v1 = c.applied(v);
    let occ = v.occ(id);
    let f = v.fixtures[id];
    lemma_occupancy_distinct(v, f);
    lemma_remove_all(v.index, occ);
    assert forall|k: Slot| #[trigger] occ.contains(k) implies v.index.contains_key(k) && v.index[k].0
        == id by {
        let j = choose|j: int| 0 <= j < occ.len() && occ[j] == k;
        assert(v.index[v.occ(id)[j]] == (id, j as usize));
    }
    assert forall|g: FixtureId, i: int|
        #![trigger v1.occ(g)[i]]
        v1.fixtures.contains_key(g) && 0 <= i < v1.occ(g).len() implies v1.index.contains_key(
        v1.occ(g)[i],
    ) && v1.index[v1.occ(g)[i]] == (g, i as usize) by {
        let k = v.occ(g)[i];
        assert(v.index[k] == (g, i as usize));
    }
    assert forall|k: Slot| #[trigger] v1.index.contains_key(k) implies v1.fixtures.contains_key(
        v1.index[k].0,
    ) && v1.index[k].1 < v1.occ(v1.index[k].0).len() && v1.occ(v1.index[k].0)[v1.index[k].1 as int]
        == k by {
        assert(v.index.contains_key(k));
        let g = v.index[k].0;
        if g == id {
            assert(occ[v.index[k].1 as int] == k);
        }
    }
    let inv = c.inverse(v);
    lemma_insert_all(v1.index, id, occ);
    assert(inv.applied(v1).index =~= v.index) by {
        assert forall|j: int| 0 <= j < occ.len() implies v.index[#[trigger] occ[j]] == (
            id,
            j as usize,
        ) by {
            assert(v.index[v.occ(id)[j]] == (id, j as usize));
        }
    }
    assert(inv.applied(v1).fixtures =~= v.fixtures);
}

proof fn lemma_update_fixture_roundtrip(
    v: DocView,
    id: FixtureId,
    change: FixtureChange,
    o: Seq<Slot>,
    n: Seq<Slot>,
)
    requires
        v.consistent(),
        CommandView::UpdateFixture(id, change, o, n).enabled(v),
    ensures
        CommandView::UpdateFixture(id, change, o, n).applied(v).consistent(),
        CommandView::UpdateFixture(id, change, o, n).inverse(v).enabled(
            CommandView::UpdateFixture(id, change, o, n).applied(v),
        ),
        CommandView::UpdateFixture(id, change, o, n).inverse(v).applied(
            CommandView::UpdateFixture(id, change, o, n).applied(v),
        ) == v,
        CommandView::UpdateFixture(id, change, o, n).inverse(v).inverse(
            CommandView::UpdateFixture(id, change, o, n).applied(v),
        ) == CommandView::UpdateFixture(id, change, o, n),
{
    let c = CommandView::UpdateFixture(id, change, o, n);
    let v1 = c.applied(v);
    let f = v.fixtures[id];
    let f1 = f.changed(change);
    lemma_change_inverse_roundtrip(f, change);
    lemma_occupancy_distinct(v, f);
    lemma_occupancy_distinct(v, f1);
    let mid = remove_all(v.index, o);
    lemma_remove_all(v.index, o);
    lemma_insert_all(mid, id, n);
    assert forall|k: Slot| #[trigger] o.contains(k) implies v.index.contains_key(k) && v.index[k].0
        == id by {
        let j = choose|j: int| 0 <= j < o.len() && o[j] == k;
        assert(v.index[v.occ(id)[j]] == (id, j as usize));
    }
    assert forall|k: Slot| v.index.contains_key(k) && #[trigger] n.contains(k) implies o.contains(k)
        by {
        let j = choose|j: int| 0 <= j < n.len() && n[j] == k;
        assert(v.index[n[j]].0 == id);
        assert(v.occ(id)[v.index[k].1 as int] == k);
    }
    assert forall|g: FixtureId, i: int|
        #![trigger v1.occ(g)[i]]
        v1.fixtures.contains_key(g) && 0 <= i < v1.occ(g).len() implies v1.index.contains_key(
        v1.occ(g)[i],
    ) && v1.index[v1.occ(g)[i]] == (g, i as usize) by {
        if g != id {
            let k = v.occ(g)[i];
            assert(v.index[k] == (g, i as usize));
            if o.contains(k) {
                assert(v.index[k].0 == id);
            }
            if n.contains(k) {
                assert(o.contains(k));
            }
        }
    }
    assert forall|k: Slot| #[trigger] v1.index.contains_key(k) implies v1.fixtures.contains_key(
        v1.index[k].0,
    ) && v1.index[k].1 < v1.occ(v1.index[k].0).len() && v1.occ(v1.index[k].0)[v1.index[k].1 as int]
        == k by {
        if n.contains(k) {
            let j = choose|j: int| 0 <= j < n.len() && n[j] == k;
            assert(v1.index[n[j]] == (id, j as usize));
        } else {
            assert(mid.contains_key(k));
            let g = v.index[k].0;
            if g == id {
                assert(o[v.index[k].1 as int] == k);
            }
        }
    }
    let inv = c.inverse(v);
    let mid2 = remove_all(v1.index, n);
    lemma_remove_all(v1.index, n);
    lemma_insert_all(mid2, id, o);
    assert(inv.applied(v1).index =~= v.index) by {
        assert forall|j: int| 0 <= j < o.len() implies v.index[#[trigger] o[j]] == (id, j as usize) by {
            assert(v.index[v.occ(id)[j]] == (id, j as usize));
        }
    }
    assert(inv.applied(v1).fixtures =~= v.fixtures);
}


/// The invariant of a document holds of another with the same fixtures,
/// catalog and index, whose effects, templates and specs are kept under
/// their own ids.
proof fn lemma_consistent_frame(v: DocView, v1: DocView)
    requires
        v.consistent(),
        v1.fixtures == v.fixtures,
        v1.catalog == v.catalog,
        v1.index == v.index,
        forall|id: EffectSpecId| #[trigger]
            v1.effect_specs.contains_key(id) ==> v1.effect_specs[id].id_spec() == id,
        forall|id: EffectTemplateId| #[trigger]
            v1.effect_templates.contains_key(id) ==> v1.effect_templates[id].id_spec() == id,
        forall|id: EffectId| #[trigger] v1.effects.contains_key(id) ==> v1.effects[id].id_spec() == id,
    ensures
        v1.consistent(),
{
    assert forall|g: FixtureId| #[trigger] v1.fixtures.contains_key(g) implies v1.occ(g) == v.occ(g) by {}
    assert forall|g: FixtureId, i: int|
        #![trigger v1.occ(g)[i]]
        v1.fixtures.contains_key(g) && 0 <= i < v1.occ(g).len() implies v1.index.contains_key(
        v1.occ(g)[i],
    ) && v1.index[v1.occ(g)[i]] == (g, i as usize) by {
        assert(v.occ(g)[i] == v1.occ(g)[i]);
    }
    assert forall|k: Slot| #[trigger] v1.index.contains_key(k) implies v1.fixtures.contains_key(
        v1.index[k].0,
    ) && v1.index[k].1 < v1.occ(v1.index[k].0).len() && v1.occ(v1.index[k].0)[v1.index[k].1 as int]
        == k by {
        assert(v.index.contains_key(k));
    }
}

proof fn lemma_universe_roundtrip(v: DocView, c: CommandView)
    requires
        v.consistent(),
        c.enabled(v),
        c is AddUniverse || c is RemoveUniverse,
    ensures
        c.applied(v).consistent(),
        c.inverse(v).enabled(c.applied(v)),
        c.inverse(v).applied(c.applied(v)) == v,
        c.inverse(v).inverse(c.applied(v)) == c,
{
    let dom = v.universes.dom();
    let v1 = c.applied(v);
    lemma_consistent_frame(v, v1);
    match c {
        CommandView::AddUniverse => {
            let n = next_universe(dom);
            lemma_top_universe_from(dom, 255);
            assert forall|w: UniverseId| #[trigger] dom.contains(w) implies w.num() < n.num() by {
                if top_universe_from(dom, 255) is Some {
                    let m = top_universe_from(dom, 255)->Some_0;
                    assert(dom.contains(UniverseId::of(m)));
                }
            }
            assert(!dom.contains(n));
            assert(v1.universes.dom().remove(n) =~= dom);
            assert(v1.universes.remove(n) =~= v.universes);
        },
        CommandView::RemoveUniverse(u) => {
            let d1 = dom.remove(u);
            assert(v1.universes.dom() =~= d1);
            lemma_top_universe_from(d1, 255);
            assert forall|w: UniverseId| #[trigger] d1.contains(w) implies w.num() < 255 by {
                assert(w.num() <= u.num());
                assert(w != u);
            }
            assert(v1.universes.insert(u, Seq::<OutputPluginId>::empty()) =~= v.universes);
        },
        _ => {},
    }
}

/// Applying a command and then the command it returns gives the document
/// back, the returned command is again applicable, its own undo is the first
/// command, and every command keeps the state invariant.
pub proof fn lemma_command_roundtrip(c: CommandView, v: DocView)
    requires
        v.consistent(),
        c.enabled(v),
    ensures
        c.applied(v).consistent(),
        c.inverse(v).enabled(c.applied(v)),
        c.inverse(v).applied(c.applied(v)) == v,
        c.inverse(v).inverse(c.applied(v)) == c,
{
    let v1 = c.applied(v);
    match c {
        CommandView::AddFixture(f, slots) => lemma_add_fixture_roundtrip(v, f, slots),
        CommandView::UpdateFixture(id, change, o, n) => lemma_update_fixture_roundtrip(
            v,
            id,
            change,
            o,
            n,
        ),
        CommandView::RemoveFixture(id) => lemma_remove_fixture_roundtrip(v, id),
        CommandView::AddUniverse => lemma_universe_roundtrip(v, c),
        CommandView::RemoveUniverse(_) => lemma_universe_roundtrip(v, c),
        _ => lemma_effect_roundtrip(v, c),
    }
}

proof fn lemma_effect_roundtrip(v: DocView, c: CommandView)
    requires
        v.consistent(),
        c.enabled(v),
        !(c is AddFixture || c is UpdateFixture || c is RemoveFixture || c is AddUniverse
            || c is RemoveUniverse),
    ensures
        c.applied(v).consistent(),
        c.inverse(v).enabled(c.applied(v)),
        c.inverse(v).applied(c.applied(v)) == v,
        c.inverse(v).inverse(c.applied(v)) == c,
{
    let v1 = c.applied(v);
    lemma_consistent_frame(v, v1);
    match c {
        CommandView::AddEffectSpec(s) => {
            assert(c.inverse(v).applied(v1).effect_specs =~= v.effect_specs);
        },
        CommandView::UpdateEffectSpec(old, new) => {
            assert(c.inverse(v).applied(v1).effect_specs =~= v.effect_specs);
        },
        CommandView::RemoveEffectSpec(id) => {
            assert(c.inverse(v).applied(v1).effect_specs =~= v.effect_specs);
        },
        CommandView::AddEffectTemplate(t) => {
            assert(c.inverse(v).applied(v1).effect_templates =~= v.effect_templates);
        },
        CommandView::UpdateEffectTemplate(old, new) => {
            assert(c.inverse(v).applied(v1).effect_templates =~= v.effect_templates);
        },
        CommandView::RemoveEffectTemplate(id) => {
            assert(c.inverse(v).applied(v1).effect_templates =~= v.effect_templates);
        },
        CommandView::AddEffect(e) => {
            assert(c.inverse(v).applied(v1).effects =~= v.effects);
        },
        CommandView::UpdateEffect(old, new) => {
            assert(c.inverse(v).applied(v1).effects =~= v.effects);
        },
        CommandView::RemoveEffect(id) => {
            assert(c.inverse(v).applied(v1).effects =~= v.effects);
        },
        _ => {},
    }
}


/// Adds a fixture and records its slots in the index.
#[derive(Debug)]
pub struct AddFixtureCommand {
    fixture: Fixture,
    occupied_addresses: Vec<Slot>,
}

/// Changes one property of a fixture and moves its slots in the index.
#[derive(Debug)]
pub struct UpdateFixtureCommand {
    id: FixtureId,
    change: FixtureChange,
    old_occupied_addresses: Vec<Slot>,
    new_occupied_addresses: Vec<Slot>,
}

/// Removes a fixture and frees its slots.
#[derive(Debug, Clone, Copy, PartialEq, Eq, Structural)]
pub struct RemoveFixtureCommand {
    id: FixtureId,
}

/// Adds an effect spec.
#[derive(Debug)]
pub struct AddEffectSpecCommand {
    spec: EffectSpec,
}

/// Replaces the effect spec `old` by `new`, which has the same id.
#[derive(Debug)]
pub struct UpdateEffectSpecCommand {
    old: EffectSpec,
    new: EffectSpec,
}

/// Removes an effect spec.
#[derive(Debug, Clone, Copy, PartialEq, Eq, Structural)]
pub struct RemoveEffectSpecCommand(EffectSpecId);

/// Adds an effect template.
#[derive(Debug)]
pub struct AddEffectTemplateCommand {
    tmpl: EffectTemplate,
}

/// Replaces the effect template `old` by `new`, which has the same id.
#[derive(Debug)]
pub struct UpdateEffectTemplateCommand {
    old: EffectTemplate,
    new: EffectTemplate,
}

/// Removes an effect template.
#[derive(Debug, Clone, Copy, PartialEq, Eq, Structural)]
pub struct RemoveEffectTemplateCommand(EffectTemplateId);

/// Adds an effect.
#[derive(Debug)]
pub struct AddEffectCommand {
    effect: Effect,
}

/// Replaces the effect `old` by `new`, which has the same id.
#[derive(Debug)]
pub struct UpdateEffectCommand {
    old: Effect,
    new: Effect,
}

/// Removes an effect.
#[derive(Debug, Clone, Copy, PartialEq, Eq, Structural)]
pub struct RemoveEffectCommand(EffectId);

/// Adds a universe after the highest one (or universe 0), with no output.
#[derive(Debug, Clone, Copy, PartialEq, Eq, Structural)]
pub struct AddUniverseCommand;

/// Removes the highest universe, which has no output.
#[derive(Debug, Clone, Copy, PartialEq, Eq, Structural)]
pub struct RemoveUniverseCommand(UniverseId);

/// Any change to a document.
#[derive(Debug)]
pub enum DocCommand {
    AddFixture(AddFixtureCommand),
    UpdateFixture(UpdateFixtureCommand),
    RemoveFixture(RemoveFixtureCommand),
    AddEffectSpec(AddEffectSpecCommand),
    UpdateEffectSpec(UpdateEffectSpecCommand),
    RemoveEffectSpec(RemoveEffectSpecCommand),
    AddEffectTemplate(AddEffectTemplateCommand),
    UpdateEffectTemplate(UpdateEffectTemplateCommand),
    RemoveEffectTemplate(RemoveEffectTemplateCommand),
    AddEffect(AddEffectCommand),
    UpdateEffect(UpdateEffectCommand),
    RemoveEffect(RemoveEffectCommand),
    AddUniverse(AddUniverseCommand),
    RemoveUniverse(RemoveUniverseCommand),
}

impl View for DocCommand {
    type V = CommandView;

    closed spec fn view(&self) -> CommandView {
        match self {
            DocCommand::AddFixture(c) => CommandView::AddFixture(c.fixture, c.occupied_addresses@),
            DocCommand::UpdateFixture(c) => CommandView::UpdateFixture(
                c.id,
                c.change,
                c.old_occupied_addresses@,
                c.new_occupied_addresses@,
            ),
            DocCommand::RemoveFixture(c) => CommandView::RemoveFixture(c.id),
            DocCommand::AddEffectSpec(c) => CommandView::AddEffectSpec(c.spec),
            DocCommand::UpdateEffectSpec(c) => CommandView::UpdateEffectSpec(c.old, c.new),
            DocCommand::RemoveEffectSpec(c) => CommandView::RemoveEffectSpec(c.0),
            DocCommand::AddEffectTemplate(c) => CommandView::AddEffectTemplate(c.tmpl),
            DocCommand::UpdateEffectTemplate(c) => CommandView::UpdateEffectTemplate(c.old, c.new),
            DocCommand::RemoveEffectTemplate(c) => CommandView::RemoveEffectTemplate(c.0),
            DocCommand::AddEffect(c) => CommandView::AddEffect(c.effect),
            DocCommand::UpdateEffect(c) => CommandView::UpdateEffect(c.old, c.new),
            DocCommand::RemoveEffect(c) => CommandView::RemoveEffect(c.0),
            DocCommand::AddUniverse(_) => CommandView::AddUniverse,
            DocCommand::RemoveUniverse(c) => CommandView::RemoveUniverse(c.0),
        }
    }
}

impl AddFixtureCommand {
    pub fn new(fixture: Fixture, occupied_addresses: Vec<Slot>) -> (r: DocCommand)
        ensures
            r@ == CommandView::AddFixture(fixture, occupied_addresses@),
    {
        DocCommand::AddFixture(AddFixtureCommand { fixture, occupied_addresses })
    }

    /// The fixture to add.
    pub fn fixture(&self) -> (r: &Fixture)
        ensures
            DocCommand::AddFixture(*self)@ matches CommandView::AddFixture(f, _) && *r == f,
    {
        &self.fixture
    }

    /// The slots the fixture takes, by channel.
    pub fn occupied_addresses(&self) -> (r: &Vec<Slot>)
        ensures
            DocCommand::AddFixture(*self)@ matches CommandView::AddFixture(_, s) && r@ == s,
    {
        &self.occupied_addresses
    }
}

impl UpdateFixtureCommand {
    pub fn new(
        id: FixtureId,
        change: FixtureChange,
        old_occupied_addresses: Vec<Slot>,
        new_occupied_addresses: Vec<Slot>,
    ) -> (r: DocCommand)
        ensures
            r@ == CommandView::UpdateFixture(
                id,
                change,
                old_occupied_addresses@,
                new_occupied_addresses@,
            ),
    {
        DocCommand::UpdateFixture(
            UpdateFixtureCommand { id, change, old_occupied_addresses, new_occupied_addresses },
        )
    }
}

impl RemoveFixtureCommand {
    pub fn new(id: FixtureId) -> (r: DocCommand)
        ensures
            r@ == CommandView::RemoveFixture(id),
    {
        DocCommand::RemoveFixture(RemoveFixtureCommand { id })
    }
}

impl AddEffectSpecCommand {
    pub fn new(spec: EffectSpec) -> (r: DocCommand)
        ensures
            r@ == CommandView::AddEffectSpec(spec),
    {
        DocCommand::AddEffectSpec(AddEffectSpecCommand { spec })
    }
}

impl UpdateEffectSpecCommand {
    pub fn new(old: EffectSpec, new: EffectSpec) -> (r: DocCommand)
        ensures
            r@ == CommandView::UpdateEffectSpec(old, new),
    {
        DocCommand::UpdateEffectSpec(UpdateEffectSpecCommand { old, new })
    }
}

impl RemoveEffectSpecCommand {
    pub fn new(id: EffectSpecId) -> (r: DocCommand)
        ensures
            r@ == CommandView::RemoveEffectSpec(id),
    {
        DocCommand::RemoveEffectSpec(RemoveEffectSpecCommand(id))
    }
}

impl AddEffectTemplateCommand {
    pub fn new(tmpl: EffectTemplate) -> (r: DocCommand)
        ensures
            r@ == CommandView::AddEffectTemplate(tmpl),
    {
        DocCommand::AddEffectTemplate(AddEffectTemplateCommand { tmpl })
    }
}

impl UpdateEffectTemplateCommand {
    pub fn new(old: EffectTemplate, new: EffectTemplate) -> (r: DocCommand)
        ensures
            r@ == CommandView::UpdateEffectTemplate(old, new),
    {
        DocCommand::UpdateEffectTemplate(UpdateEffectTemplateCommand { old, new })
    }
}

impl RemoveEffectTemplateCommand {
    pub fn new(id: EffectTemplateId) -> (r: DocCommand)
        ensures
            r@ == CommandView::RemoveEffectTemplate(id),
    {
        DocCommand::RemoveEffectTemplate(RemoveEffectTemplateCommand(id))
    }
}

impl AddEffectCommand {
    pub fn new(effect: Effect) -> (r: DocCommand)
        ensures
            r@ == CommandView::AddEffect(effect),
    {
        DocCommand::AddEffect(AddEffectCommand { effect })
    }
}

impl UpdateEffectCommand {
    pub fn new(old: Effect, new: Effect) -> (r: DocCommand)
        ensures
            r@ == CommandView::UpdateEffect(old, new),
    {
        DocCommand::UpdateEffect(UpdateEffectCommand { old, new })
    }
}

impl RemoveEffectCommand {
    pub fn new(id: EffectId) -> (r: DocCommand)
        ensures
            r@ == CommandView::RemoveEffect(id),
    {
        DocCommand::RemoveEffect(RemoveEffectCommand(id))
    }
}

impl AddUniverseCommand {
    pub fn new() -> (r: DocCommand)
        ensures
            r@ == CommandView::AddUniverse,
    {
        DocCommand::AddUniverse(AddUniverseCommand)
    }
}

impl RemoveUniverseCommand {
    pub fn new(id: UniverseId) -> (r: DocCommand)
        ensures
            r@ == CommandView::RemoveUniverse(id),
    {
        DocCommand::RemoveUniverse(RemoveUniverseCommand(id))
    }
}

/// Records channel `i` of `id` at each slot of `slots`.
fn index_insert_all(state: &mut DocState, id: FixtureId, slots: &Vec<Slot>)
    ensures
        final(state)@ == (DocView { index: insert_all(old(state)@.index, id, slots@), ..old(state)@ }),
{
    let ghost v0 = state@;
    let n = slots.len();
    let mut i: usize = 0;
    while i < n
        invariant
            n == slots@.len(),
            i <= n,
            state@ == (DocView { index: insert_all(v0.index, id, slots@.take(i as int)), ..v0 }),
        decreases n - i,
    {
        let slot = slots[i];
        state.index_insert(slot, (id, i));
        assert(slots@.take(i + 1).drop_last() =~= slots@.take(i as int));
        i = i + 1;
    }
    assert(slots@.take(n as int) =~= slots@);
}

/// Forgets each slot of `slots`.
fn index_remove_all(state: &mut DocState, slots: &Vec<Slot>)
    ensures
        final(state)@ == (DocView { index: remove_all(old(state)@.index, slots@), ..old(state)@ }),
{
    let ghost v0 = state@;
    let n = slots.len();
    let mut i: usize = 0;
    while i < n
        invariant
            n == slots@.len(),
            i <= n,
            state@ == (DocView { index: remove_all(v0.index, slots@.take(i as int)), ..v0 }),
        decreases n - i,
    {
        let slot = slots[i];
        state.index_remove(slot);
        assert(slots@.take(i + 1).drop_last() =~= slots@.take(i as int));
        i = i + 1;
    }
    assert(slots@.take(n as int) =~= slots@);
}

/// The universe that [`AddUniverseCommand`] adds to `state`.
fn compute_next_universe(state: &DocState) -> (r: UniverseId)
    requires
        forall|u: UniverseId| #[trigger] state@.universes.contains_key(u) ==> u.num() < 255,
    ensures
        r == next_universe(state@.universes.dom()),
{
    let us = state.universes();
    let n = us.len();
    let mut best: Option<UniverseId> = None;
    let mut i: usize = 0;
    while i < n
        invariant
            n == us@.len(),
            i <= n,
            best is None <==> i == 0,
            best matches Some(b) ==> us@.contains(b) && forall|j: int|
                0 <= j < i ==> (#[trigger] us@[j]).num() <= b.num(),
        decreases n - i,
    {
        let u = us[i];
        match best {
            Some(b) => {
                if u.value() > b.value() {
                    best = Some(u);
                }
            },
            None => {
                best = Some(u);
            },
        }
        i = i + 1;
    }
    let ghost dom = state@.universes.dom();
    match best {
        Some(b) => {
            proof {
                assert forall|w: UniverseId| #[trigger] dom.contains(w) implies w.num() <= b.num() by {
                    let j = choose|j: int| 0 <= j < us@.len() && us@[j] == w;
                    assert(us@[j].num() <= b.num());
                }
                lemma_next_universe_of_top(dom, b);
            }
            let r = UniverseId::new(b.value() + 1);
            r
        },
        None => {
            proof {
                lemma_next_universe_of_empty(dom);
            }
            UniverseId::new(0)
        },
    }
}

impl DocCommand {
    /// Applies the command to `state`. Returns the command that undoes it and
    /// what changed.
    pub fn apply(self, state: &mut DocState) -> (r: (DocCommand, DocEffect))
        requires
            old(state)@.consistent(),
            self@.enabled(old(state)@),
        ensures
            final(state)@ == self@.applied(old(state)@),
            r.0@ == self@.inverse(old(state)@),
            r.1 == self@.effect(old(state)@),
    {
        let ghost v0 = state@;
        let ghost c = self@;
        match self {
            DocCommand::AddFixture(cmd) => {
                let AddFixtureCommand { fixture, occupied_addresses } = cmd;
                let id = fixture.id();
                index_insert_all(state, id, &occupied_addresses);
                state.insert_fixture(fixture);
                (RemoveFixtureCommand::new(id), DocEffect::FixtureAdded(id))
            },
            DocCommand::UpdateFixture(cmd) => {
                let UpdateFixtureCommand { id, change, old_occupied_addresses, new_occupied_addresses } =
                    cmd;
                let rev = match state.fixture(&id) {
                    Some(f) => change.inverse_from(f),
                    None => vstd::pervasive::unreached(),
                };
                index_remove_all(state, &old_occupied_addresses);
                index_insert_all(state, id, &new_occupied_addresses);
                let mut f = state.take_fixture(&id);
                proof {
                    lemma_change_inverse_roundtrip(f, change);
                }
                f.apply_change(change);
                state.insert_fixture(f);
                assert(state@.fixtures =~= c.applied(v0).fixtures);
                (
                    UpdateFixtureCommand::new(id, rev, new_occupied_addresses, old_occupied_addresses),
                    DocEffect::FixtureUpdated(id),
                )
            },
            DocCommand::RemoveFixture(cmd) => {
                let id = cmd.id;
                let occupied = match state.fixture(&id) {
                    Some(f) => match state.fixture_defs().get(f.fixture_def()) {
                        Ok(def) => match def.mode(f.fixture_mode()) {
                            Some(mode) => mode.occupied_addresses(f.universe_id(), f.address()),
                            None => vstd::pervasive::unreached(),
                        },
                        Err(_) => vstd::pervasive::unreached(),
                    },
                    None => vstd::pervasive::unreached(),
                };
                let removed = state.take_fixture(&id);
                index_remove_all(state, &occupied);
                (AddFixtureCommand::new(removed, occupied), DocEffect::FixtureRemoved(id))
            },
            DocCommand::AddEffectSpec(cmd) => {
                let id = cmd.spec.id();
                state.insert_effect_spec(cmd.spec);
                (RemoveEffectSpecCommand::new(id), DocEffect::EffectSpecAdded(id))
            },
            DocCommand::UpdateEffectSpec(cmd) => {
                let UpdateEffectSpecCommand { old, new } = cmd;
                let id = new.id();
                let kept = new.duplicate();
                state.insert_effect_spec(new);
                (UpdateEffectSpecCommand::new(kept, old), DocEffect::EffectSpecUpdated(id))
            },
            DocCommand::RemoveEffectSpec(cmd) => {
                let removed = state.take_effect_spec(&cmd.0);
                let id = removed.id();
                (AddEffectSpecCommand::new(removed), DocEffect::EffectSpecRemoved(id))
            },
            DocCommand::AddEffectTemplate(cmd) => {
                let id = cmd.tmpl.id();
                state.insert_effect_template(cmd.tmpl);
                (RemoveEffectTemplateCommand::new(id), DocEffect::EffectTemplateAdded(id))
            },
            DocCommand::UpdateEffectTemplate(cmd) => {
                let UpdateEffectTemplateCommand { old, new } = cmd;
                let id = new.id();
                let kept = new.duplicate();
                state.insert_effect_template(new);
                (UpdateEffectTemplateCommand::new(kept, old), DocEffect::EffectTemplateUpdated(id))
            },
            DocCommand::RemoveEffectTemplate(cmd) => {
                let removed = state.take_effect_template(&cmd.0);
                let id = removed.id();
                (AddEffectTemplateCommand::new(removed), DocEffect::EffectTemplateRemoved(id))
            },
            DocCommand::AddEffect(cmd) => {
                let id = cmd.effect.id();
                state.insert_effect(cmd.effect);
                (RemoveEffectCommand::new(id), DocEffect::EffectAdded(id))
            },
            DocCommand::UpdateEffect(cmd) => {
                let UpdateEffectCommand { old, new } = cmd;
                let id = new.id();
                let kept = new.duplicate();
                state.insert_effect(new);
                (UpdateEffectCommand::new(kept, old), DocEffect::EffectUpdated(id))
            },
            DocCommand::RemoveEffect(cmd) => {
                let removed = state.take_effect(&cmd.0);
                let id = removed.id();
                (AddEffectCommand::new(removed), DocEffect::EffectRemoved(id))
            },
            DocCommand::AddUniverse(_) => {
                let new = compute_next_universe(state);
                state.insert_universe(new, UniverseSetting::new());
                (RemoveUniverseCommand::new(new), DocEffect::UniverseAdded(new))
            },
            DocCommand::RemoveUniverse(cmd) => {
                let id = cmd.0;
                state.remove_universe(&id);
                (AddUniverseCommand::new(), DocEffect::UniverseRemoved(id))
            },
        }
    }
}

/// Adding a function to a document; functions are not stored yet.
#[derive(Debug)]
pub struct AddFunctionCommand {}

/// Changing a stored function; functions are not stored yet.
#[derive(Debug)]
pub struct UpdateFunctionCommand {}

/// Removing a stored function; functions are not stored yet.
#[derive(Debug)]
pub struct RemoveFunctionCommand {}

/// Adding an output plugin to a universe; not applied to documents yet.
#[derive(Debug)]
pub struct AddOutputCommand {}

/// Removing an output plugin from a universe; not applied to documents yet.
#[derive(Debug)]
pub struct RemoveOutputCommand {}

/// Whether `c`, taken from the redo stack, can be redone on `v`: a fixture
/// to add or change must still be accepted as a new request would be, the
/// effect, template or spec to replace must still exist, and every other
/// command must still apply.
pub open spec fn redoable(c: CommandView, v: DocView) -> bool {
    match c {
        CommandView::AddFixture(f, _) => add_fixture_accepted(v, f),
        CommandView::UpdateFixture(id, change, _, _) => update_fixture_accepted(v, id, change),
        CommandView::UpdateEffectSpec(_, new) => v.effect_specs.contains_key(new.id_spec()),
        CommandView::UpdateEffectTemplate(_, new) => v.effect_templates.contains_key(new.id_spec()),
        CommandView::UpdateEffect(_, new) => v.effects.contains_key(new.id_spec()),
        _ => c.enabled(v),
    }
}

/// The command that redoing `c` applies to `v`: a fixture's slots and the
/// replaced effect, template or spec are taken from `v` as it is now.
pub open spec fn refreshed(c: CommandView, v: DocView) -> CommandView {
    match c {
        CommandView::AddFixture(f, _) => CommandView::AddFixture(f, occupancy(v.catalog, f)->Some_0),
        CommandView::UpdateFixture(id, change, _, _) => CommandView::UpdateFixture(
            id,
            change,
            v.occ(id),
            occupancy(v.catalog, v.fixtures[id].changed(change))->Some_0,
        ),
        CommandView::UpdateEffectSpec(_, new) => CommandView::UpdateEffectSpec(v.effect_specs[new.id_spec()], new),
        CommandView::UpdateEffectTemplate(_, new) => CommandView::UpdateEffectTemplate(
            v.effect_templates[new.id_spec()],
            new,
        ),
        CommandView::UpdateEffect(_, new) => CommandView::UpdateEffect(v.effects[new.id_spec()], new),
        _ => c,
    }
}

/// A command that applies to `v` can be redone there, and redoing it
/// applies that very command.
pub proof fn lemma_enabled_redoable(c: CommandView, v: DocView)
    requires
        v.consistent(),
        c.enabled(v),
    ensures
        redoable(c, v),
        refreshed(c, v) == c,
{
    match c {
        CommandView::AddFixture(f, slots) => {
            lemma_conflicts_empty(v.index, f.id_spec(), slots);
        },
        CommandView::UpdateFixture(id, change, o, n) => {
            lemma_conflicts_empty(v.index, id, n);
        },
        _ => {},
    }
}

impl DocCommand {
    /// Whether this command, taken from the redo stack, can be redone on
    /// `state`.
    pub fn redoable(&self, state: &DocState) -> (r: bool)
        requires
            state@.consistent(),
            !(self@ is RemoveUniverse),
        ensures
            r == redoable(self@, state@),
    {
        match self {
            DocCommand::AddFixture(cmd) => add_fixture_slots(state, &cmd.fixture).is_ok(),
            DocCommand::UpdateFixture(cmd) => update_fixture_slots(state, cmd.id, &cmd.change).is_ok(),
            DocCommand::RemoveFixture(cmd) => state.fixture(&cmd.id).is_some(),
            DocCommand::AddEffectSpec(cmd) => state.effect_spec(&cmd.spec.id()).is_none(),
            DocCommand::UpdateEffectSpec(cmd) => state.effect_spec(&cmd.new.id()).is_some(),
            DocCommand::RemoveEffectSpec(cmd) => state.effect_spec(&cmd.0).is_some(),
            DocCommand::AddEffectTemplate(cmd) => state.effect_template(&cmd.tmpl.id()).is_none(),
            DocCommand::UpdateEffectTemplate(cmd) => state.effect_template(&cmd.new.id()).is_some(),
            DocCommand::RemoveEffectTemplate(cmd) => state.effect_template(&cmd.0).is_some(),
            DocCommand::AddEffect(cmd) => state.effect(&cmd.effect.id()).is_none(),
            DocCommand::UpdateEffect(cmd) => state.effect(&cmd.new.id()).is_some(),
            DocCommand::RemoveEffect(cmd) => state.effect(&cmd.0).is_some(),
            DocCommand::AddUniverse(_) => {
                assert(self@ == CommandView::AddUniverse);
                let us = state.universes();
                let n = us.len();
                let mut i: usize = 0;
                while i < n
                    invariant
                        n == us@.len(),
                        i <= n,
                        forall|j: int| 0 <= j < us@.len() ==> state@.universes.contains_key(#[trigger] us@[j]),
                        self@ == CommandView::AddUniverse,
                        forall|j: int| 0 <= j < i ==> (#[trigger] us@[j]).num() < 255,
                    decreases n - i,
                {
                    if us[i].value() >= 255 {
                        assert(state@.universes.contains_key(us@[i as int]));
                        assert(self@ == CommandView::AddUniverse);
                        assert(!CommandView::AddUniverse.enabled(state@));
                        return false;
                    }
                    i = i + 1;
                }
                proof {
                    assert forall|u: UniverseId| #[trigger] state@.universes.contains_key(u) implies u.num() < 255 by {
                        let j = choose|j: int| 0 <= j < us@.len() && us@[j] == u;
                        assert(us@[j].num() < 255);
                    }
                }
                true
            },
            DocCommand::RemoveUniverse(_) => vstd::pervasive::unreached(),
        }
    }

    /// The command that redoing this one applies to `state`.
    pub fn refresh(self, state: &DocState) -> (r: DocCommand)
        requires
            state@.consistent(),
            !(self@ is RemoveUniverse),
            redoable(self@, state@),
        ensures
            r@ == refreshed(self@, state@),
            r@.enabled(state@),
    {
        let ghost c = self@;
        match self {
            DocCommand::AddFixture(cmd) => {
                let AddFixtureCommand { fixture, occupied_addresses } = cmd;
                match add_fixture_slots(state, &fixture) {
                    Ok(occupied) => AddFixtureCommand::new(fixture, occupied),
                    Err(_) => vstd::pervasive::unreached(),
                }
            },
            DocCommand::UpdateFixture(cmd) => {
                let UpdateFixtureCommand { id, change, old_occupied_addresses, new_occupied_addresses } = cmd;
                match update_fixture_slots(state, id, &change) {
                    Ok((o, n)) => UpdateFixtureCommand::new(id, change, o, n),
                    Err(_) => vstd::pervasive::unreached(),
                }
            },
            DocCommand::UpdateEffectSpec(cmd) => {
                let UpdateEffectSpecCommand { old, new } = cmd;
                let cur = match state.effect_spec(&new.id()) {
                    Some(x) => x.duplicate(),
                    None => vstd::pervasive::unreached(),
                };
                UpdateEffectSpecCommand::new(cur, new)
            },
            DocCommand::UpdateEffectTemplate(cmd) => {
                let UpdateEffectTemplateCommand { old, new } = cmd;
                let cur = match state.effect_template(&new.id()) {
                    Some(x) => x.duplicate(),
                    None => vstd::pervasive::unreached(),
                };
                UpdateEffectTemplateCommand::new(cur, new)
            },
            DocCommand::UpdateEffect(cmd) => {
                let UpdateEffectCommand { old, new } = cmd;
                let cur = match state.effect(&new.id()) {
                    Some(x) => x.duplicate(),
                    None => vstd::pervasive::unreached(),
                };
                UpdateEffectCommand::new(cur, new)
            },
            other => other,
        }
    }
}

} // verus!
