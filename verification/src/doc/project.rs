//! What a document built from stored project data satisfies.
use super::load::{effects_map, fixtures_map, index_of, slots_of, specs_map, templates_map, universes_map};
use super::state::{insert_all, lemma_insert_all, lemma_occupied_distinct, occupancy, Catalog, DocView, Slot};
use crate::effects::{Effect, EffectSpec, EffectTemplate};
use crate::fixture::Fixture;
use crate::fixture_def::lookup_def;
use crate::ids::{EffectId, EffectSpecId, EffectTemplateId, FixtureId};
use crate::universe::UniverseId;
use vstd::prelude::*;

verus! {

/// No two fixtures of `fixtures` share a slot.
pub open spec fn footprints_disjoint(catalog: Catalog, fixtures: Seq<Fixture>) -> bool {
    forall|i: int, j: int, k: Slot|
        0 <= i < j < fixtures.len() && #[trigger] slots_of(catalog, fixtures[i]).contains(k) ==> !#[trigger] slots_of(
            catalog,
            fixtures[j],
        ).contains(k)
}

/// No two fixtures of `fixtures` have the same id.
pub open spec fn ids_distinct(fixtures: Seq<Fixture>) -> bool {
    forall|i: int, j: int| 0 <= i < j < fixtures.len() ==> #[trigger] fixtures[i].id_spec() != #[trigger] fixtures[j].id_spec()
}

/// The slots of one fixture never repeat.
proof fn lemma_slots_distinct(catalog: Catalog, f: Fixture)
    ensures
        slots_of(catalog, f).no_duplicates(),
{
    if let Some(def) = lookup_def(catalog, f.def_spec()@) {
        if def.mode_map().contains_key(f.mode_spec()@) {
            lemma_occupied_distinct(
                f.universe_spec(),
                f.address_spec(),
                def.mode_map()[f.mode_spec()@].channels().len(),
            );
        }
    }
}

/// The index of fixtures that share no slot records each slot of each
/// fixture with its offset, and nothing else.
proof fn lemma_index_of(catalog: Catalog, fixtures: Seq<Fixture>)
    requires
        footprints_disjoint(catalog, fixtures),
    ensures
        forall|k: Slot|
            #[trigger] index_of(catalog, fixtures).contains_key(k) ==> exists|i: int|
                0 <= i < fixtures.len() && #[trigger] slots_of(catalog, fixtures[i]).contains(k),
        forall|i: int, a: int|
            0 <= i < fixtures.len() && 0 <= a < slots_of(catalog, fixtures[i]).len() ==> index_of(
                catalog,
                fixtures,
            ).contains_key(#[trigger] slots_of(catalog, fixtures[i])[a]) && index_of(catalog, fixtures)[slots_of(
                catalog,
                fixtures[i],
            )[a]] == (fixtures[i].id_spec(), a as usize),
    decreases fixtures.len(),
{
    if fixtures.len() > 0 {
        let p = fixtures.drop_last();
        let last = fixtures.last();
        let n = fixtures.len() - 1;
        assert forall|i: int, j: int, k: Slot|
            0 <= i < j < p.len() && #[trigger] slots_of(catalog, p[i]).contains(k) implies !#[trigger] slots_of(
            catalog,
            p[j],
        ).contains(k) by {
            assert(p[i] == fixtures[i] && p[j] == fixtures[j]);
        }
        lemma_index_of(catalog, p);
        let slots = slots_of(catalog, last);
        lemma_slots_distinct(catalog, last);
        lemma_insert_all(index_of(catalog, p), last.id_spec(), slots);
        assert(index_of(catalog, fixtures) == insert_all(index_of(catalog, p), last.id_spec(), slots));
        assert forall|k: Slot| #[trigger] index_of(catalog, fixtures).contains_key(k) implies exists|i: int|
            0 <= i < fixtures.len() && #[trigger] slots_of(catalog, fixtures[i]).contains(k) by {
            if slots.contains(k) {
                assert(slots_of(catalog, fixtures[n]).contains(k));
            } else {
                assert(index_of(catalog, p).contains_key(k));
                let i = choose|i: int| 0 <= i < p.len() && #[trigger] slots_of(catalog, p[i]).contains(k);
                assert(p[i] == fixtures[i]);
                assert(slots_of(catalog, fixtures[i]).contains(k));
            }
        }
        assert forall|i: int, a: int|
            0 <= i < fixtures.len() && 0 <= a < slots_of(catalog, fixtures[i]).len() implies index_of(
            catalog,
            fixtures,
        ).contains_key(#[trigger] slots_of(catalog, fixtures[i])[a]) && index_of(catalog, fixtures)[slots_of(
            catalog,
            fixtures[i],
        )[a]] == (fixtures[i].id_spec(), a as usize) by {
            let k = slots_of(catalog, fixtures[i])[a];
            if i < n {
                assert(p[i] == fixtures[i]);
                assert(slots_of(catalog, fixtures[i]).contains(k));
                assert(!slots_of(catalog, fixtures[n]).contains(k));
                assert(index_of(catalog, p).contains_key(slots_of(catalog, p[i])[a]));
            } else {
                assert(slots[a] == k);
                assert(slots.contains(k));
            }
        }
    }
}

/// The fixtures of `s`, whose ids are distinct, are each found under their
/// own id, and only they are there.
proof fn lemma_fixtures_map(s: Seq<Fixture>)
    requires
        ids_distinct(s),
    ensures
        forall|id: FixtureId|
            #[trigger] fixtures_map(s).contains_key(id) ==> exists|i: int| 0 <= i < s.len() && #[trigger] s[i].id_spec() == id,
        forall|i: int|
            0 <= i < s.len() ==> fixtures_map(s).contains_key(#[trigger] s[i].id_spec()) && fixtures_map(s)[s[i].id_spec()]
                == s[i],
    decreases s.len(),
{
    if s.len() > 0 {
        let p = s.drop_last();
        let n = s.len() - 1;
        assert forall|i: int, j: int| 0 <= i < j < p.len() implies #[trigger] p[i].id_spec() != #[trigger] p[j].id_spec() by {
            assert(p[i] == s[i] && p[j] == s[j]);
        }
        lemma_fixtures_map(p);
        assert forall|id: FixtureId| #[trigger] fixtures_map(s).contains_key(id) implies exists|i: int|
            0 <= i < s.len() && #[trigger] s[i].id_spec() == id by {
            if id != s[n].id_spec() {
                assert(fixtures_map(p).contains_key(id));
                let i = choose|i: int| 0 <= i < p.len() && #[trigger] p[i].id_spec() == id;
                assert(p[i] == s[i]);
            }
        }
        assert forall|i: int| 0 <= i < s.len() implies fixtures_map(s).contains_key(#[trigger] s[i].id_spec())
            && fixtures_map(s)[s[i].id_spec()] == s[i] by {
            if i < n {
                assert(p[i] == s[i]);
                assert(s[i].id_spec() != s[n].id_spec());
            }
        }
    }
}

/// Each effect of `s` is kept under its own id.
proof fn lemma_effects_map(s: Seq<Effect>)
    ensures
        forall|id: EffectId| #[trigger] effects_map(s).contains_key(id) ==> effects_map(s)[id].id_spec() == id,
    decreases s.len(),
{
    if s.len() > 0 {
        let p = s.drop_last();
        lemma_effects_map(p);
        assert forall|id: EffectId| #[trigger] effects_map(s).contains_key(id) implies effects_map(s)[id].id_spec() == id by {
            if id != s.last().id_spec() {
                assert(effects_map(p).contains_key(id));
            }
        }
    }
}

/// Each spec of `s` is kept under its own id.
proof fn lemma_specs_map(s: Seq<EffectSpec>)
    ensures
        forall|id: EffectSpecId| #[trigger] specs_map(s).contains_key(id) ==> specs_map(s)[id].id_spec() == id,
    decreases s.len(),
{
    if s.len() > 0 {
        let p = s.drop_last();
        lemma_specs_map(p);
        assert forall|id: EffectSpecId| #[trigger] specs_map(s).contains_key(id) implies specs_map(s)[id].id_spec() == id by {
            if id != s.last().id_spec() {
                assert(specs_map(p).contains_key(id));
            }
        }
    }
}

/// Each template of `s` is kept under its own id.
proof fn lemma_templates_map(s: Seq<EffectTemplate>)
    ensures
        forall|id: EffectTemplateId| #[trigger] templates_map(s).contains_key(id) ==> templates_map(s)[id].id_spec() == id,
    decreases s.len(),
{
    if s.len() > 0 {
        let p = s.drop_last();
        lemma_templates_map(p);
        assert forall|id: EffectTemplateId| #[trigger] templates_map(s).contains_key(id) implies templates_map(s)[id].id_spec() == id by {
            if id != s.last().id_spec() {
                assert(templates_map(p).contains_key(id));
            }
        }
    }
}

/// The document that [`DocState::from_existing_data`](super::DocState::from_existing_data)
/// builds from a project whose fixtures all resolve, have distinct ids and
/// share no slot satisfies the document invariant, whatever its effects,
/// templates, specs and universes.
pub proof fn lemma_project_data_consistent(
    catalog: Catalog,
    fixtures: Seq<Fixture>,
    effects: Seq<Effect>,
    specs: Seq<EffectSpec>,
    templates: Seq<EffectTemplate>,
    universes: Seq<UniverseId>,
)
    requires
        forall|i: int| 0 <= i < fixtures.len() ==> occupancy(catalog, #[trigger] fixtures[i]) is Some,
        ids_distinct(fixtures),
        footprints_disjoint(catalog, fixtures),
    ensures
        (DocView {
            fixtures: fixtures_map(fixtures),
            catalog: catalog,
            index: index_of(catalog, fixtures),
            effect_specs: specs_map(specs),
            effect_templates: templates_map(templates),
            effects: effects_map(effects),
            universes: universes_map(universes),
        }).consistent(),
{
    let v = DocView {
        fixtures: fixtures_map(fixtures),
        catalog: catalog,
        index: index_of(catalog, fixtures),
        effect_specs: specs_map(specs),
        effect_templates: templates_map(templates),
        effects: effects_map(effects),
        universes: universes_map(universes),
    };
    lemma_fixtures_map(fixtures);
    lemma_index_of(catalog, fixtures);
    lemma_effects_map(effects);
    lemma_specs_map(specs);
    lemma_templates_map(templates);
    assert forall|id: FixtureId| #[trigger] v.fixtures.contains_key(id) implies v.fixtures[id].id_spec() == id
        && occupancy(v.catalog, v.fixtures[id]) is Some by {
        let i = choose|i: int| 0 <= i < fixtures.len() && #[trigger] fixtures[i].id_spec() == id;
        assert(v.fixtures[fixtures[i].id_spec()] == fixtures[i]);
    }
    assert forall|id: FixtureId, a: int|
        v.fixtures.contains_key(id) && 0 <= a < v.occ(id).len() implies v.index.contains_key(#[trigger] v.occ(id)[a])
        && v.index[v.occ(id)[a]] == (id, a as usize) by {
        let i = choose|i: int| 0 <= i < fixtures.len() && #[trigger] fixtures[i].id_spec() == id;
        assert(v.fixtures[id] == fixtures[i]);
        assert(v.occ(id) == slots_of(catalog, fixtures[i]));
        assert(index_of(catalog, fixtures).contains_key(slots_of(catalog, fixtures[i])[a]));
    }
    assert forall|k: Slot| #[trigger] v.index.contains_key(k) implies v.fixtures.contains_key(v.index[k].0)
        && v.index[k].1 < v.occ(v.index[k].0).len() && v.occ(v.index[k].0)[v.index[k].1 as int] == k by {
        let i = choose|i: int| 0 <= i < fixtures.len() && #[trigger] slots_of(catalog, fixtures[i]).contains(k);
        let s = slots_of(catalog, fixtures[i]);
        let a = choose|a: int| 0 <= a < s.len() && s[a] == k;
        assert(index_of(catalog, fixtures).contains_key(s[a]));
        assert(v.index[k] == (fixtures[i].id_spec(), a as usize));
        assert(v.fixtures.contains_key(fixtures[i].id_spec()));
        assert(v.fixtures[fixtures[i].id_spec()] == fixtures[i]);
        assert(v.occ(fixtures[i].id_spec()) == s);
    }
}

} // verus!
