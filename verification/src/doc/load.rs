//! Building a document from stored data: the fixtures, effects, templates,
//! specs and universes of a project, and the address index of its fixtures.
use super::errors::{AddressIndexConstructError, FixtureDefNotFoundError, ModeNotFoundError};
use super::state::{insert_all, occupancy, AddressIndex, Catalog, DocState, DocView, IndexMap, UniverseSetting};
use crate::effects::{Effect, EffectSpec, EffectTemplate};
use crate::fixture::Fixture;
use crate::fixture_def::{lookup_def, FixtureDefRegistry};
use crate::ids::{EffectId, EffectSpecId, EffectTemplateId, FixtureId, OutputPluginId};
use crate::universe::UniverseId;
use vstd::prelude::*;

verus! {

/// The definition of `f` is in the catalog and loaded.
pub open spec fn def_found(catalog: Catalog, f: Fixture) -> bool {
    lookup_def(catalog, f.def_spec()@) is Some
}

/// The slots of `f`, none where its definition or mode is missing.
pub open spec fn slots_of(catalog: Catalog, f: Fixture) -> Seq<(UniverseId, crate::universe::DmxAddress)> {
    match occupancy(catalog, f) {
        Some(s) => s,
        None => Seq::empty(),
    }
}

/// The index of `fixtures`: each fixture's slots recorded in turn, a later
/// fixture over an earlier one where they share a slot.
pub open spec fn index_of(catalog: Catalog, fixtures: Seq<Fixture>) -> IndexMap
    decreases fixtures.len(),
{
    if fixtures.len() == 0 {
        IndexMap::empty()
    } else {
        insert_all(index_of(catalog, fixtures.drop_last()), fixtures.last().id_spec(), slots_of(catalog, fixtures.last()))
    }
}

/// The fixtures of `s` by id; a later one replaces an earlier one.
pub open spec fn fixtures_map(s: Seq<Fixture>) -> Map<FixtureId, Fixture>
    decreases s.len(),
{
    if s.len() == 0 {
        Map::empty()
    } else {
        fixtures_map(s.drop_last()).insert(s.last().id_spec(), s.last())
    }
}

/// The effects of `s` by id; a later one replaces an earlier one.
pub open spec fn effects_map(s: Seq<Effect>) -> Map<EffectId, Effect>
    decreases s.len(),
{
    if s.len() == 0 {
        Map::empty()
    } else {
        effects_map(s.drop_last()).insert(s.last().id_spec(), s.last())
    }
}

/// The specs of `s` by id; a later one replaces an earlier one.
pub open spec fn specs_map(s: Seq<EffectSpec>) -> Map<EffectSpecId, EffectSpec>
    decreases s.len(),
{
    if s.len() == 0 {
        Map::empty()
    } else {
        specs_map(s.drop_last()).insert(s.last().id_spec(), s.last())
    }
}

/// The templates of `s` by id; a later one replaces an earlier one.
pub open spec fn templates_map(s: Seq<EffectTemplate>) -> Map<EffectTemplateId, EffectTemplate>
    decreases s.len(),
{
    if s.len() == 0 {
        Map::empty()
    } else {
        templates_map(s.drop_last()).insert(s.last().id_spec(), s.last())
    }
}

/// The universes of `s`, each with no output plugin.
pub open spec fn universes_map(s: Seq<UniverseId>) -> Map<UniverseId, Seq<OutputPluginId>>
    decreases s.len(),
{
    if s.len() == 0 {
        Map::empty()
    } else {
        universes_map(s.drop_last()).insert(s.last(), Seq::empty())
    }
}

/// `e` reports the first fixture of `fixtures` whose definition or mode is
/// missing: which fixture, and which definition or mode.
pub open spec fn first_unresolved(catalog: Catalog, fixtures: Seq<Fixture>, e: AddressIndexConstructError) -> bool {
    exists|i: int|
        0 <= i < fixtures.len() && occupancy(catalog, #[trigger] fixtures[i]) is None && (forall|j: int|
            0 <= j < i ==> occupancy(catalog, #[trigger] fixtures[j]) is Some) && match e {
            AddressIndexConstructError::FixtureDefNotFound(e) => {
                &&& !def_found(catalog, fixtures[i])
                &&& e.fixture_id == fixtures[i].id_spec()
                &&& e.fixture_def_id@ == fixtures[i].def_spec()@
            },
            AddressIndexConstructError::ModeNotFound { fixture_id, source } => {
                &&& def_found(catalog, fixtures[i])
                &&& fixture_id == fixtures[i].id_spec()
                &&& source.fixture_def@ == fixtures[i].def_spec()@
                &&& source.mode@ == fixtures[i].mode_spec()@
            },
        }
}

impl AddressIndex {
    /// The index of `fixtures` against `defs`: each fixture's slots, with
    /// its channel offsets. Reports the first fixture whose definition or
    /// mode is missing.
    pub fn from_fixtures(fixtures: &Vec<Fixture>, defs: &FixtureDefRegistry) -> (r: Result<
        AddressIndex,
        AddressIndexConstructError,
    >)
        ensures
            match r {
                Ok(idx) => {
                    &&& forall|i: int|
                        0 <= i < fixtures@.len() ==> occupancy(defs.catalog(), #[trigger] fixtures@[i]) is Some
                    &&& idx@ == index_of(defs.catalog(), fixtures@)
                },
                Err(e) => first_unresolved(defs.catalog(), fixtures@, e),
            },
    {
        let ghost catalog = defs.catalog();
        let mut idx = AddressIndex::new();
        let n = fixtures.len();
        let mut i: usize = 0;
        while i < n
            invariant
                n == fixtures@.len(),
                i <= n,
                catalog == defs.catalog(),
                forall|j: int| 0 <= j < i ==> occupancy(catalog, #[trigger] fixtures@[j]) is Some,
                idx@ == index_of(catalog, fixtures@.take(i as int)),
            decreases n - i,
        {
            let f = &fixtures[i];
            let def = match defs.get(f.fixture_def()) {
                Ok(d) => d,
                Err(e) => {
                    proof {
                        assert(!def_found(catalog, fixtures@[i as int]));
                        assert(occupancy(catalog, fixtures@[i as int]) is None);
                    }
                    return Err(
                        AddressIndexConstructError::FixtureDefNotFound(
                            FixtureDefNotFoundError {
                                fixture_id: f.id(),
                                fixture_def_id: f.fixture_def().duplicate(),
                                source: e,
                            },
                        ),
                    );
                },
            };
            assert(def_found(catalog, fixtures@[i as int]));
            let mode = match def.mode(f.fixture_mode()) {
                Some(m) => m,
                None => {
                    proof {
                        assert(occupancy(catalog, fixtures@[i as int]) is None);
                    }
                    return Err(
                        AddressIndexConstructError::ModeNotFound {
                            fixture_id: f.id(),
                            source: ModeNotFoundError {
                                fixture_def: f.fixture_def().duplicate(),
                                mode: f.fixture_mode().clone(),
                            },
                        },
                    );
                },
            };
            let slots = mode.occupied_addresses(f.universe_id(), f.address());
            assert(slots@ == slots_of(catalog, *f));
            let ghost base = idx@;
            let m = slots.len();
            let mut k: usize = 0;
            while k < m
                invariant
                    m == slots@.len(),
                    k <= m,
                    idx@ == insert_all(base, f.id_spec(), slots@.take(k as int)),
                decreases m - k,
            {
                let _ = idx.insert(slots[k].0, slots[k].1, f.id(), k);
                proof {
                    assert(slots@.take(k + 1).drop_last() =~= slots@.take(k as int));
                    assert(slots@.take(k + 1).last() == slots@[k as int]);
                }
                k = k + 1;
            }
            proof {
                assert(slots@.take(m as int) =~= slots@);
                assert(fixtures@.take(i + 1).drop_last() =~= fixtures@.take(i as int));
                assert(fixtures@.take(i + 1).last() == *f);
            }
            i = i + 1;
        }
        proof {
            assert(fixtures@.take(n as int) =~= fixtures@);
        }
        Ok(idx)
    }
}

impl DocState {
    /// The document of a project: its fixtures, effects, specs, templates
    /// and universes, each kept by id, a later one over an earlier one, and
    /// the index of its fixtures. Reports the first fixture whose definition
    /// or mode is missing.
    pub fn from_existing_data(
        defs: FixtureDefRegistry,
        fixtures: Vec<Fixture>,
        effects: Vec<Effect>,
        specs: Vec<EffectSpec>,
        templates: Vec<EffectTemplate>,
        universes: Vec<UniverseId>,
    ) -> (r: Result<DocState, AddressIndexConstructError>)
        ensures
            match r {
                Ok(s) => (forall|i: int|
                    0 <= i < fixtures@.len() ==> occupancy(defs.catalog(), #[trigger] fixtures@[i]) is Some) && s@
                    == (DocView {
                    fixtures: fixtures_map(fixtures@),
                    catalog: defs.catalog(),
                    index: index_of(defs.catalog(), fixtures@),
                    effect_specs: specs_map(specs@),
                    effect_templates: templates_map(templates@),
                    effects: effects_map(effects@),
                    universes: universes_map(universes@),
                }),
                Err(e) => first_unresolved(defs.catalog(), fixtures@, e),
            },
    {
        let index = match AddressIndex::from_fixtures(&fixtures, &defs) {
            Ok(idx) => idx,
            Err(e) => {
                return Err(e);
            },
        };
        let ghost catalog = defs.catalog();
        let mut s = DocState::new(defs);
        s.replace_index(index);
        let ghost s0 = s@;

        let mut fixtures = fixtures;
        let ghost all_fixtures = fixtures@;
        let total_fixtures = fixtures.len();
        let ghost before_fixtures = s@;
        let mut k: usize = 0;
        while fixtures.len() > 0
            invariant
                k + fixtures@.len() == all_fixtures.len(),
                all_fixtures.len() == total_fixtures,
                fixtures@ == all_fixtures.skip(k as int),
                s@ == (DocView { fixtures: fixtures_map(all_fixtures.take(k as int)), ..before_fixtures }),
            decreases fixtures.len(),
        {
            let item = fixtures.remove(0);
            proof {
                assert(all_fixtures.take(k + 1).drop_last() =~= all_fixtures.take(k as int));
                assert(all_fixtures.take(k + 1).last() == all_fixtures[k as int]);
                assert(fixtures@ =~= all_fixtures.skip(k + 1));
            }
            s.insert_fixture(item);
            k = k + 1;
        }
        proof {
            assert(all_fixtures.take(k as int) =~= all_fixtures);
        }
        let mut effects = effects;
        let ghost all_effects = effects@;
        let total_effects = effects.len();
        let ghost before_effects = s@;
        let mut k: usize = 0;
        while effects.len() > 0
            invariant
                k + effects@.len() == all_effects.len(),
                all_effects.len() == total_effects,
                effects@ == all_effects.skip(k as int),
                s@ == (DocView { effects: effects_map(all_effects.take(k as int)), ..before_effects }),
            decreases effects.len(),
        {
            let item = effects.remove(0);
            proof {
                assert(all_effects.take(k + 1).drop_last() =~= all_effects.take(k as int));
                assert(all_effects.take(k + 1).last() == all_effects[k as int]);
                assert(effects@ =~= all_effects.skip(k + 1));
            }
            s.insert_effect(item);
            k = k + 1;
        }
        proof {
            assert(all_effects.take(k as int) =~= all_effects);
        }
        let mut specs = specs;
        let ghost all_specs = specs@;
        let total_specs = specs.len();
        let ghost before_specs = s@;
        let mut k: usize = 0;
        while specs.len() > 0
            invariant
                k + specs@.len() == all_specs.len(),
                all_specs.len() == total_specs,
                specs@ == all_specs.skip(k as int),
                s@ == (DocView { effect_specs: specs_map(all_specs.take(k as int)), ..before_specs }),
            decreases specs.len(),
        {
            let item = specs.remove(0);
            proof {
                assert(all_specs.take(k + 1).drop_last() =~= all_specs.take(k as int));
                assert(all_specs.take(k + 1).last() == all_specs[k as int]);
                assert(specs@ =~= all_specs.skip(k + 1));
            }
            s.insert_effect_spec(item);
            k = k + 1;
        }
        proof {
            assert(all_specs.take(k as int) =~= all_specs);
        }
        let mut templates = templates;
        let ghost all_templates = templates@;
        let total_templates = templates.len();
        let ghost before_templates = s@;
        let mut k: usize = 0;
        while templates.len() > 0
            invariant
                k + templates@.len() == all_templates.len(),
                all_templates.len() == total_templates,
                templates@ == all_templates.skip(k as int),
                s@ == (DocView { effect_templates: templates_map(all_templates.take(k as int)), ..before_templates }),
            decreases templates.len(),
        {
            let item = templates.remove(0);
            proof {
                assert(all_templates.take(k + 1).drop_last() =~= all_templates.take(k as int));
                assert(all_templates.take(k + 1).last() == all_templates[k as int]);
                assert(templates@ =~= all_templates.skip(k + 1));
            }
            s.insert_effect_template(item);
            k = k + 1;
        }
        proof {
            assert(all_templates.take(k as int) =~= all_templates);
        }
        let ghost before_u = s@;
        let n = universes.len();
        let mut i: usize = 0;
        while i < n
            invariant
                n == universes@.len(),
                i <= n,
                s@ == (DocView { universes: universes_map(universes@.take(i as int)), ..before_u }),
            decreases n - i,
        {
            s.insert_universe(universes[i], UniverseSetting::new());
            proof {
                assert(universes@.take(i + 1).drop_last() =~= universes@.take(i as int));
                assert(universes@.take(i + 1).last() == universes@[i as int]);
            }
            i = i + 1;
        }
        proof {
            assert(universes@.take(n as int) =~= universes@);
        }
        Ok(s)
    }
}

/// Each fixture is stored under its own id and its definition and mode
/// resolve.
pub open spec fn fixture_resolves(v: DocView, id: FixtureId) -> bool {
    v.fixtures[id].id_spec() == id && occupancy(v.catalog, v.fixtures[id]) is Some
}

/// The index records each slot of fixture `id` with its offset.
pub open spec fn fixture_indexed(v: DocView, id: FixtureId) -> bool {
    forall|i: int| #![trigger v.occ(id)[i]]
        0 <= i < v.occ(id).len() ==> v.index.contains_key(v.occ(id)[i]) && v.index[v.occ(id)[i]] == (id, i as usize)
}

/// The index entry of slot `k` names a stored fixture's slot at that offset.
pub open spec fn entry_valid(v: DocView, k: (UniverseId, crate::universe::DmxAddress)) -> bool {
    v.fixtures.contains_key(v.index[k].0) && v.index[k].1 < v.occ(v.index[k].0).len() && v.occ(
        v.index[k].0,
    )[v.index[k].1 as int] == k
}

impl DocState {
    /// Whether the document satisfies its invariant: fixtures under their
    /// own ids with resolving definitions and modes, an index recording
    /// exactly their slots, and effects, templates and specs under their own
    /// ids.
    pub fn check_consistent(&self) -> (r: bool)
        ensures
            r == self@.consistent(),
    {
        let ids = self.fixture_ids();
        let n = ids.len();
        let mut i: usize = 0;
        while i < n
            invariant
                n == ids@.len(),
                i <= n,
                forall|j: int| 0 <= j < ids@.len() ==> self@.fixtures.contains_key(#[trigger] ids@[j]),
                forall|id: FixtureId| #[trigger] self@.fixtures.contains_key(id) ==> ids@.contains(id),
                forall|j: int|
                    0 <= j < i ==> fixture_resolves(self@, #[trigger] ids@[j]) && fixture_indexed(self@, ids@[j]),
            decreases n - i,
        {
            let id = ids[i];
            assert(self@.fixtures.contains_key(id));
            let f = match self.fixture(&id) {
                Some(f) => f,
                None => vstd::pervasive::unreached(),
            };
            if f.id() != id {
                return false;
            }
            let def = match self.fixture_defs().get(f.fixture_def()) {
                Ok(d) => d,
                Err(_) => {
                    return false;
                },
            };
            let mode = match def.mode(f.fixture_mode()) {
                Some(m) => m,
                None => {
                    return false;
                },
            };
            let slots = mode.occupied_addresses(f.universe_id(), f.address());
            assert(slots@ == self@.occ(id));
            let m = slots.len();
            let mut k: usize = 0;
            while k < m
                invariant
                    m == slots@.len(),
                    k <= m,
                    slots@ == self@.occ(id),
                    self@.fixtures.contains_key(id),
                    fixture_resolves(self@, id),
                    forall|j: int| #![trigger self@.occ(id)[j]]
                        0 <= j < k ==> self@.index.contains_key(self@.occ(id)[j]) && self@.index[self@.occ(id)[j]]
                            == (id, j as usize),
                decreases m - k,
            {
                match self.address_index().get(slots[k].0, slots[k].1) {
                    Some(e) => {
                        if !(e.0 == id && e.1 == k) {
                            proof {
                                assert(!fixture_indexed(self@, id));
                            }
                            return false;
                        }
                    },
                    None => {
                        proof {
                            assert(!fixture_indexed(self@, id));
                        }
                        return false;
                    },
                }
                k = k + 1;
            }
            i = i + 1;
        }
        proof {
            assert forall|id: FixtureId| #[trigger] self@.fixtures.contains_key(id) implies fixture_resolves(
                self@,
                id,
            ) && fixture_indexed(self@, id) by {
                let j = choose|j: int| 0 <= j < ids@.len() && ids@[j] == id;
                assert(fixture_resolves(self@, ids@[j]) && fixture_indexed(self@, ids@[j]));
            }
        }
        let entries = self.address_index().iter();
        let ne = entries.len();
        let mut e: usize = 0;
        while e < ne
            invariant
                ne == entries@.len(),
                e <= ne,
                forall|id: FixtureId| #[trigger]
                    self@.fixtures.contains_key(id) ==> fixture_resolves(self@, id) && fixture_indexed(self@, id),
                forall|j: int|
                    0 <= j < entries@.len() ==> self@.index.contains_key((#[trigger] entries@[j].0, entries@[j].1))
                        && self@.index[(entries@[j].0, entries@[j].1)] == (entries@[j].2, entries@[j].3),
                forall|j: int| 0 <= j < e ==> entry_valid(self@, (#[trigger] entries@[j].0, entries@[j].1)),
            decreases ne - e,
        {
            let (u, a, fid, o) = entries[e];
            let f = match self.fixture(&fid) {
                Some(f) => f,
                None => {
                    return false;
                },
            };
            let def = match self.fixture_defs().get(f.fixture_def()) {
                Ok(d) => d,
                Err(_) => vstd::pervasive::unreached(),
            };
            let mode = match def.mode(f.fixture_mode()) {
                Some(m) => m,
                None => vstd::pervasive::unreached(),
            };
            let slots = mode.occupied_addresses(f.universe_id(), f.address());
            assert(slots@ == self@.occ(fid));
            if o >= slots.len() || !(slots[o].0 == u && slots[o].1 == a) {
                return false;
            }
            e = e + 1;
        }
        proof {
            assert forall|k: (UniverseId, crate::universe::DmxAddress)| #[trigger] self@.index.contains_key(k) implies entry_valid(
                self@,
                k,
            ) by {
                let j = choose|j: int| 0 <= j < entries@.len() && entries@[j].0 == k.0 && entries@[j].1 == k.1;
                assert(entry_valid(self@, (entries@[j].0, entries@[j].1)));
            }
        }
        let effect_ids = self.effect_ids();
        let mut q: usize = 0;
        while q < effect_ids.len()
            invariant
                q <= effect_ids@.len(),
                forall|j: int| 0 <= j < effect_ids@.len() ==> self@.effects.contains_key(#[trigger] effect_ids@[j]),
                forall|j: int| 0 <= j < q ==> self@.effects[#[trigger] effect_ids@[j]].id_spec() == effect_ids@[j],
            decreases effect_ids@.len() - q,
        {
            let id = effect_ids[q];
            assert(self@.effects.contains_key(id));
            let fx = match self.effect(&id) {
                Some(x) => x,
                None => vstd::pervasive::unreached(),
            };
            if fx.id() != id {
                return false;
            }
            q = q + 1;
        }
        let spec_ids = self.effect_spec_ids();
        let mut q: usize = 0;
        while q < spec_ids.len()
            invariant
                q <= spec_ids@.len(),
                forall|j: int| 0 <= j < spec_ids@.len() ==> self@.effect_specs.contains_key(#[trigger] spec_ids@[j]),
                forall|j: int| 0 <= j < q ==> self@.effect_specs[#[trigger] spec_ids@[j]].id_spec() == spec_ids@[j],
            decreases spec_ids@.len() - q,
        {
            let id = spec_ids[q];
            assert(self@.effect_specs.contains_key(id));
            let sp = match self.effect_spec(&id) {
                Some(x) => x,
                None => vstd::pervasive::unreached(),
            };
            if sp.id() != id {
                return false;
            }
            q = q + 1;
        }
        let tmpl_ids = self.effect_template_ids();
        let mut q: usize = 0;
        while q < tmpl_ids.len()
            invariant
                q <= tmpl_ids@.len(),
                forall|j: int| 0 <= j < tmpl_ids@.len() ==> self@.effect_templates.contains_key(#[trigger] tmpl_ids@[j]),
                forall|j: int| 0 <= j < q ==> self@.effect_templates[#[trigger] tmpl_ids@[j]].id_spec() == tmpl_ids@[j],
            decreases tmpl_ids@.len() - q,
        {
            let id = tmpl_ids[q];
            assert(self@.effect_templates.contains_key(id));
            let t = match self.effect_template(&id) {
                Some(x) => x,
                None => vstd::pervasive::unreached(),
            };
            if t.id() != id {
                return false;
            }
            q = q + 1;
        }
        proof {
            assert forall|id: EffectId| #[trigger] self@.effects.contains_key(id) implies self@.effects[id].id_spec()
                == id by {
                let j = choose|j: int| 0 <= j < effect_ids@.len() && effect_ids@[j] == id;
                assert(self@.effects[effect_ids@[j]].id_spec() == effect_ids@[j]);
            }
            assert forall|id: EffectSpecId| #[trigger] self@.effect_specs.contains_key(id) implies self@.effect_specs[
                id
            ].id_spec() == id by {
                let j = choose|j: int| 0 <= j < spec_ids@.len() && spec_ids@[j] == id;
                assert(self@.effect_specs[spec_ids@[j]].id_spec() == spec_ids@[j]);
            }
            assert forall|id: EffectTemplateId| #[trigger] self@.effect_templates.contains_key(id) implies self@.effect_templates[
                id
            ].id_spec() == id by {
                let j = choose|j: int| 0 <= j < tmpl_ids@.len() && tmpl_ids@[j] == id;
                assert(self@.effect_templates[tmpl_ids@[j]].id_spec() == tmpl_ids@[j]);
            }
        }
        true
    }
}

} // verus!
