//! The data of a document: fixtures, the definition catalog, effects,
//! universes and the index from DMX addresses to fixture channels.
//! Validating changes is the job of `decider`; this module only stores.
use crate::effects::{Effect, EffectSpec, EffectTemplate};
use crate::fixture::Fixture;
use crate::fixture_def::{lookup_def, occupied_spec, FixtureDef, FixtureDefLoadError, FixtureDefRegistry};
use crate::ids::{EffectId, EffectSpecId, EffectTemplateId, FixtureId, OutputPluginId};
use crate::keyed::KeyedVec;
use crate::universe::{DmxAddress, UniverseId};
use vstd::prelude::*;

verus! {

broadcast use {DmxAddress::lemma_num_injective, DmxAddress::lemma_of_num};

/// A DMX slot: a universe and an address in it.
pub type Slot = (UniverseId, DmxAddress);

/// What the definition catalog holds, by definition id.
pub type Catalog = Map<(Seq<char>, Seq<char>), Result<FixtureDef, FixtureDefLoadError>>;

/// The address index as a map: slot to (fixture, channel offset).
pub type IndexMap = Map<Slot, (FixtureId, usize)>;

/// The slots that `f` occupies, where its definition loaded and has its mode.
pub open spec fn occupancy(catalog: Catalog, f: Fixture) -> Option<Seq<Slot>> {
    match lookup_def(catalog, f.def_spec()@) {
        Some(def) => if def.mode_map().contains_key(f.mode_spec()@) {
            Some(
                occupied_spec(
                    f.universe_spec(),
                    f.address_spec(),
                    def.mode_map()[f.mode_spec()@].channels().len(),
                ),
            )
        } else {
            None
        },
        None => None,
    }
}

/// `m` with the slots of `slots` taken by channel `i` of fixture `id`.
pub open spec fn insert_all(m: IndexMap, id: FixtureId, slots: Seq<Slot>) -> IndexMap
    decreases slots.len(),
{
    if slots.len() == 0 {
        m
    } else {
        insert_all(m, id, slots.drop_last()).insert(
            slots.last(),
            (id, (slots.len() - 1) as usize),
        )
    }
}

/// `m` without the slots of `slots`.
pub open spec fn remove_all(m: IndexMap, slots: Seq<Slot>) -> IndexMap
    decreases slots.len(),
{
    if slots.len() == 0 {
        m
    } else {
        remove_all(m, slots.drop_last()).remove(slots.last())
    }
}

/// `k` is in `s` exactly when it is in `s` without its last element, or is
/// that element.
pub proof fn lemma_contains_drop_last<A>(s: Seq<A>, k: A)
    requires
        s.len() > 0,
    ensures
        s.contains(k) <==> s.drop_last().contains(k) || k == s.last(),
{
    if s.contains(k) {
        let i = choose|i: int| 0 <= i < s.len() && s[i] == k;
        if i < s.len() - 1 {
            assert(s.drop_last()[i] == k);
        }
    }
    if s.drop_last().contains(k) {
        let i = choose|i: int| 0 <= i < s.drop_last().len() && s.drop_last()[i] == k;
        assert(s[i] == k);
    }
    if k == s.last() {
        assert(s[s.len() - 1] == k);
    }
}

/// What [`remove_all`] keeps.
pub proof fn lemma_remove_all(m: IndexMap, slots: Seq<Slot>)
    ensures
        forall|k: Slot|
            #[trigger] remove_all(m, slots).contains_key(k) <==> m.contains_key(k)
                && !slots.contains(k),
        forall|k: Slot| #[trigger] remove_all(m, slots).contains_key(k) ==> remove_all(m, slots)[k] == m[k],
    decreases slots.len(),
{
    if slots.len() > 0 {
        let s0 = slots.drop_last();
        lemma_remove_all(m, s0);
        assert forall|k: Slot| #[trigger] remove_all(m, slots).contains_key(k) <==> m.contains_key(k)
            && !slots.contains(k) by {
            lemma_contains_drop_last(slots, k);
            assert(remove_all(m, s0).contains_key(k) <==> m.contains_key(k) && !s0.contains(k));
        }
        assert forall|k: Slot| #[trigger] remove_all(m, slots).contains_key(k) implies remove_all(m, slots)[k]
            == m[k] by {
            assert(remove_all(m, s0).contains_key(k));
            assert(remove_all(m, s0)[k] == m[k]);
        }
    }
}

/// What [`insert_all`] holds, for slots without repetition.
pub proof fn lemma_insert_all(m: IndexMap, id: FixtureId, slots: Seq<Slot>)
    requires
        slots.no_duplicates(),
    ensures
        forall|k: Slot|
            #[trigger] insert_all(m, id, slots).contains_key(k) <==> m.contains_key(k)
                || slots.contains(k),
        forall|i: int|
            0 <= i < slots.len() ==> #[trigger] insert_all(m, id, slots)[slots[i]] == (id, i as usize),
        forall|k: Slot| !slots.contains(k) ==> #[trigger] insert_all(m, id, slots)[k] == m[k],
    decreases slots.len(),
{
    if slots.len() > 0 {
        let s0 = slots.drop_last();
        assert(s0.no_duplicates());
        lemma_insert_all(m, id, s0);
        assert forall|k: Slot| #[trigger] insert_all(m, id, slots).contains_key(k) <==> m.contains_key(k)
            || slots.contains(k) by {
            lemma_contains_drop_last(slots, k);
            assert(insert_all(m, id, s0).contains_key(k) <==> m.contains_key(k) || s0.contains(k));
        }
        assert forall|i: int| 0 <= i < slots.len() implies #[trigger] insert_all(m, id, slots)[slots[i]]
            == (id, i as usize) by {
            if i < slots.len() - 1 {
                assert(s0[i] == slots[i]);
                assert(slots[i] != slots.last());
                assert(insert_all(m, id, s0)[s0[i]] == (id, i as usize));
            }
        }
        assert forall|k: Slot| !slots.contains(k) implies #[trigger] insert_all(m, id, slots)[k] == m[k] by {
            lemma_contains_drop_last(slots, k);
            assert(insert_all(m, id, s0)[k] == m[k]);
        }
    }
}

/// The slots of a footprint never repeat.
pub proof fn lemma_occupied_distinct(univ: UniverseId, start: DmxAddress, len: nat)
    ensures
        occupied_spec(univ, start, len).no_duplicates(),
        forall|i: int|
            0 <= i < occupied_spec(univ, start, len).len() ==> (#[trigger] occupied_spec(
                univ,
                start,
                len,
            )[i]).1.num() == start.num() + i,
{
    let s = occupied_spec(univ, start, len);
    assert forall|i: int| 0 <= i < s.len() implies (#[trigger] s[i]).1.num() == start.num() + i by {
        DmxAddress::lemma_of_num((start.num() + i) as nat);
    }
    assert forall|i: int, j: int| 0 <= i < s.len() && 0 <= j < s.len() && i != j implies s[i]
        != s[j] by {
        assert(s[i].1.num() == start.num() + i);
        assert(s[j].1.num() == start.num() + j);
    }
}

/// The output settings of one universe.
#[derive(Debug)]
pub struct UniverseSetting {
    output_plugins: Vec<OutputPluginId>,
}

impl View for UniverseSetting {
    type V = Seq<OutputPluginId>;

    closed spec fn view(&self) -> Seq<OutputPluginId> {
        self.output_plugins@
    }
}

impl UniverseSetting {
    /// A universe with no output plugin.
    pub fn new() -> (r: Self)
        ensures
            r@ == Seq::<OutputPluginId>::empty(),
    {
        UniverseSetting { output_plugins: Vec::new() }
    }

    /// The output plugins the universe is sent to.
    pub fn output_plugins(&self) -> (r: &Vec<OutputPluginId>)
        ensures
            r@ == self@,
    {
        &self.output_plugins
    }
}

/// Finds the fixture channel at a DMX slot.
#[derive(Debug)]
pub struct AddressIndex {
    map: KeyedVec<Slot, (FixtureId, usize)>,
}

impl View for AddressIndex {
    type V = IndexMap;

    closed spec fn view(&self) -> IndexMap {
        self.map@
    }
}

impl AddressIndex {
    /// An empty index.
    pub fn new() -> (r: Self)
        ensures
            r@ == IndexMap::empty(),
    {
        AddressIndex { map: KeyedVec::new() }
    }

    /// Records that channel `offset` of `fxt_id` sits at `adr` of `univ`;
    /// returns what was recorded there before.
    pub fn insert(&mut self, univ: UniverseId, adr: DmxAddress, fxt_id: FixtureId, offset: usize) -> (r:
        Option<(FixtureId, usize)>)
        ensures
            final(self)@ == old(self)@.insert((univ, adr), (fxt_id, offset)),
            r == (if old(self)@.contains_key((univ, adr)) {
                Some(old(self)@[(univ, adr)])
            } else {
                None
            }),
    {
        self.map.insert((univ, adr), (fxt_id, offset))
    }

    /// Forgets the slot `adr` of `univ`; returns what was recorded there.
    pub fn remove(&mut self, univ: UniverseId, adr: DmxAddress) -> (r: Option<(FixtureId, usize)>)
        ensures
            final(self)@ == old(self)@.remove((univ, adr)),
            r == (if old(self)@.contains_key((univ, adr)) {
                Some(old(self)@[(univ, adr)])
            } else {
                None
            }),
    {
        self.map.remove(&(univ, adr))
    }

    /// The fixture channel at `adr` of `univ`.
    pub fn get(&self, univ: UniverseId, adr: DmxAddress) -> (r: Option<&(FixtureId, usize)>)
        ensures
            match r {
                Some(e) => self@.contains_key((univ, adr)) && *e == self@[(univ, adr)],
                None => !self@.contains_key((univ, adr)),
            },
    {
        self.map.get(&(univ, adr))
    }

    /// Every entry as (universe, address, fixture, offset); each slot once.
    pub fn iter(&self) -> (r: Vec<(UniverseId, DmxAddress, FixtureId, usize)>)
        ensures
            forall|i: int|
                0 <= i < r@.len() ==> self@.contains_key((#[trigger] r@[i].0, r@[i].1))
                    && self@[(r@[i].0, r@[i].1)] == (r@[i].2, r@[i].3),
            forall|k: Slot|
                #[trigger] self@.contains_key(k) ==> exists|i: int|
                    0 <= i < r@.len() && r@[i].0 == k.0 && r@[i].1 == k.1,
            forall|i: int, j: int|
                #![trigger r@[i], r@[j]]
                0 <= i < r@.len() && 0 <= j < r@.len() && i != j ==> (r@[i].0, r@[i].1) != (
                    r@[j].0,
                    r@[j].1,
                ),
    {
        let n = self.map.len();
        let mut out: Vec<(UniverseId, DmxAddress, FixtureId, usize)> = Vec::new();
        let mut i: usize = 0;
        while i < n
            invariant
                n == self.map.entries().len(),
                i <= n,
                out@.len() == i,
                forall|j: int|
                    0 <= j < i ==> (#[trigger] out@[j].0, out@[j].1) == self.map.entries()[j].0 && (
                    out@[j].2,
                    out@[j].3,
                ) == self.map.entries()[j].1,
                crate::keyed::keys_distinct(self.map.entries()),
                forall|j: int|
                    0 <= j < self.map.entries().len() ==> self.map@.contains_key(
                        #[trigger] self.map.entries()[j].0@,
                    ) && self.map@[self.map.entries()[j].0@] == self.map.entries()[j].1,
            decreases n - i,
        {
            let k = *self.map.key_at(i);
            let v = *self.map.value_at(i);
            out.push((k.0, k.1, v.0, v.1));
            i = i + 1;
        }
        proof {
            assert forall|i: int| 0 <= i < out@.len() implies self@.contains_key(
                (#[trigger] out@[i].0, out@[i].1),
            ) && self@[(out@[i].0, out@[i].1)] == (out@[i].2, out@[i].3) by {
                assert(self.map.entries()[i].0@ == self.map.entries()[i].0);
            }
            assert forall|k: Slot| #[trigger] self@.contains_key(k) implies exists|i: int|
                0 <= i < out@.len() && out@[i].0 == k.0 && out@[i].1 == k.1 by {
                let j = crate::keyed::seq_index_of(self.map.entries(), k);
                assert(out@[j].0 == k.0 && out@[j].1 == k.1);
            }
            assert forall|a: int, b: int|
                #![trigger out@[a], out@[b]]
                0 <= a < out@.len() && 0 <= b < out@.len() && a != b implies (out@[a].0, out@[a].1)
                != (out@[b].0, out@[b].1) by {
                assert(self.map.entries()[a].0@ != self.map.entries()[b].0@);
            }
        }
        out
    }
}

/// The document as values: what each part of the state holds.
pub struct DocView {
    pub fixtures: Map<FixtureId, Fixture>,
    pub catalog: Catalog,
    pub index: IndexMap,
    pub effect_specs: Map<EffectSpecId, EffectSpec>,
    pub effect_templates: Map<EffectTemplateId, EffectTemplate>,
    pub effects: Map<EffectId, Effect>,
    pub universes: Map<UniverseId, Seq<OutputPluginId>>,
}

impl DocView {
    /// The slots of fixture `id`, as its definition and mode place it.
    pub open spec fn occ(self, id: FixtureId) -> Seq<Slot> {
        match occupancy(self.catalog, self.fixtures[id]) {
            Some(s) => s,
            None => Seq::empty(),
        }
    }

    /// The state invariant: each fixture is stored under its own id and
    /// resolves to a definition and mode; the index records exactly the
    /// slots of the stored fixtures, each with its channel offset; effects,
    /// templates and specs are stored under their own ids.
    pub open spec fn consistent(self) -> bool {
        &&& forall|id: FixtureId| #[trigger]
            self.fixtures.contains_key(id) ==> self.fixtures[id].id_spec() == id && occupancy(
                self.catalog,
                self.fixtures[id],
            ) is Some
        &&& forall|id: FixtureId, i: int|
            #![trigger self.occ(id)[i]]
            self.fixtures.contains_key(id) && 0 <= i < self.occ(id).len() ==> self.index.contains_key(
                self.occ(id)[i],
            ) && self.index[self.occ(id)[i]] == (id, i as usize)
        &&& forall|k: Slot| #[trigger]
            self.index.contains_key(k) ==> self.fixtures.contains_key(self.index[k].0)
                && self.index[k].1 < self.occ(self.index[k].0).len() && self.occ(
                self.index[k].0,
            )[self.index[k].1 as int] == k
        &&& forall|id: EffectSpecId| #[trigger]
            self.effect_specs.contains_key(id) ==> self.effect_specs[id].id_spec() == id
        &&& forall|id: EffectTemplateId| #[trigger]
            self.effect_templates.contains_key(id) ==> self.effect_templates[id].id_spec() == id
        &&& forall|id: EffectId| #[trigger] self.effects.contains_key(id) ==> self.effects[id].id_spec() == id
    }
}

/// The single source of truth of a document. It only stores; every change
/// goes through a command that the decider validated.
#[derive(Debug)]
pub struct DocState {
    fixtures: KeyedVec<FixtureId, Fixture>,
    fixture_defs: FixtureDefRegistry,
    address_index: AddressIndex,
    effect_specs: KeyedVec<EffectSpecId, EffectSpec>,
    effect_templates: KeyedVec<EffectTemplateId, EffectTemplate>,
    effects: KeyedVec<EffectId, Effect>,
    universes: KeyedVec<UniverseId, UniverseSetting>,
}

impl View for DocState {
    type V = DocView;

    closed spec fn view(&self) -> DocView {
        DocView {
            fixtures: self.fixtures@,
            catalog: self.fixture_defs.catalog(),
            index: self.address_index@,
            effect_specs: self.effect_specs@,
            effect_templates: self.effect_templates@,
            effects: self.effects@,
            universes: self.universes@.map_values(|s: UniverseSetting| s@),
        }
    }
}

impl DocState {
    /// An empty document that resolves fixtures against `defs`.
    pub fn new(defs: FixtureDefRegistry) -> (r: Self)
        ensures
            r@.fixtures == Map::<FixtureId, Fixture>::empty(),
            r@.catalog == defs.catalog(),
            r@.index == IndexMap::empty(),
            r@.effect_specs == Map::<EffectSpecId, EffectSpec>::empty(),
            r@.effect_templates == Map::<EffectTemplateId, EffectTemplate>::empty(),
            r@.effects == Map::<EffectId, Effect>::empty(),
            r@.universes == Map::<UniverseId, Seq<OutputPluginId>>::empty(),
            r@.consistent(),
    {
        let r = DocState {
            fixtures: KeyedVec::new(),
            fixture_defs: defs,
            address_index: AddressIndex::new(),
            effect_specs: KeyedVec::new(),
            effect_templates: KeyedVec::new(),
            effects: KeyedVec::new(),
            universes: KeyedVec::new(),
        };
        assert(r@.universes =~= Map::<UniverseId, Seq<OutputPluginId>>::empty());
        r
    }

    /// The fixture stored under `id`.
    pub fn fixture(&self, id: &FixtureId) -> (r: Option<&Fixture>)
        ensures
            match r {
                Some(f) => self@.fixtures.contains_key(*id) && *f == self@.fixtures[*id],
                None => !self@.fixtures.contains_key(*id),
            },
    {
        self.fixtures.get(id)
    }

    /// The ids of the stored fixtures, in insertion order.
    pub fn fixture_ids(&self) -> (r: Vec<FixtureId>)
        ensures
            forall|i: int| 0 <= i < r@.len() ==> self@.fixtures.contains_key(#[trigger] r@[i]),
            forall|id: FixtureId| #[trigger]
                self@.fixtures.contains_key(id) ==> r@.contains(id),
            r@.no_duplicates(),
    {
        let n = self.fixtures.len();
        let mut out: Vec<FixtureId> = Vec::new();
        let mut i: usize = 0;
        while i < n
            invariant
                n == self.fixtures.entries().len(),
                i <= n,
                out@.len() == i,
                forall|j: int| 0 <= j < i ==> #[trigger] out@[j] == self.fixtures.entries()[j].0,
                crate::keyed::keys_distinct(self.fixtures.entries()),
                forall|j: int|
                    0 <= j < self.fixtures.entries().len() ==> self.fixtures@.contains_key(
                        #[trigger] self.fixtures.entries()[j].0@,
                    ),
            decreases n - i,
        {
            out.push(*self.fixtures.key_at(i));
            i = i + 1;
        }
        proof {
            assert forall|i: int| 0 <= i < out@.len() implies self@.fixtures.contains_key(#[trigger] out@[i]) by {
                assert(self.fixtures.entries()[i].0@ == self.fixtures.entries()[i].0);
            }
            assert forall|a: int, b: int| 0 <= a < out@.len() && 0 <= b < out@.len() && a != b implies out@[a] != out@[b] by {
                assert(self.fixtures.entries()[a].0@ != self.fixtures.entries()[b].0@);
            }
            assert forall|id: FixtureId| #[trigger] self@.fixtures.contains_key(id) implies out@.contains(id) by {
                let j = crate::keyed::seq_index_of(self.fixtures.entries(), id);
                assert(out@[j] == id);
            }
        }
        out
    }

    /// The definition catalog.
    pub fn fixture_defs(&self) -> (r: &FixtureDefRegistry)
        ensures
            r.catalog() == self@.catalog,
    {
        &self.fixture_defs
    }

    /// The address index.
    pub fn address_index(&self) -> (r: &AddressIndex)
        ensures
            r@ == self@.index,
    {
        &self.address_index
    }

    /// The effect spec stored under `id`.
    pub fn effect_spec(&self, id: &EffectSpecId) -> (r: Option<&EffectSpec>)
        ensures
            match r {
                Some(s) => self@.effect_specs.contains_key(*id) && *s == self@.effect_specs[*id],
                None => !self@.effect_specs.contains_key(*id),
            },
    {
        self.effect_specs.get(id)
    }

    /// The effect template stored under `id`.
    pub fn effect_template(&self, id: &EffectTemplateId) -> (r: Option<&EffectTemplate>)
        ensures
            match r {
                Some(t) => self@.effect_templates.contains_key(*id) && *t
                    == self@.effect_templates[*id],
                None => !self@.effect_templates.contains_key(*id),
            },
    {
        self.effect_templates.get(id)
    }

    /// The effect stored under `id`.
    pub fn effect(&self, id: &EffectId) -> (r: Option<&Effect>)
        ensures
            match r {
                Some(e) => self@.effects.contains_key(*id) && *e == self@.effects[*id],
                None => !self@.effects.contains_key(*id),
            },
    {
        self.effects.get(id)
    }

    /// The settings of universe `id`.
    pub fn universe_setting(&self, id: &UniverseId) -> (r: Option<&UniverseSetting>)
        ensures
            match r {
                Some(s) => self@.universes.contains_key(*id) && s@ == self@.universes[*id],
                None => !self@.universes.contains_key(*id),
            },
    {
        self.universes.get(id)
    }

    /// The universes, in the order they were added.
    pub fn universes(&self) -> (r: Vec<UniverseId>)
        ensures
            forall|i: int| 0 <= i < r@.len() ==> self@.universes.contains_key(#[trigger] r@[i]),
            forall|u: UniverseId| #[trigger] self@.universes.contains_key(u) ==> r@.contains(u),
            r@.no_duplicates(),
    {
        let n = self.universes.len();
        let mut out: Vec<UniverseId> = Vec::new();
        let mut i: usize = 0;
        while i < n
            invariant
                n == self.universes.entries().len(),
                i <= n,
                out@.len() == i,
                forall|j: int| 0 <= j < i ==> #[trigger] out@[j] == self.universes.entries()[j].0,
                crate::keyed::keys_distinct(self.universes.entries()),
                forall|j: int|
                    0 <= j < self.universes.entries().len() ==> self.universes@.contains_key(
                        #[trigger] self.universes.entries()[j].0@,
                    ),
            decreases n - i,
        {
            out.push(*self.universes.key_at(i));
            i = i + 1;
        }
        proof {
            assert forall|i: int| 0 <= i < out@.len() implies self@.universes.contains_key(#[trigger] out@[i]) by {
                assert(self.universes.entries()[i].0@ == self.universes.entries()[i].0);
            }
            assert forall|a: int, b: int| 0 <= a < out@.len() && 0 <= b < out@.len() && a != b implies out@[a] != out@[b] by {
                assert(self.universes.entries()[a].0@ != self.universes.entries()[b].0@);
            }
            assert forall|u: UniverseId| #[trigger] self@.universes.contains_key(u) implies out@.contains(u) by {
                let j = crate::keyed::seq_index_of(self.universes.entries(), u);
                assert(out@[j] == u);
            }
        }
        out
    }

    /// The ids of the stored effects, in insertion order.
    pub fn effect_ids(&self) -> (r: Vec<EffectId>)
        ensures
            forall|i: int| 0 <= i < r@.len() ==> self@.effects.contains_key(#[trigger] r@[i]),
            forall|id: EffectId| #[trigger] self@.effects.contains_key(id) ==> r@.contains(id),
            r@.no_duplicates(),
    {
        let n = self.effects.len();
        let mut out: Vec<EffectId> = Vec::new();
        let mut i: usize = 0;
        while i < n
            invariant
                n == self.effects.entries().len(),
                i <= n,
                out@.len() == i,
                forall|j: int| 0 <= j < i ==> #[trigger] out@[j] == self.effects.entries()[j].0,
                crate::keyed::keys_distinct(self.effects.entries()),
                forall|j: int|
                    0 <= j < self.effects.entries().len() ==> self.effects@.contains_key(
                        #[trigger] self.effects.entries()[j].0@,
                    ),
            decreases n - i,
        {
            out.push(*self.effects.key_at(i));
            i = i + 1;
        }
        proof {
            assert forall|i: int| 0 <= i < out@.len() implies self@.effects.contains_key(#[trigger] out@[i]) by {
                assert(self.effects.entries()[i].0@ == self.effects.entries()[i].0);
            }
            assert forall|a: int, b: int| 0 <= a < out@.len() && 0 <= b < out@.len() && a != b implies out@[a] != out@[b] by {
                assert(self.effects.entries()[a].0@ != self.effects.entries()[b].0@);
            }
            assert forall|id: EffectId| #[trigger] self@.effects.contains_key(id) implies out@.contains(id) by {
                let j = crate::keyed::seq_index_of(self.effects.entries(), id);
                assert(out@[j] == id);
            }
        }
        out
    }

    /// The ids of the stored effect specs, in insertion order.
    pub fn effect_spec_ids(&self) -> (r: Vec<EffectSpecId>)
        ensures
            forall|i: int| 0 <= i < r@.len() ==> self@.effect_specs.contains_key(#[trigger] r@[i]),
            forall|id: EffectSpecId| #[trigger] self@.effect_specs.contains_key(id) ==> r@.contains(id),
            r@.no_duplicates(),
    {
        let n = self.effect_specs.len();
        let mut out: Vec<EffectSpecId> = Vec::new();
        let mut i: usize = 0;
        while i < n
            invariant
                n == self.effect_specs.entries().len(),
                i <= n,
                out@.len() == i,
                forall|j: int| 0 <= j < i ==> #[trigger] out@[j] == self.effect_specs.entries()[j].0,
                crate::keyed::keys_distinct(self.effect_specs.entries()),
                forall|j: int|
                    0 <= j < self.effect_specs.entries().len() ==> self.effect_specs@.contains_key(
                        #[trigger] self.effect_specs.entries()[j].0@,
                    ),
            decreases n - i,
        {
            out.push(*self.effect_specs.key_at(i));
            i = i + 1;
        }
        proof {
            assert forall|i: int| 0 <= i < out@.len() implies self@.effect_specs.contains_key(#[trigger] out@[i]) by {
                assert(self.effect_specs.entries()[i].0@ == self.effect_specs.entries()[i].0);
            }
            assert forall|a: int, b: int| 0 <= a < out@.len() && 0 <= b < out@.len() && a != b implies out@[a] != out@[b] by {
                assert(self.effect_specs.entries()[a].0@ != self.effect_specs.entries()[b].0@);
            }
            assert forall|id: EffectSpecId| #[trigger] self@.effect_specs.contains_key(id) implies out@.contains(id) by {
                let j = crate::keyed::seq_index_of(self.effect_specs.entries(), id);
                assert(out@[j] == id);
            }
        }
        out
    }

    /// The ids of the stored effect templates, in insertion order.
    pub fn effect_template_ids(&self) -> (r: Vec<EffectTemplateId>)
        ensures
            forall|i: int| 0 <= i < r@.len() ==> self@.effect_templates.contains_key(#[trigger] r@[i]),
            forall|id: EffectTemplateId| #[trigger] self@.effect_templates.contains_key(id) ==> r@.contains(id),
            r@.no_duplicates(),
    {
        let n = self.effect_templates.len();
        let mut out: Vec<EffectTemplateId> = Vec::new();
        let mut i: usize = 0;
        while i < n
            invariant
                n == self.effect_templates.entries().len(),
                i <= n,
                out@.len() == i,
                forall|j: int| 0 <= j < i ==> #[trigger] out@[j] == self.effect_templates.entries()[j].0,
                crate::keyed::keys_distinct(self.effect_templates.entries()),
                forall|j: int|
                    0 <= j < self.effect_templates.entries().len() ==> self.effect_templates@.contains_key(
                        #[trigger] self.effect_templates.entries()[j].0@,
                    ),
            decreases n - i,
        {
            out.push(*self.effect_templates.key_at(i));
            i = i + 1;
        }
        proof {
            assert forall|i: int| 0 <= i < out@.len() implies self@.effect_templates.contains_key(#[trigger] out@[i]) by {
                assert(self.effect_templates.entries()[i].0@ == self.effect_templates.entries()[i].0);
            }
            assert forall|a: int, b: int| 0 <= a < out@.len() && 0 <= b < out@.len() && a != b implies out@[a] != out@[b] by {
                assert(self.effect_templates.entries()[a].0@ != self.effect_templates.entries()[b].0@);
            }
            assert forall|id: EffectTemplateId| #[trigger] self@.effect_templates.contains_key(id) implies out@.contains(id) by {
                let j = crate::keyed::seq_index_of(self.effect_templates.entries(), id);
                assert(out@[j] == id);
            }
        }
        out
    }

    pub(crate) fn replace_index(&mut self, index: AddressIndex)
        ensures
            final(self)@ == (DocView { index: index@, ..old(self)@ }),
    {
        self.address_index = index;
    }

    pub(crate) fn insert_fixture(&mut self, f: Fixture)
        ensures
            final(self)@ == (DocView { fixtures: old(self)@.fixtures.insert(f.id_spec(), f), ..old(self)@ }),
    {
        let id = f.id();
        let _ = self.fixtures.insert(id, f);
    }

    pub(crate) fn take_fixture(&mut self, id: &FixtureId) -> (r: Fixture)
        requires
            old(self)@.fixtures.contains_key(*id),
        ensures
            r == old(self)@.fixtures[*id],
            final(self)@ == (DocView { fixtures: old(self)@.fixtures.remove(*id), ..old(self)@ }),
    {
        match self.fixtures.remove(id) {
            Some(f) => f,
            None => vstd::pervasive::unreached(),
        }
    }

    pub(crate) fn index_insert(&mut self, slot: Slot, entry: (FixtureId, usize))
        ensures
            final(self)@ == (DocView { index: old(self)@.index.insert(slot, entry), ..old(self)@ }),
    {
        let _ = self.address_index.insert(slot.0, slot.1, entry.0, entry.1);
    }

    pub(crate) fn index_remove(&mut self, slot: Slot)
        ensures
            final(self)@ == (DocView { index: old(self)@.index.remove(slot), ..old(self)@ }),
    {
        let _ = self.address_index.remove(slot.0, slot.1);
    }

    pub(crate) fn insert_effect_spec(&mut self, s: EffectSpec)
        ensures
            final(self)@ == (DocView {
                effect_specs: old(self)@.effect_specs.insert(s.id_spec(), s),
                ..old(self)@
            }),
    {
        let id = s.id();
        let _ = self.effect_specs.insert(id, s);
    }

    pub(crate) fn take_effect_spec(&mut self, id: &EffectSpecId) -> (r: EffectSpec)
        requires
            old(self)@.effect_specs.contains_key(*id),
        ensures
            r == old(self)@.effect_specs[*id],
            final(self)@ == (DocView { effect_specs: old(self)@.effect_specs.remove(*id), ..old(self)@ }),
    {
        match self.effect_specs.remove(id) {
            Some(s) => s,
            None => vstd::pervasive::unreached(),
        }
    }

    pub(crate) fn insert_effect_template(&mut self, t: EffectTemplate)
        ensures
            final(self)@ == (DocView {
                effect_templates: old(self)@.effect_templates.insert(t.id_spec(), t),
                ..old(self)@
            }),
    {
        let id = t.id();
        let _ = self.effect_templates.insert(id, t);
    }

    pub(crate) fn take_effect_template(&mut self, id: &EffectTemplateId) -> (r: EffectTemplate)
        requires
            old(self)@.effect_templates.contains_key(*id),
        ensures
            r == old(self)@.effect_templates[*id],
            final(self)@ == (DocView {
                effect_templates: old(self)@.effect_templates.remove(*id),
                ..old(self)@
            }),
    {
        match self.effect_templates.remove(id) {
            Some(t) => t,
            None => vstd::pervasive::unreached(),
        }
    }

    pub(crate) fn insert_effect(&mut self, e: Effect)
        ensures
            final(self)@ == (DocView { effects: old(self)@.effects.insert(e.id_spec(), e), ..old(self)@ }),
    {
        let id = e.id();
        let _ = self.effects.insert(id, e);
    }

    pub(crate) fn take_effect(&mut self, id: &EffectId) -> (r: Effect)
        requires
            old(self)@.effects.contains_key(*id),
        ensures
            r == old(self)@.effects[*id],
            final(self)@ == (DocView { effects: old(self)@.effects.remove(*id), ..old(self)@ }),
    {
        match self.effects.remove(id) {
            Some(e) => e,
            None => vstd::pervasive::unreached(),
        }
    }

    pub(crate) fn insert_universe(&mut self, id: UniverseId, s: UniverseSetting)
        ensures
            final(self)@ == (DocView { universes: old(self)@.universes.insert(id, s@), ..old(self)@ }),
    {
        let ghost sv = s@;
        let _ = self.universes.insert(id, s);
        assert(self@.universes =~= old(self)@.universes.insert(id, sv));
    }

    pub(crate) fn remove_universe(&mut self, id: &UniverseId)
        ensures
            final(self)@ == (DocView { universes: old(self)@.universes.remove(*id), ..old(self)@ }),
    {
        let _ = self.universes.remove(id);
        assert(self@.universes =~= old(self)@.universes.remove(*id));
    }
}

} // verus!
