//! Validates a requested change against the document and turns it into a
//! command, or says why it is refused.
use super::commands::{
    AddEffectCommand, AddEffectSpecCommand, AddEffectTemplateCommand, AddFixtureCommand, CommandView,
    DocCommand, RemoveEffectCommand, RemoveEffectSpecCommand, RemoveEffectTemplateCommand,
    RemoveFixtureCommand, UpdateEffectCommand, UpdateEffectSpecCommand, UpdateEffectTemplateCommand,
    UpdateFixtureCommand,
};
use super::errors::{
    AddEffectError, AddEffectSpecError, AddEffectTemplateError, AddressConflictedError,
    FixtureAddError, FixtureDefNotFoundError, FixtureNotFoundError, FixtureRemoveError,
    FixtureUpdateError, ModeNotFoundError, RemoveEffectError, RemoveEffectSpecError,
    RemoveEffectTemplateError, UpdateEffectError, UpdateEffectSpecError, UpdateEffectTemplateError,
    ValidateError,
};
use super::state::{lemma_occupied_distinct, occupancy, AddressIndex, Catalog, DocState, DocView, IndexMap, Slot};
use crate::effects::{Effect, EffectChange, EffectSpec, EffectSpecChange, EffectTemplate, EffectTemplateChange};
use crate::fixture::{lemma_changed, Fixture, FixtureChange};
use crate::fixture_def::{lookup_def, occupied_spec, FixtureDef, FixtureDefLookupError};
use crate::ids::{EffectId, EffectSpecId, EffectTemplateId, FixtureId};
use vstd::prelude::*;

verus! {

/// The slots of `slots` that a fixture other than `id` already takes, in
/// order, each with the channel offsets on both sides.
pub open spec fn conflicts_of(index: IndexMap, id: FixtureId, slots: Seq<Slot>) -> Seq<
    AddressConflictedError,
>
    decreases slots.len(),
{
    if slots.len() == 0 {
        Seq::empty()
    } else {
        let prev = conflicts_of(index, id, slots.drop_last());
        let k = slots.last();
        if index.contains_key(k) && index[k].0 != id {
            prev.push(
                AddressConflictedError {
                    universe: k.0,
                    address: k.1,
                    existing_fixture_id: index[k].0,
                    existing_offset: index[k].1,
                    new_fixture_id: id,
                    new_offset: (slots.len() - 1) as usize,
                },
            )
        } else {
            prev
        }
    }
}

/// There is no conflict exactly when no slot is taken by another fixture.
pub proof fn lemma_conflicts_empty(index: IndexMap, id: FixtureId, slots: Seq<Slot>)
    ensures
        conflicts_of(index, id, slots).len() == 0 <==> forall|i: int|
            0 <= i < slots.len() && index.contains_key(#[trigger] slots[i]) ==> index[slots[i]].0
                == id,
    decreases slots.len(),
{
    if slots.len() > 0 {
        let s0 = slots.drop_last();
        lemma_conflicts_empty(index, id, s0);
        if conflicts_of(index, id, slots).len() == 0 {
            assert forall|i: int|
                0 <= i < slots.len() && index.contains_key(#[trigger] slots[i]) implies index[slots[i]].0
                == id by {
                if i < slots.len() - 1 {
                    assert(s0[i] == slots[i]);
                }
            }
        } else {
            if conflicts_of(index, id, s0).len() != 0 {
                let i = choose|i: int|
                    0 <= i < s0.len() && index.contains_key(#[trigger] s0[i]) && index[s0[i]].0 != id;
                assert(slots[i] == s0[i]);
            } else {
                assert(index.contains_key(slots[slots.len() - 1]));
            }
        }
    }
}

/// Why the catalog has no usable definition `id`.
pub open spec fn lookup_failure(catalog: Catalog, id: (Seq<char>, Seq<char>), e: FixtureDefLookupError) -> bool {
    match e {
        FixtureDefLookupError::NotInCatalog(d) => !catalog.contains_key(id) && d@ == id,
        FixtureDefLookupError::LoadFailed(le) => catalog.contains_key(id) && catalog[id] == Err::<
            FixtureDef,
            crate::fixture_def::FixtureDefLoadError,
        >(le),
    }
}

/// Checks that `fixture_id` may take `occupied_addresses`: no slot is taken
/// by another fixture. Otherwise lists each conflicting slot.
pub fn validate_fixture_address(
    fixture_id: FixtureId,
    occupied_addresses: &Vec<Slot>,
    address_index: &AddressIndex,
) -> (r: Result<(), ValidateError>)
    ensures
        match r {
            Ok(()) => conflicts_of(address_index@, fixture_id, occupied_addresses@).len() == 0,
            Err(ValidateError::AddressConflicted(cs)) => cs@ == conflicts_of(
                address_index@,
                fixture_id,
                occupied_addresses@,
            ) && cs@.len() > 0,
        },
{
    let mut conflicts: Vec<AddressConflictedError> = Vec::new();
    let n = occupied_addresses.len();
    let mut i: usize = 0;
    while i < n
        invariant
            n == occupied_addresses@.len(),
            i <= n,
            conflicts@ == conflicts_of(address_index@, fixture_id, occupied_addresses@.take(i as int)),
        decreases n - i,
    {
        let (uni, adr) = occupied_addresses[i];
        assert(occupied_addresses@.take(i + 1).drop_last() =~= occupied_addresses@.take(i as int));
        match address_index.get(uni, adr) {
            Some(entry) => {
                let (existing_fixture_id, offset) = *entry;
                if !(existing_fixture_id == fixture_id) {
                    conflicts.push(
                        AddressConflictedError {
                            universe: uni,
                            address: adr,
                            existing_fixture_id,
                            existing_offset: offset,
                            new_fixture_id: fixture_id,
                            new_offset: i,
                        },
                    );
                }
            },
            None => {},
        }
        i = i + 1;
    }
    assert(occupied_addresses@.take(n as int) =~= occupied_addresses@);
    if conflicts.len() == 0 {
        Ok(())
    } else {
        Err(ValidateError::AddressConflicted(conflicts))
    }
}

/// The slots of `fixture` after `change`, where `def` is its definition.
pub fn compute_occupied_addresses(fixture: &Fixture, def: &FixtureDef, change: &FixtureChange) -> (r:
    Result<Vec<Slot>, ModeNotFoundError>)
    requires
        def.mode_map().contains_key(fixture.mode_spec()@),
    ensures
        match r {
            Ok(s) => def.mode_map().contains_key(fixture.changed(*change).mode_spec()@) && s@
                == occupied_spec(
                fixture.changed(*change).universe_spec(),
                fixture.changed(*change).address_spec(),
                def.mode_map()[fixture.changed(*change).mode_spec()@].channels().len(),
            ),
            Err(e) => change matches FixtureChange::Mode(m) && !def.mode_map().contains_key(m@)
                && e.fixture_def == def.id_spec() && e.mode == m,
        },
{
    proof {
        lemma_changed(*fixture, *change);
    }
    match change {
        FixtureChange::Mode(mode_name) => match def.mode(mode_name) {
            Some(mode) => Ok(mode.occupied_addresses(fixture.universe_id(), fixture.address())),
            None => Err(ModeNotFoundError { fixture_def: def.id().duplicate(), mode: mode_name.clone() }),
        },
        FixtureChange::Address(adr) => match def.mode(fixture.fixture_mode()) {
            Some(mode) => Ok(mode.occupied_addresses(fixture.universe_id(), *adr)),
            None => vstd::pervasive::unreached(),
        },
        FixtureChange::Universe(u_id) => match def.mode(fixture.fixture_mode()) {
            Some(mode) => Ok(mode.occupied_addresses(*u_id, fixture.address())),
            None => vstd::pervasive::unreached(),
        },
        _ => match def.mode(fixture.fixture_mode()) {
            Some(mode) => Ok(mode.occupied_addresses(fixture.universe_id(), fixture.address())),
            None => vstd::pervasive::unreached(),
        },
    }
}

/// `f` can be added to `v`: its id is new, its definition and mode resolve
/// and its slots are free.
pub open spec fn add_fixture_accepted(v: DocView, f: Fixture) -> bool {
    &&& !v.fixtures.contains_key(f.id_spec())
    &&& occupancy(v.catalog, f) is Some
    &&& conflicts_of(v.index, f.id_spec(), occupancy(v.catalog, f)->Some_0).len() == 0
}

/// `e` is the error that adding `f` to `v` is refused with: checked in the
/// order id, definition, mode, slots.
pub open spec fn add_fixture_error(v: DocView, f: Fixture, e: FixtureAddError) -> bool {
    let id = f.id_spec();
    let def_id = f.def_spec();
    match e {
        FixtureAddError::FixtureAlreadyExists(x) => v.fixtures.contains_key(id) && x == id,
        FixtureAddError::FixtureDefNotFound(d) => {
            &&& !v.fixtures.contains_key(id)
            &&& lookup_def(v.catalog, def_id@) is None
            &&& d.fixture_id == id
            &&& d.fixture_def_id == def_id
            &&& lookup_failure(v.catalog, def_id@, d.source)
        },
        FixtureAddError::ModeNotFound(m) => {
            &&& !v.fixtures.contains_key(id)
            &&& lookup_def(v.catalog, def_id@) is Some
            &&& !lookup_def(v.catalog, def_id@)->Some_0.mode_map().contains_key(f.mode_spec()@)
            &&& m.fixture_def == def_id
            &&& m.mode == f.mode_spec()
        },
        FixtureAddError::AddressValidateError(ValidateError::AddressConflicted(cs)) => {
            &&& !v.fixtures.contains_key(id)
            &&& occupancy(v.catalog, f) is Some
            &&& cs@ == conflicts_of(v.index, id, occupancy(v.catalog, f)->Some_0)
            &&& cs@.len() > 0
        },
    }
}

/// Validates adding `fixture` to `state`.
pub fn add_fixture(state: &DocState, fixture: Fixture) -> (r: Result<DocCommand, FixtureAddError>)
    requires
        state@.consistent(),
    ensures
        match r {
            Ok(cmd) => add_fixture_accepted(state@, fixture) && cmd@ == CommandView::AddFixture(
                fixture,
                occupancy(state@.catalog, fixture)->Some_0,
            ) && cmd@.enabled(state@),
            Err(e) => !add_fixture_accepted(state@, fixture) && add_fixture_error(state@, fixture, e),
        },
{
    match add_fixture_slots(state, &fixture) {
        Ok(occupied) => Ok(AddFixtureCommand::new(fixture, occupied)),
        Err(e) => Err(e),
    }
}

/// The slots that `fixture` would take in `state`, if it can be added.
pub fn add_fixture_slots(state: &DocState, fixture: &Fixture) -> (r: Result<Vec<Slot>, FixtureAddError>)
    requires
        state@.consistent(),
    ensures
        match r {
            Ok(s) => {
                &&& add_fixture_accepted(state@, *fixture)
                &&& s@ == occupancy(state@.catalog, *fixture)->Some_0
                &&& forall|i: int| 0 <= i < s@.len() ==> !state@.index.contains_key(#[trigger] s@[i])
            },
            Err(e) => !add_fixture_accepted(state@, *fixture) && add_fixture_error(state@, *fixture, e),
        },
{
    let id = fixture.id();
    if state.fixture(&id).is_some() {
        return Err(FixtureAddError::FixtureAlreadyExists(id));
    }
    let occupied = match state.fixture_defs().get(fixture.fixture_def()) {
        Ok(def) => match def.mode(fixture.fixture_mode()) {
            Some(mode) => mode.occupied_addresses(fixture.universe_id(), fixture.address()),
            None => {
                return Err(
                    FixtureAddError::ModeNotFound(
                        ModeNotFoundError {
                            fixture_def: fixture.fixture_def().duplicate(),
                            mode: fixture.fixture_mode().clone(),
                        },
                    ),
                );
            },
        },
        Err(e) => {
            return Err(
                FixtureAddError::FixtureDefNotFound(
                    FixtureDefNotFoundError {
                        fixture_id: id,
                        fixture_def_id: fixture.fixture_def().duplicate(),
                        source: e,
                    },
                ),
            );
        },
    };
    match validate_fixture_address(id, &occupied, state.address_index()) {
        Ok(()) => {},
        Err(e) => {
            return Err(FixtureAddError::AddressValidateError(e));
        },
    }
    proof {
        let v = state@;
        lemma_conflicts_empty(v.index, id, occupied@);
        assert forall|i: int| 0 <= i < occupied@.len() implies !v.index.contains_key(
            #[trigger] occupied@[i],
        ) by {
            if v.index.contains_key(occupied@[i]) {
                assert(v.index[occupied@[i]].0 == id);
                assert(v.fixtures.contains_key(v.index[occupied@[i]].0));
            }
        }
    }
    Ok(occupied)
}


/// A change of `change`'s kind moves the fixture's slots.
pub open spec fn moves_slots(change: FixtureChange) -> bool {
    change is Address || change is Mode || change is Universe
}

/// `change` can be made to fixture `id` of `v`: the fixture exists, it still
/// resolves after the change, and where the change moves it, its new slots
/// are free.
pub open spec fn update_fixture_accepted(v: DocView, id: FixtureId, change: FixtureChange) -> bool {
    &&& v.fixtures.contains_key(id)
    &&& occupancy(v.catalog, v.fixtures[id].changed(change)) is Some
    &&& moves_slots(change) ==> conflicts_of(
        v.index,
        id,
        occupancy(v.catalog, v.fixtures[id].changed(change))->Some_0,
    ).len() == 0
}

/// `e` is the error that changing fixture `id` of `v` is refused with.
pub open spec fn update_fixture_error(v: DocView, id: FixtureId, change: FixtureChange, e: FixtureUpdateError) -> bool {
    let f = v.fixtures[id];
    match e {
        FixtureUpdateError::FixtureNotFound(x) => !v.fixtures.contains_key(id) && x
            == FixtureNotFoundError(id),
        FixtureUpdateError::ModeNotFound(m) => {
            let def = lookup_def(v.catalog, f.def_spec()@)->Some_0;
            &&& v.fixtures.contains_key(id)
            &&& change matches FixtureChange::Mode(name) && !def.mode_map().contains_key(name@)
                && m.mode == name
            &&& m.fixture_def == def.id_spec()
        },
        FixtureUpdateError::AddressValidateError(ValidateError::AddressConflicted(cs)) => {
            &&& v.fixtures.contains_key(id)
            &&& occupancy(v.catalog, f.changed(change)) is Some
            &&& moves_slots(change)
            &&& cs@ == conflicts_of(v.index, id, occupancy(v.catalog, f.changed(change))->Some_0)
            &&& cs@.len() > 0
        },
    }
}

/// Validates changing fixture `id` of `state`.
pub fn update_fixture(state: &DocState, id: FixtureId, change: FixtureChange) -> (r: Result<
    DocCommand,
    FixtureUpdateError,
>)
    requires
        state@.consistent(),
    ensures
        match r {
            Ok(cmd) => update_fixture_accepted(state@, id, change) && cmd@ == CommandView::UpdateFixture(
                id,
                change,
                state@.occ(id),
                occupancy(state@.catalog, state@.fixtures[id].changed(change))->Some_0,
            ) && cmd@.enabled(state@),
            Err(e) => !update_fixture_accepted(state@, id, change) && update_fixture_error(
                state@,
                id,
                change,
                e,
            ),
        },
{
    match update_fixture_slots(state, id, &change) {
        Ok((old_occupied, new_occupied)) => Ok(UpdateFixtureCommand::new(id, change, old_occupied, new_occupied)),
        Err(e) => Err(e),
    }
}

/// The slots fixture `id` of `state` takes now and would take after
/// `change`, if the change can be made.
pub fn update_fixture_slots(state: &DocState, id: FixtureId, change: &FixtureChange) -> (r: Result<
    (Vec<Slot>, Vec<Slot>),
    FixtureUpdateError,
>)
    requires
        state@.consistent(),
    ensures
        match r {
            Ok((o, n)) => {
                &&& update_fixture_accepted(state@, id, *change)
                &&& o@ == state@.occ(id)
                &&& n@ == occupancy(state@.catalog, state@.fixtures[id].changed(*change))->Some_0
                &&& CommandView::UpdateFixture(id, *change, o@, n@).enabled(state@)
            },
            Err(e) => !update_fixture_accepted(state@, id, *change) && update_fixture_error(
                state@,
                id,
                *change,
                e,
            ),
        },
{
    let ghost v = state@;
    let fxt = match state.fixture(&id) {
        Some(f) => f,
        None => {
            return Err(FixtureUpdateError::FixtureNotFound(FixtureNotFoundError(id)));
        },
    };
    proof {
        lemma_changed(*fxt, *change);
    }
    let def = match state.fixture_defs().get(fxt.fixture_def()) {
        Ok(d) => d,
        Err(_) => vstd::pervasive::unreached(),
    };
    let new_occupied = match compute_occupied_addresses(fxt, def, change) {
        Ok(s) => s,
        Err(e) => {
            return Err(FixtureUpdateError::ModeNotFound(e));
        },
    };
    let moves = match change {
        FixtureChange::Address(_) => true,
        FixtureChange::Mode(_) => true,
        FixtureChange::Universe(_) => true,
        _ => false,
    };
    if moves {
        match validate_fixture_address(id, &new_occupied, state.address_index()) {
            Ok(()) => {},
            Err(e) => {
                return Err(FixtureUpdateError::AddressValidateError(e));
            },
        }
    }
    let old_occupied = match def.mode(fxt.fixture_mode()) {
        Some(mode) => mode.occupied_addresses(fxt.universe_id(), fxt.address()),
        None => vstd::pervasive::unreached(),
    };
    proof {
        lemma_conflicts_empty(v.index, id, new_occupied@);
        if !moves {
            assert(new_occupied@ == old_occupied@);
            assert forall|i: int|
                0 <= i < new_occupied@.len() && v.index.contains_key(
                    #[trigger] new_occupied@[i],
                ) implies v.index[new_occupied@[i]].0 == id by {
                assert(v.index[v.occ(id)[i]] == (id, i as usize));
            }
        }
    }
    Ok((old_occupied, new_occupied))
}

/// Validates removing fixture `id` of `state`.
pub fn remove_fixture(state: &DocState, id: &FixtureId) -> (r: Result<DocCommand, FixtureRemoveError>)
    ensures
        match r {
            Ok(cmd) => state@.fixtures.contains_key(*id) && cmd@ == CommandView::RemoveFixture(*id),
            Err(e) => !state@.fixtures.contains_key(*id) && e == FixtureRemoveError::FixtureNotFound(
                FixtureNotFoundError(*id),
            ),
        },
{
    if state.fixture(id).is_none() {
        return Err(FixtureRemoveError::FixtureNotFound(FixtureNotFoundError(*id)));
    }
    Ok(RemoveFixtureCommand::new(*id))
}

/// Validates adding `spec`: its id must be new.
pub fn add_effect_spec(state: &DocState, spec: EffectSpec) -> (r: Result<DocCommand, AddEffectSpecError>)
    ensures
        match r {
            Ok(cmd) => !state@.effect_specs.contains_key(spec.id_spec()) && cmd@
                == CommandView::AddEffectSpec(spec),
            Err(e) => state@.effect_specs.contains_key(spec.id_spec()) && e
                == AddEffectSpecError::IdAlreadyUsed(spec.id_spec()),
        },
{
    let id = spec.id();
    if state.effect_spec(&id).is_some() {
        return Err(AddEffectSpecError::IdAlreadyUsed(id));
    }
    Ok(AddEffectSpecCommand::new(spec))
}

/// Validates changing spec `id`: it must exist.
pub fn update_effect_spec(state: &DocState, id: EffectSpecId, change: EffectSpecChange) -> (r:
    Result<DocCommand, UpdateEffectSpecError>)
    requires
        state@.consistent(),
    ensures
        match r {
            Ok(cmd) => state@.effect_specs.contains_key(id) && (cmd@ matches CommandView::UpdateEffectSpec(
                old,
                new,
            ) && old == state@.effect_specs[id] && old.changed_to(change, new)) && cmd@.enabled(
                state@,
            ),
            Err(e) => !state@.effect_specs.contains_key(id) && e == UpdateEffectSpecError::NotFound(
                id,
            ),
        },
{
    let cur = match state.effect_spec(&id) {
        Some(s) => s,
        None => {
            return Err(UpdateEffectSpecError::NotFound(id));
        },
    };
    let old = cur.duplicate();
    let mut new = cur.duplicate();
    new.apply_change(change);
    Ok(UpdateEffectSpecCommand::new(old, new))
}

/// Validates removing spec `id`: it must exist.
pub fn remove_effect_spec(state: &DocState, id: EffectSpecId) -> (r: Result<DocCommand, RemoveEffectSpecError>)
    ensures
        match r {
            Ok(cmd) => state@.effect_specs.contains_key(id) && cmd@ == CommandView::RemoveEffectSpec(
                id,
            ),
            Err(e) => !state@.effect_specs.contains_key(id) && e == RemoveEffectSpecError::NotFound(
                id,
            ),
        },
{
    if state.effect_spec(&id).is_none() {
        return Err(RemoveEffectSpecError::NotFound(id));
    }
    Ok(RemoveEffectSpecCommand::new(id))
}

/// Validates adding `tmpl`: its id must be new.
pub fn add_effect_template(state: &DocState, tmpl: EffectTemplate) -> (r: Result<
    DocCommand,
    AddEffectTemplateError,
>)
    ensures
        match r {
            Ok(cmd) => !state@.effect_templates.contains_key(tmpl.id_spec()) && cmd@
                == CommandView::AddEffectTemplate(tmpl),
            Err(e) => state@.effect_templates.contains_key(tmpl.id_spec()) && e
                == AddEffectTemplateError::IdAlreadyUsed(tmpl.id_spec()),
        },
{
    let id = tmpl.id();
    if state.effect_template(&id).is_some() {
        return Err(AddEffectTemplateError::IdAlreadyUsed(id));
    }
    Ok(AddEffectTemplateCommand::new(tmpl))
}

/// Validates changing template `id`: it must exist.
pub fn update_effect_template(
    state: &DocState,
    id: EffectTemplateId,
    change: EffectTemplateChange,
) -> (r: Result<DocCommand, UpdateEffectTemplateError>)
    requires
        state@.consistent(),
    ensures
        match r {
            Ok(cmd) => state@.effect_templates.contains_key(id) && (cmd@ matches CommandView::UpdateEffectTemplate(
                old,
                new,
            ) && old == state@.effect_templates[id] && old.changed_to(change, new)) && cmd@.enabled(
                state@,
            ),
            Err(e) => !state@.effect_templates.contains_key(id) && e
                == UpdateEffectTemplateError::NotFound(id),
        },
{
    let cur = match state.effect_template(&id) {
        Some(t) => t,
        None => {
            return Err(UpdateEffectTemplateError::NotFound(id));
        },
    };
    let old = cur.duplicate();
    let mut new = cur.duplicate();
    new.apply_change(change);
    Ok(UpdateEffectTemplateCommand::new(old, new))
}

/// Validates removing template `id`: it must exist.
pub fn remove_effect_template(state: &DocState, id: EffectTemplateId) -> (r: Result<
    DocCommand,
    RemoveEffectTemplateError,
>)
    ensures
        match r {
            Ok(cmd) => state@.effect_templates.contains_key(id) && cmd@
                == CommandView::RemoveEffectTemplate(id),
            Err(e) => !state@.effect_templates.contains_key(id) && e
                == RemoveEffectTemplateError::NotFound(id),
        },
{
    if state.effect_template(&id).is_none() {
        return Err(RemoveEffectTemplateError::NotFound(id));
    }
    Ok(RemoveEffectTemplateCommand::new(id))
}

/// Validates adding `effect`: its id must be new.
pub fn add_effect(state: &DocState, effect: Effect) -> (r: Result<DocCommand, AddEffectError>)
    ensures
        match r {
            Ok(cmd) => !state@.effects.contains_key(effect.id_spec()) && cmd@ == CommandView::AddEffect(
                effect,
            ),
            Err(e) => state@.effects.contains_key(effect.id_spec()) && e == AddEffectError::IdAlreadyUsed(
                effect.id_spec(),
            ),
        },
{
    let id = effect.id();
    if state.effect(&id).is_some() {
        return Err(AddEffectError::IdAlreadyUsed(id));
    }
    Ok(AddEffectCommand::new(effect))
}

/// Validates changing effect `id`: it must exist.
pub fn update_effect(state: &DocState, id: EffectId, change: EffectChange) -> (r: Result<
    DocCommand,
    UpdateEffectError,
>)
    requires
        state@.consistent(),
    ensures
        match r {
            Ok(cmd) => state@.effects.contains_key(id) && (cmd@ matches CommandView::UpdateEffect(
                old,
                new,
            ) && old == state@.effects[id] && old.changed_to(change, new)) && cmd@.enabled(state@),
            Err(e) => !state@.effects.contains_key(id) && e == UpdateEffectError::NotFound(id),
        },
{
    let cur = match state.effect(&id) {
        Some(e) => e,
        None => {
            return Err(UpdateEffectError::NotFound(id));
        },
    };
    let old = cur.duplicate();
    let mut new = cur.duplicate();
    new.apply_change(change);
    Ok(UpdateEffectCommand::new(old, new))
}

/// Validates removing effect `id`: it must exist.
pub fn remove_effect(state: &DocState, id: EffectId) -> (r: Result<DocCommand, RemoveEffectError>)
    ensures
        match r {
            Ok(cmd) => state@.effects.contains_key(id) && cmd@ == CommandView::RemoveEffect(id),
            Err(e) => !state@.effects.contains_key(id) && e == RemoveEffectError::NotFound(id),
        },
{
    if state.effect(&id).is_none() {
        return Err(RemoveEffectError::NotFound(id));
    }
    Ok(RemoveEffectCommand::new(id))
}

} // verus!
