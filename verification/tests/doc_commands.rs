use tsukuyomidmx::doc::commands::{AddFixtureCommand, DocCommand, RemoveFixtureCommand, UpdateFixtureCommand};
use tsukuyomidmx::doc::decider;
use tsukuyomidmx::doc::document::Doc;
use tsukuyomidmx::doc::errors::{FixtureAddError, FixtureDefNotFoundError, ModeNotFoundError, ValidateError};
use tsukuyomidmx::doc::{DocEffect, DocState};
use tsukuyomidmx::fixture::{Fixture, FixtureChange, MergeMode};
use tsukuyomidmx::fixture_def::{
    Capability, CapabilityKind, ChannelDef, FixtureDef, FixtureDefId, FixtureDefRegistry, FixtureMode,
};
use tsukuyomidmx::universe::{DmxAddress, UniverseId};

fn channel(kind: CapabilityKind) -> ChannelDef {
    ChannelDef::new(MergeMode::HTP, Capability::Single(kind))
}

/// A document whose registry holds one definition with a mode "4 Channel"
/// of dimmer, red, green and blue.
fn make_doc_state_with_simple_def() -> (DocState, FixtureDefId) {
    let mut def = FixtureDef::new("Test Manufacturer".to_string(), "Test Model".to_string());
    def.insert_channel("Dimmer".to_string(), channel(CapabilityKind::Intensity));
    def.insert_channel("Red".to_string(), channel(CapabilityKind::Red));
    def.insert_channel("Green".to_string(), channel(CapabilityKind::Green));
    def.insert_channel("Blue".to_string(), channel(CapabilityKind::Blue));
    let mode = FixtureMode::new(vec![
        ("Dimmer".to_string(), 0),
        ("Red".to_string(), 1),
        ("Green".to_string(), 2),
        ("Blue".to_string(), 3),
    ])
    .unwrap();
    def.insert_mode("4 Channel".to_string(), mode);
    let def_id = def.id().duplicate();
    let mut rg = FixtureDefRegistry::new();
    rg.insert(def_id.duplicate(), def);
    (DocState::new(rg), def_id)
}

fn make_simple_fixture(def_id: FixtureDefId) -> Fixture {
    Fixture::new(
        "Test Fixture".to_string(),
        UniverseId::new(0),
        DmxAddress::first(),
        def_id,
        "4 Channel".to_string(),
        0,
        0,
    )
}

fn occupied(state: &DocState, def_id: &FixtureDefId, fxt: &Fixture) -> Vec<(UniverseId, DmxAddress)> {
    state
        .fixture_defs()
        .get(def_id)
        .unwrap()
        .mode(fxt.fixture_mode())
        .unwrap()
        .occupied_addresses(fxt.universe_id(), fxt.address())
}

fn first_four_slots_taken(state: &DocState) -> Vec<bool> {
    (1..=4)
        .map(|n| state.address_index().get(UniverseId::new(0), DmxAddress::new(n).unwrap()).is_some())
        .collect()
}

#[test]
fn add_fixture_works() {
    let (mut state, def_id) = make_doc_state_with_simple_def();

    let fxt = make_simple_fixture(def_id.duplicate());
    let fxt_id = fxt.id();
    let occupied_addresses = occupied(&state, &def_id, &fxt);

    let cmd = AddFixtureCommand::new(fxt, occupied_addresses);
    let before = format!("{:?}", cmd);

    let (rev_cmd, effect) = cmd.apply(&mut state);

    assert!(state.fixture(&fxt_id).is_some());
    assert!(first_four_slots_taken(&state).iter().all(|t| *t));
    assert!(matches!(effect, DocEffect::FixtureAdded(id) if id == fxt_id));

    let (rev_rev_cmd, _) = rev_cmd.apply(&mut state);
    assert!(matches!(rev_rev_cmd, DocCommand::AddFixture(_)));
    assert_eq!(before, format!("{:?}", rev_rev_cmd));
}

#[test]
fn update_fixture_rename_works() {
    let (mut state, def_id) = make_doc_state_with_simple_def();

    let fxt = make_simple_fixture(def_id.duplicate());
    let fxt_id = fxt.id();
    let occupied_addresses = occupied(&state, &def_id, &fxt);

    let _ = AddFixtureCommand::new(fxt, occupied_addresses.clone()).apply(&mut state);

    let cmd = UpdateFixtureCommand::new(
        fxt_id,
        FixtureChange::Rename("Renamed Fixture".to_string()),
        occupied_addresses.clone(),
        occupied_addresses,
    );
    let before = format!("{:?}", cmd);
    let (rev_cmd, effect) = cmd.apply(&mut state);

    assert_eq!(state.fixture(&fxt_id).unwrap().name(), "Renamed Fixture");
    assert!(matches!(effect, DocEffect::FixtureUpdated(id) if id == fxt_id));

    let (rev_rev_cmd, _) = rev_cmd.apply(&mut state);
    assert!(matches!(rev_rev_cmd, DocCommand::UpdateFixture(_)));
    assert_eq!(before, format!("{:?}", rev_rev_cmd));
}

#[test]
fn remove_fixture_works() {
    let (mut state, def_id) = make_doc_state_with_simple_def();

    let fxt = make_simple_fixture(def_id.duplicate());
    let fxt_id = fxt.id();
    let occupied_addresses = occupied(&state, &def_id, &fxt);

    let _ = AddFixtureCommand::new(fxt, occupied_addresses).apply(&mut state);

    let cmd = RemoveFixtureCommand::new(fxt_id);
    let before = format!("{:?}", cmd);
    let (rev_cmd, effect) = cmd.apply(&mut state);

    assert!(state.fixture(&fxt_id).is_none());
    assert!(first_four_slots_taken(&state).iter().all(|t| !*t));
    assert!(matches!(effect, DocEffect::FixtureRemoved(id) if id == fxt_id));

    let (rev_rev_cmd, _) = rev_cmd.apply(&mut state);
    assert!(matches!(rev_rev_cmd, DocCommand::RemoveFixture(_)));
    assert_eq!(before, format!("{:?}", rev_rev_cmd));
}

#[test]
fn add_fixture_returns_ok() {
    let (state, def_id) = make_doc_state_with_simple_def();
    let fxt = make_simple_fixture(def_id);
    let fxt_id = fxt.id();

    let cmd = decider::add_fixture(&state, fxt).expect("should return Ok()");

    let DocCommand::AddFixture(add) = cmd else { panic!("should be an add command") };
    assert_eq!(add.fixture().id(), fxt_id);
    let addresses = add.occupied_addresses();
    assert_eq!(addresses.len(), 4);
    assert_eq!(addresses[0], (UniverseId::new(0), DmxAddress::first()));
}

#[test]
fn add_fixture_returns_def_not_found_error() {
    let state = DocState::new(FixtureDefRegistry::new());

    let def_id = FixtureDefId::new_invalid();
    let fxt = make_simple_fixture(def_id.duplicate());
    let fxt_id = fxt.id();

    let res = decider::add_fixture(&state, fxt);
    assert!(matches!(res, Err(FixtureAddError::FixtureDefNotFound(
        FixtureDefNotFoundError { fixture_id: f_id, fixture_def_id: d_id, source: _ }
    )) if f_id == fxt_id && d_id.manufacturer() == def_id.manufacturer() && d_id.model() == def_id.model()));
}

#[test]
fn add_fixture_returns_mode_not_found_error() {
    let (state, def_id) = make_doc_state_with_simple_def();

    let fxt = Fixture::new(
        "Test Fixture".to_string(),
        UniverseId::new(0),
        DmxAddress::first(),
        def_id.duplicate(),
        "Dummy Mode".to_string(),
        0,
        0,
    );

    let res = decider::add_fixture(&state, fxt);
    assert!(matches!(res, Err(FixtureAddError::ModeNotFound(ModeNotFoundError {
        fixture_def: d_id,
        mode,
    })) if d_id.manufacturer() == def_id.manufacturer() && d_id.model() == def_id.model() && mode == "Dummy Mode"));
}

#[test]
fn add_fixture_returns_address_validate_error() {
    let (mut state, def_id) = make_doc_state_with_simple_def();
    let first = make_simple_fixture(def_id.duplicate());
    let cmd = decider::add_fixture(&state, first).unwrap();
    let _ = cmd.apply(&mut state);

    // The second fixture starts at address 3 and overlaps addresses 3 and 4.
    let second = Fixture::new(
        "Second".to_string(),
        UniverseId::new(0),
        DmxAddress::new(3).unwrap(),
        def_id,
        "4 Channel".to_string(),
        0,
        0,
    );
    let res = decider::add_fixture(&state, second);
    let Err(FixtureAddError::AddressValidateError(ValidateError::AddressConflicted(conflicts))) = res else {
        panic!("should be an address conflict")
    };
    let addresses: Vec<usize> = conflicts.iter().map(|c| c.address.value()).collect();
    assert_eq!(addresses, vec![3, 4]);
}

#[test]
fn add_fixture_returns_already_exists_error() {
    let (mut state, def_id) = make_doc_state_with_simple_def();
    let fxt = make_simple_fixture(def_id.duplicate());
    let fxt_id = fxt.id();
    let occupied_addresses = occupied(&state, &def_id, &fxt);
    let _ = AddFixtureCommand::new(fxt, occupied_addresses).apply(&mut state);

    // The same fixture again, moved to a free universe.
    let again = state.fixture(&fxt_id).unwrap().clone();
    let mut moved = again;
    moved.apply_change(FixtureChange::Universe(UniverseId::new(1)));
    let res = decider::add_fixture(&state, moved);
    assert!(matches!(res, Err(FixtureAddError::FixtureAlreadyExists(id)) if id == fxt_id));
}

#[test]
fn undo_and_redo_report_what_they_change() {
    let (state, def_id) = make_doc_state_with_simple_def();
    let mut doc = Doc::from_state(state);
    let fxt = make_simple_fixture(def_id);
    let id = fxt.id();
    doc.add_fixture(fxt).unwrap();
    assert!(matches!(doc.undo(), DocEffect::FixtureRemoved(r) if r == id));
    assert!(matches!(doc.redo(), DocEffect::FixtureAdded(a) if a == id));
}

#[test]
fn a_new_change_keeps_what_can_be_redone() {
    let (state, def_id) = make_doc_state_with_simple_def();
    let mut doc = Doc::from_state(state);
    let a = make_simple_fixture(def_id.duplicate());
    let a_id = a.id();
    doc.add_fixture(a).unwrap();
    let _ = doc.undo();
    let b = Fixture::new(
        "Other Fixture".to_string(),
        UniverseId::new(0),
        DmxAddress::new(10).unwrap(),
        def_id,
        "4 Channel".to_string(),
        0,
        0,
    );
    doc.add_fixture(b).unwrap();
    assert!(doc.redo_pending());
    assert!(doc.can_redo());
    assert!(matches!(doc.redo(), DocEffect::FixtureAdded(x) if x == a_id));
    assert!(doc.state_view().fixture(&a_id).is_some());
}

#[test]
fn a_change_that_no_longer_fits_is_not_redone() {
    let (state, def_id) = make_doc_state_with_simple_def();
    let mut doc = Doc::from_state(state);
    let a = make_simple_fixture(def_id.duplicate());
    doc.add_fixture(a).unwrap();
    let _ = doc.undo();
    doc.add_fixture(make_simple_fixture(def_id)).unwrap();
    assert!(doc.redo_pending());
    assert!(!doc.can_redo());
}
