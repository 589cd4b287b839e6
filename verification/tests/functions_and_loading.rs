use tsukuyomidmx::doc::document::Doc;
use tsukuyomidmx::doc::errors::AddressIndexConstructError;
use tsukuyomidmx::doc::state::AddressIndex;
use tsukuyomidmx::doc::DocState;
use tsukuyomidmx::effects::runtime::EffectRuntime;
use tsukuyomidmx::effects::{Diagnostics, Effect, EffectChange, SequenceEffectBody, SequenceStep};
use tsukuyomidmx::fixture::{Fixture, MergeMode};
use tsukuyomidmx::fixture_def::{
    Capability, CapabilityKind, ChannelDef, FixtureDef, FixtureDefId, FixtureDefLoadError, FixtureDefRegistry,
    FixtureMode,
};
use tsukuyomidmx::functions::{
    FunctionBody, FunctionBodyOrId, FunctionPrototype, FunctionPrototypeBody, SequenceFunctionPrototypeBody,
    SequenceStep as FunctionStep, SimpleFunctionPrototypeBody, SimpleFunctionRuntime,
};
use tsukuyomidmx::ids::{EffectId, FixtureId};
use tsukuyomidmx::time::Duration;
use tsukuyomidmx::universe::{DmxAddress, UniverseId};

fn rgb_registry() -> (FixtureDefRegistry, FixtureDefId) {
    let mut def = FixtureDef::new("Test Manufacturer".to_string(), "Test Model".to_string());
    let chans = [
        ("Dimmer", CapabilityKind::Intensity),
        ("Red", CapabilityKind::Red),
        ("Green", CapabilityKind::Green),
        ("Blue", CapabilityKind::Blue),
    ];
    let mut order = Vec::new();
    for (i, (name, kind)) in chans.iter().enumerate() {
        def.insert_channel(name.to_string(), ChannelDef::new(MergeMode::HTP, Capability::Single(*kind)));
        order.push((name.to_string(), i));
    }
    def.insert_mode("4 Channel".to_string(), FixtureMode::new(order).unwrap());
    let mut dimmer_only = FixtureDef::new("Test Manufacturer".to_string(), "Dimmer Only".to_string());
    dimmer_only.insert_channel("Dimmer".to_string(), ChannelDef::new(MergeMode::HTP, Capability::Single(CapabilityKind::Intensity)));
    dimmer_only.insert_mode("1 Channel".to_string(), FixtureMode::new(vec![("Dimmer".to_string(), 0)]).unwrap());
    let id = def.id().duplicate();
    let mut rg = FixtureDefRegistry::new();
    rg.insert(id.duplicate(), def);
    rg.insert(dimmer_only.id().duplicate(), dimmer_only);
    (rg, id)
}

fn fixture_at(def: &FixtureDefId, mode: &str, address: usize) -> Fixture {
    Fixture::new(
        "F".to_string(),
        UniverseId::new(0),
        DmxAddress::new(address).unwrap(),
        def.duplicate(),
        mode.to_string(),
        0,
        0,
    )
}

#[test]
fn simple_prototype_binds_dimmer_and_color() {
    let (rg, def_id) = rgb_registry();
    let mut doc = Doc::new_with_def_registry(rg);
    let f = fixture_at(&def_id, "4 Channel", 1);
    let fid = f.id();
    doc.add_fixture(f).unwrap();
    let proto = SimpleFunctionPrototypeBody::new(Some(255), Some([10, 20, 30]));
    let mut diag = Diagnostics::new();
    let body = proto.bind_to_inner(&vec![vec![fid]], doc.state_view(), &mut diag).unwrap();
    assert_eq!(diag.len(), 0);
    let v = body.values();
    assert_eq!(v.len(), 4);
    assert_eq!(v.get(&(fid, 0)), Some(&255));
    assert_eq!(v.get(&(fid, 1)), Some(&10));
    assert_eq!(v.get(&(fid, 3)), Some(&30));

    let mut rt = SimpleFunctionRuntime;
    let cmds = rt.run(&FunctionBody::Simple(body), Duration::from_millis(10), doc.state_view());
    assert_eq!(cmds.len(), 4);
}

#[test]
fn simple_prototype_reports_missing_channels_and_arguments() {
    let (rg, _) = rgb_registry();
    let dimmer_id = FixtureDefId::new("Test Manufacturer".to_string(), "Dimmer Only".to_string());
    let mut doc = Doc::new_with_def_registry(rg);
    let f = fixture_at(&dimmer_id, "1 Channel", 1);
    let fid = f.id();
    doc.add_fixture(f).unwrap();
    let proto = SimpleFunctionPrototypeBody::new(Some(255), Some([1, 2, 3]));
    let mut diag = Diagnostics::new();
    assert!(proto.bind_to_inner(&vec![vec![fid]], doc.state_view(), &mut diag).is_none());
    assert_eq!(diag.len(), 1);
    assert!(proto.bind_to_inner(&vec![], doc.state_view(), &mut diag).is_none());
    assert!(proto.bind_to_inner(&vec![vec![], vec![]], doc.state_view(), &mut diag).is_none());
    assert_eq!(diag.len(), 3);
    assert_eq!(diag.message(0), "this fixture doesn't have rgb channel");
    assert_eq!(diag.message(1), "no argument provided");
    assert_eq!(diag.message(2), "too many arguments provided");
}

#[test]
fn sequence_prototype_binds_each_step() {
    let (rg, def_id) = rgb_registry();
    let mut doc = Doc::new_with_def_registry(rg);
    let f = fixture_at(&def_id, "4 Channel", 1);
    let fid = f.id();
    doc.add_fixture(f).unwrap();
    let step = |dimmer: u8| FunctionStep {
        duration: Duration::from_millis(500),
        fade_in: Duration::zero(),
        fade_out: Duration::zero(),
        body: FunctionBodyOrId::Body(FunctionPrototypeBody::Simple(SimpleFunctionPrototypeBody::new(Some(dimmer), None))),
    };
    let proto = FunctionPrototype::new(
        "Blink".to_string(),
        FunctionPrototypeBody::Sequence(SequenceFunctionPrototypeBody { steps: vec![step(255), step(0)] }),
    );
    let mut diag = Diagnostics::new();
    let fun = proto.bind_to("Blink on F".to_string(), &vec![vec![fid]], doc.state_view(), &mut diag).unwrap();
    assert_eq!(fun.name(), "Blink on F");
    let FunctionBody::Sequence(b) = fun.body() else { panic!("should be a sequence") };
    assert_eq!(b.steps.len(), 2);
    assert_eq!(b.steps[0].total_duration().as_nanos(), 500_000_000);
}

#[test]
fn resolvable_effects_are_recognised() {
    let mut doc = Doc::new_with_def_registry(FixtureDefRegistry::new());
    let simple = Effect::new_simple("S".to_string());
    let simple_id = simple.id();
    let mut seq = Effect::new_sequence("Q".to_string());
    seq.apply_change(EffectChange::Sequence(SequenceEffectBody::New(vec![SequenceStep::new(
        Duration::from_millis(100),
        None,
        simple_id,
    )])));
    let seq_id = seq.id();
    let mut dangling = Effect::new_sequence("D".to_string());
    dangling.apply_change(EffectChange::Sequence(SequenceEffectBody::New(vec![SequenceStep::new(
        Duration::from_millis(100),
        None,
        EffectId::new(),
    )])));
    let dangling_id = dangling.id();
    doc.add_effect(simple).unwrap();
    doc.add_effect(seq).unwrap();
    doc.add_effect(dangling).unwrap();
    let state = doc.state_view();
    assert!(state.can_create_runtime(simple_id, 1));
    assert!(!state.can_create_runtime(seq_id, 1));
    assert!(state.can_create_runtime(seq_id, 2));
    assert!(!state.can_create_runtime(dangling_id, 64));
    assert!(matches!(state.create_runtime(seq_id), EffectRuntime::Sequence(_)));
}

#[test]
fn project_data_builds_a_consistent_document() {
    let (rg, def_id) = rgb_registry();
    let a = fixture_at(&def_id, "4 Channel", 1);
    let b = fixture_at(&def_id, "4 Channel", 5);
    let (a_id, b_id) = (a.id(), b.id());
    let state = DocState::from_existing_data(rg, vec![a, b], vec![], vec![], vec![], vec![UniverseId::new(0)]).unwrap();
    assert!(state.check_consistent());
    assert_eq!(state.address_index().get(UniverseId::new(0), DmxAddress::new(5).unwrap()), Some(&(b_id, 0)));
    assert_eq!(state.address_index().get(UniverseId::new(0), DmxAddress::new(4).unwrap()), Some(&(a_id, 3)));
    let doc = Doc::from_state(state);
    assert!(!doc.can_undo());
}

#[test]
fn overlapping_project_data_is_not_consistent() {
    let (rg, def_id) = rgb_registry();
    let a = fixture_at(&def_id, "4 Channel", 1);
    let b = fixture_at(&def_id, "4 Channel", 3);
    let state = DocState::from_existing_data(rg, vec![a, b], vec![], vec![], vec![], vec![]).unwrap();
    assert!(!state.check_consistent());
}

#[test]
fn missing_definition_is_reported_when_indexing() {
    let (rg, _) = rgb_registry();
    let missing = FixtureDefId::new("Nobody".to_string(), "Nothing".to_string());
    let f = fixture_at(&missing, "Any", 1);
    let fid = f.id();
    let res = AddressIndex::from_fixtures(&vec![f], &rg);
    assert!(matches!(res, Err(AddressIndexConstructError::FixtureDefNotFound(e)) if e.fixture_id == fid));
    let _ = FixtureId::new();
}

#[test]
fn missing_mode_is_reported_when_indexing() {
    let (rg, def_id) = rgb_registry();
    let f = fixture_at(&def_id, "9 Channel", 1);
    let fid = f.id();
    let res = AddressIndex::from_fixtures(&vec![f], &rg);
    match res {
        Err(AddressIndexConstructError::ModeNotFound { fixture_id, source }) => {
            assert!(fixture_id == fid);
            assert_eq!(source.mode, "9 Channel");
        }
        _ => panic!("a missing mode should be reported"),
    }
}

#[test]
fn iter_metadata_works() {
    let mut def_rg = FixtureDefRegistry::new();
    for (manufacturer, model) in [("american-dj", "mega-tripar-profile-plus"), ("cameo", "auro-spot-300")] {
        def_rg.insert_entry(
            FixtureDefId::new(manufacturer.to_string(), model.to_string()),
            manufacturer.to_string(),
            model.to_string(),
            Err(FixtureDefLoadError::FixtureDefConverseFailed(format!("{manufacturer}/{model}"))),
        );
    }

    assert_eq!(2, def_rg.iter_metadata().len());
    assert!(def_rg
        .iter_metadata()
        .iter()
        .any(|v| v.manufacturer == "american-dj" && v.model == "mega-tripar-profile-plus"));
    assert!(def_rg.iter_metadata().iter().any(|v| v.manufacturer == "cameo" && v.model == "auro-spot-300"));
}

#[test]
fn missing_dimmer_is_reported_with_the_fixture_id() {
    let (mut rg, _) = rgb_registry();
    let mut red_only = FixtureDef::new("Test Manufacturer".to_string(), "Red Only".to_string());
    red_only.insert_channel("Red".to_string(), ChannelDef::new(MergeMode::HTP, Capability::Single(CapabilityKind::Red)));
    red_only.insert_mode("1 Channel".to_string(), FixtureMode::new(vec![("Red".to_string(), 0)]).unwrap());
    let red_id = red_only.id().duplicate();
    rg.insert(red_id.duplicate(), red_only);
    let mut doc = Doc::new_with_def_registry(rg);
    let fid = FixtureId::from_u128(0x67e5_5044_10b1_426f_9247_bb68_0e5f_e0c8);
    let f = Fixture::from_parts(
        fid,
        "F".to_string(),
        UniverseId::new(0),
        DmxAddress::new(1).unwrap(),
        red_id,
        "1 Channel".to_string(),
        0,
        0,
        Vec::new(),
    );
    doc.add_fixture(f).unwrap();
    let proto = SimpleFunctionPrototypeBody::new(Some(255), None);
    let mut diag = Diagnostics::new();
    assert!(proto.bind_to_inner(&vec![vec![fid]], doc.state_view(), &mut diag).is_none());
    assert_eq!(diag.len(), 1);
    assert_eq!(
        diag.message(0),
        "fixture FixtureId(67e55044-10b1-426f-9247-bb680e5fe0c8) doesn't have dimmer channel"
    );
}
