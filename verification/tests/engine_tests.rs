use tsukuyomidmx::doc::document::Doc;
use tsukuyomidmx::effects::{Effect, EffectChange, FixtureQuery, SequenceEffectBody, SequenceStep, SimpleEffectBody};
use tsukuyomidmx::time::Duration;
use tsukuyomidmx::engine::{Engine, EngineCommand, EngineError, EngineMessage, UniverseState};
use tsukuyomidmx::fixture::{Fixture, MergeMode};
use tsukuyomidmx::fixture_def::{
    Capability, CapabilityKind, ChannelDef, FixtureDef, FixtureDefId, FixtureDefRegistry, FixtureMode,
};
use tsukuyomidmx::doc::errors::{FixtureNotFoundError, ResolveError};
use tsukuyomidmx::doc::resolve::ResolvedAddress;
use tsukuyomidmx::ids::{EffectId, FixtureId};
use tsukuyomidmx::keyed::KeyedVec;
use tsukuyomidmx::plugins::DmxFrame;
use tsukuyomidmx::universe::{DmxAddress, UniverseId};

/// A seven-channel par: dimmer, red, green, blue, strobe, and two more.
fn par_def() -> (FixtureDef, FixtureDefId) {
    let mut def = FixtureDef::new("uking".to_string(), "par-light-b262".to_string());
    let chans = [
        ("Dimmer", CapabilityKind::Intensity, MergeMode::HTP),
        ("Red", CapabilityKind::Red, MergeMode::HTP),
        ("Green", CapabilityKind::Green, MergeMode::HTP),
        ("Blue", CapabilityKind::Blue, MergeMode::HTP),
        ("Strobe", CapabilityKind::Custom, MergeMode::LTP),
        ("Program", CapabilityKind::Custom, MergeMode::LTP),
        ("Speed", CapabilityKind::Custom, MergeMode::LTP),
    ];
    let mut order = Vec::new();
    for (i, (name, kind, mode)) in chans.iter().enumerate() {
        def.insert_channel(name.to_string(), ChannelDef::new(*mode, Capability::Single(*kind)));
        order.push((name.to_string(), i));
    }
    def.insert_mode("7-channel".to_string(), FixtureMode::new(order).unwrap());
    let id = def.id().duplicate();
    (def, id)
}

fn doc_with_par() -> (Doc, FixtureId, FixtureDefId) {
    let (def, def_id) = par_def();
    let mut rg = FixtureDefRegistry::new();
    rg.insert(def_id.duplicate(), def);
    let mut doc = Doc::new_with_def_registry(rg);
    doc.add_universe();
    let fxt = Fixture::new(
        "Fixture".to_string(),
        UniverseId::new(0),
        DmxAddress::first(),
        def_id.duplicate(),
        "7-channel".to_string(),
        0,
        0,
    );
    let fxt_id = fxt.id();
    doc.add_fixture(fxt).unwrap();
    (doc, fxt_id, def_id)
}

fn scene(doc: &mut Doc, fxt_id: FixtureId) -> EffectId {
    let fx = Effect::new_simple("Scene 1".to_string());
    let fx_id = fx.id();
    doc.add_effect(fx).unwrap();
    let mut values = KeyedVec::new();
    values.insert((fxt_id, 0), 255);
    values.insert((fxt_id, 1), 200);
    let body = SimpleEffectBody::New { fixtures: FixtureQuery::default_query(), values };
    doc.update_effect(fx_id, EffectChange::Simple(body)).unwrap();
    fx_id
}

#[test]
fn engine_can_start_function() {
    let (mut doc, fxt_id, _) = doc_with_par();
    let fx_id = scene(&mut doc, fxt_id);
    let state = doc.state_view();

    let mut engine = Engine::new();
    let (_, m) = engine.handle_command(EngineCommand::<()>::UniverseAdded(UniverseId::new(0)), state);
    assert!(m.is_none());
    let (plugin, _) = engine.handle_command(EngineCommand::AddPlugin { universe: UniverseId::first(), plugin: 7u8 }, state);
    assert_eq!(plugin, Some(7u8));
    let (_, m) = engine.handle_command(EngineCommand::<()>::StartFunction(fx_id), state);
    assert!(m.is_none());

    assert!(state.channels_complete());
    let mut data: Vec<DmxFrame> = Vec::new();
    for _ in 0..5 {
        assert!(engine.can_run_active());
        assert!(engine.can_tick(state));
        assert!(engine.tick(state).is_empty());
        for f in engine.plugin_frames() {
            data.push(f.unwrap());
        }
    }
    let _ = engine.handle_command(EngineCommand::<()>::StopFunction, state);
    let _ = engine.handle_command(EngineCommand::<()>::Shutdown, state);
    assert!(engine.should_shutdown());

    assert_eq!(data.len(), 5);
    let last = data.last().unwrap();
    assert_eq!(last.data[0], 255);
    assert_eq!(last.data[1], 200);
    assert!(last.data[2..].iter().all(|v| *v == 0));
}

#[test]
fn engine_reports_unknown_function() {
    let (doc, _, _) = doc_with_par();
    let mut engine = Engine::new();
    let id = EffectId::new();
    let (_, m) = engine.handle_command(EngineCommand::<()>::StartFunction(id), doc.state_view());
    assert!(matches!(m, Some(EngineMessage::ErrorOccured(EngineError::FunctionNotFound { function_id })) if function_id == id));
}

#[test]
fn live_values_follow_merge_modes() {
    let (doc, fxt_id, _) = doc_with_par();
    let state = doc.state_view();
    let mut engine = Engine::new();
    let _ = engine.handle_command(EngineCommand::<()>::UniverseAdded(UniverseId::new(0)), state);
    let _ = engine.handle_command(EngineCommand::<()>::AddPlugin { universe: UniverseId::new(0), plugin: () }, state);
    let live = |channel: &str, value: u8| EngineCommand::<()>::SetLiveValue {
        fixture_id: fxt_id,
        channel: channel.to_string(),
        value,
    };
    let _ = engine.handle_command(live("Dimmer", 120), state);
    let _ = engine.handle_command(live("Strobe", 30), state);
    let _ = engine.handle_command(live("Nope", 9), state);
    let msgs = engine.tick(state);
    assert_eq!(msgs.len(), 1);
    assert!(matches!(&msgs[0], EngineMessage::ErrorOccured(EngineError::ResolvingAddress { channel, .. }) if channel == "Nope"));
    let frame = engine.plugin_frames()[0].unwrap();
    assert_eq!(frame.data[0], 120);
    assert_eq!(frame.data[4], 30);

    // A live value of 0 is removed.
    let _ = engine.handle_command(live("Dimmer", 0), state);
    let _ = engine.tick(state);
    assert_eq!(engine.plugin_frames()[0].unwrap().data[0], 0);
}

#[test]
fn universe_state_merges_htp_and_ltp() {
    let (doc, fxt_id, _) = doc_with_par();
    let state = doc.state_view();
    let dimmer: ResolvedAddress = state.resolve_address(fxt_id, &"Dimmer".to_string()).unwrap();
    let strobe: ResolvedAddress = state.resolve_address_with_offset(fxt_id, 4).unwrap();
    assert_eq!(strobe.address.value(), 5);
    let mut u = UniverseState::new();
    u.set_value(&dimmer, 200);
    u.set_value(&dimmer, 100);
    u.set_value(&strobe, 200);
    u.set_value(&strobe, 100);
    let frame = u.frame();
    assert_eq!(frame.data[0], 200);
    assert_eq!(frame.data[4], 100);
    u.clear();
    assert!(u.frame().as_slice().iter().all(|v| *v == 0));
}

#[test]
fn offset_past_the_mode_does_not_resolve() {
    let (doc, fxt_id, _) = doc_with_par();
    assert!(doc.state_view().resolve_address_with_offset(fxt_id, 7).is_err());
}

#[test]
fn dmx_frame_iter_numbers_addresses_from_one() {
    let mut data = [0u8; 512];
    data[0] = 1;
    data[511] = 2;
    let frame = DmxFrame::from_values(data);
    let slots = frame.iter();
    assert_eq!(slots.len(), 512);
    assert_eq!((slots[0].0.value(), slots[0].1), (1, 1));
    assert_eq!((slots[511].0.value(), slots[511].1), (512, 2));
    assert!(DmxFrame::zeros().as_slice().iter().all(|v| *v == 0));
}

#[test]
fn resolve_success_single_channel() {
    let (doc, fxt_id, _) = doc_with_par();
    let ra = doc.state_view().resolve_address(fxt_id, &"Green".to_string()).unwrap();
    assert_eq!(ra.universe, UniverseId::new(0));
    assert_eq!(ra.address.value(), 3);
    assert_eq!(ra.channel_def.merge_mode(), MergeMode::HTP);
}

#[test]
fn resolve_error_fixture_not_found() {
    let (doc, _, _) = doc_with_par();
    let missing = FixtureId::new();
    match doc.state_view().resolve_address(missing, &"Dimmer".to_string()) {
        Err(ResolveError::FixtureNotFound(FixtureNotFoundError(id))) => assert_eq!(id, missing),
        Ok(_) => panic!("a missing fixture should not resolve"),
        Err(_) => panic!("a missing fixture should be reported as such"),
    }
}

#[test]
fn resolve_error_channel_not_found() {
    let (doc, fxt_id, def_id) = doc_with_par();
    match doc.state_view().resolve_address(fxt_id, &"Pan".to_string()) {
        Err(ResolveError::ChannelNotFound { fixture_def, mode, channel }) => {
            assert_eq!(fixture_def.manufacturer(), def_id.manufacturer());
            assert_eq!(fixture_def.model(), def_id.model());
            assert_eq!(mode, "7-channel");
            assert_eq!(channel, "Pan");
        }
        Ok(_) => panic!("a missing channel should not resolve"),
        Err(_) => panic!("a missing channel should be reported as such"),
    }
}

#[test]
fn writes_to_a_universe_the_engine_does_not_keep_are_reported() {
    let (mut doc, fxt_id) = {
        let (d, f, _) = doc_with_par();
        (d, f)
    };
    let fx_id = scene(&mut doc, fxt_id);
    let state = doc.state_view();
    let mut engine = Engine::new();
    let (_, m) = engine.handle_command(EngineCommand::<()>::StartFunction(fx_id), state);
    assert!(m.is_none());
    let msgs = engine.tick(state);
    assert_eq!(msgs.len(), 2);
    for m in &msgs {
        assert!(matches!(m, EngineMessage::ErrorOccured(EngineError::UniverseNotInitialized(u)) if *u == UniverseId::new(0)));
    }
}

#[test]
fn a_long_chain_of_references_starts() {
    let (mut doc, fxt_id, _) = doc_with_par();
    let mut prev = scene(&mut doc, fxt_id);
    for i in 0..80 {
        let mut seq = Effect::new_sequence(format!("Level {i}"));
        seq.apply_change(EffectChange::Sequence(SequenceEffectBody::New(vec![SequenceStep::new(
            Duration::from_millis(100),
            None,
            prev,
        )])));
        prev = seq.id();
        doc.add_effect(seq).unwrap();
    }
    let mut engine = Engine::new();
    let (_, m) = engine.handle_command(EngineCommand::<()>::StartFunction(prev), doc.state_view());
    assert!(m.is_none());
}
