use tsukuyomidmx::app_state::{AnyEffectId, AppStateChange, Dispatcher, FunctionType, get_function_type};
use tsukuyomidmx::doc::document::Doc;
use tsukuyomidmx::effects::{Effect, EffectSpec, EffectTemplate};
use tsukuyomidmx::fixture::{Fixture, FixtureChange, MergeMode};
use tsukuyomidmx::fixture_def::{
    Capability, CapabilityKind, ChannelDef, FixtureDef, FixtureDefId, FixtureDefRegistry, FixtureMode,
};
use tsukuyomidmx::functions::Function;
use tsukuyomidmx::ids::{EffectId, FixtureId};
use tsukuyomidmx::keyed::KeyedVec;
use tsukuyomidmx::plugins::DmxFrame;
use tsukuyomidmx::preview::{set_color, ColorInfo};
use tsukuyomidmx::universe::{DmxAddress, UniverseId};
use tsukuyomidmx::views::{compute_fixture_info, EffectKind};

const COL_COUNT: usize = 24;

fn four_channel_def() -> (FixtureDef, FixtureDefId) {
    let mut def = FixtureDef::new("Test Manufacturer".to_string(), "Test Model".to_string());
    let chans = [
        ("Dimmer", CapabilityKind::Intensity),
        ("Red", CapabilityKind::Red),
        ("Green", CapabilityKind::Green),
        ("Blue", CapabilityKind::Blue),
    ];
    let mut order = Vec::new();
    for (i, (name, kind)) in chans.iter().enumerate() {
        def.insert_channel(name.to_string(), ChannelDef::new(MergeMode::HTP, Capability::Single(*kind)));
        order.push((name.to_string(), i));
    }
    def.insert_mode("4 Channel".to_string(), FixtureMode::new(order).unwrap());
    let id = def.id().duplicate();
    (def, id)
}

fn doc_with_fixture_at(address: usize) -> (Doc, FixtureId) {
    let (def, def_id) = four_channel_def();
    let mut rg = FixtureDefRegistry::new();
    rg.insert(def_id.duplicate(), def);
    let mut doc = Doc::new_with_def_registry(rg);
    let fxt = Fixture::new(
        "Test Fixture".to_string(),
        UniverseId::new(0),
        DmxAddress::new(address).unwrap(),
        def_id,
        "4 Channel".to_string(),
        10,
        20,
    );
    let id = fxt.id();
    doc.add_fixture(fxt).unwrap();
    (doc, id)
}

#[test]
fn model_updates_after_fixture_added() {
    let infos = compute_fixture_info(UniverseId::new(0), 1, 4, "Test Fixture".to_string(), COL_COUNT);
    assert_eq!(infos.len(), 1);
    let info = &infos[0];
    assert_eq!(info.col, 0);
    assert_eq!(info.row, 0);
    assert_eq!(info.length, 4);
    assert_eq!(info.text, "Test Fixture");
}

#[test]
fn model_updates_after_fixture_updated() {
    let (mut doc, fxt_id) = doc_with_fixture_at(1);
    doc.update_fixture(fxt_id, FixtureChange::Address(DmxAddress::new(10).unwrap())).unwrap();
    let state = doc.state_view();
    let address = state.get_address(fxt_id).unwrap();
    let footprint = state.get_footprint(fxt_id).unwrap();
    let name = state.get_fixture_name(fxt_id).unwrap();
    let infos = compute_fixture_info(state.get_universe(fxt_id).unwrap(), address.value(), footprint, name, COL_COUNT);
    assert_eq!(infos.len(), 1);
    let info = &infos[0];
    assert_eq!(info.row, 0);
    assert_eq!(info.col, 9);
    assert_eq!(info.length, 4);
}

#[test]
fn model_updates_after_fixture_removed() {
    let (mut doc, fxt_id) = doc_with_fixture_at(10);
    doc.remove_fixture(&fxt_id).unwrap();
    let state = doc.state_view();
    assert!(state.get_address(fxt_id).is_none());
    assert!(state.get_footprint(fxt_id).is_none());
    assert!(state.iter_fixtures_and_positions().is_empty());
}

#[test]
fn model_works_with_overflow() {
    let infos = compute_fixture_info(UniverseId::new(0), 22, 4, "Test Fixture".to_string(), COL_COUNT);
    assert_eq!(infos.len(), 2);
    let first = &infos[0];
    assert_eq!(first.col, 21);
    assert_eq!(first.row, 0);
    assert_eq!(first.length, 3);
    assert_eq!(first.text, "Test Fixture");
    let second = &infos[1];
    assert_eq!(second.row, 1);
    assert_eq!(second.col, 0);
    assert_eq!(second.length, 1);
    assert_eq!(second.text, "");
}

#[test]
fn long_fixture_spans_several_rows() {
    let infos = compute_fixture_info(UniverseId::new(0), 23, 60, "Long".to_string(), COL_COUNT);
    let lengths: Vec<usize> = infos.iter().map(|i| i.length).collect();
    assert_eq!(lengths, vec![2, 24, 24, 10]);
    assert_eq!(lengths.iter().sum::<usize>(), 60);
}

#[test]
fn model_applies_frame_correctly_and_notify_change() {
    let (doc, fxt_id) = doc_with_fixture_at(10);
    let state = doc.state_view();
    assert!(state.channels_complete());
    let mut data = [0u8; 512];
    data[9] = 255;
    data[10] = 200;
    data[21] = 22;
    let colors = state.frame_colors(UniverseId::new(0), &DmxFrame::from_values(data));
    assert_eq!(colors.len(), 1);
    let c = colors.get(&fxt_id).unwrap();
    assert_eq!((c.dimmer, c.red, c.green, c.blue), (255, 200, 0, 0));
    assert_eq!(state.resolve_channel_capability(UniverseId::new(0), DmxAddress::new(11).unwrap(), 0), Some((fxt_id, CapabilityKind::Red)));
    assert_eq!(state.resolve_channel_capability(UniverseId::new(0), DmxAddress::new(14).unwrap(), 0), None);
}

#[test]
fn set_color_starts_from_black() {
    let mut map: KeyedVec<FixtureId, ColorInfo> = KeyedVec::new();
    let id = FixtureId::new();
    set_color(id, &mut map, CapabilityKind::Green, 7);
    set_color(id, &mut map, CapabilityKind::Custom, 9);
    let c = map.get(&id).unwrap();
    assert_eq!((c.dimmer, c.red, c.green, c.blue, c.white, c.amber, c.uv), (0, 0, 7, 0, 0, 0, 0));
}

#[test]
fn fixture_getters_answer_for_stored_fixtures() {
    let (doc, fxt_id) = doc_with_fixture_at(10);
    let state = doc.state_view();
    assert_eq!(state.get_fixture_name(fxt_id).unwrap(), "Test Fixture");
    assert_eq!(state.get_universe(fxt_id), Some(UniverseId::new(0)));
    assert_eq!(state.get_address(fxt_id).unwrap().value(), 10);
    assert_eq!(state.get_footprint(fxt_id), Some(4));
    assert_eq!(state.get_position(fxt_id), Some((10, 20)));
    assert_eq!(state.iter_fixtures_and_positions(), vec![(fxt_id, (10, 20))]);
    assert_eq!(state.get_universe(FixtureId::new()), None);
}

#[test]
fn effect_kinds_and_names() {
    let mut doc = Doc::new_with_def_registry(FixtureDefRegistry::new());
    let fx = Effect::new_parallel("P".to_string());
    let spec = EffectSpec::new_simple("S".to_string());
    let tmpl = EffectTemplate::new_simple("T".to_string());
    assert_eq!(fx.effect_kind(), EffectKind::Parallel);
    assert_eq!(spec.effect_kind(), EffectKind::SimpleSpec);
    assert_eq!(tmpl.effect_kind(), EffectKind::SimpleTemplate);
    let (fx_id, spec_id) = (fx.id(), spec.id());
    doc.add_effect(fx).unwrap();
    doc.add_effect_spec(spec).unwrap();
    let state = doc.state_view();
    assert_eq!(state.get_name(AnyEffectId::Effect(fx_id)).unwrap(), "P");
    assert_eq!(state.get_name(AnyEffectId::Spec(spec_id)).unwrap(), "S");
    assert_eq!(state.get_name(AnyEffectId::Effect(EffectId::new())), None);
}

#[test]
fn dispatcher_selects_effect() {
    let mut d = Dispatcher::new();
    assert_eq!(d.state().current_effect_id(), None);
    let id = AnyEffectId::Effect(EffectId::new());
    d.dispatch(AppStateChange::SetSelectedFunction(id));
    assert_eq!(d.state().current_effect_id(), Some(id));
    assert_eq!(id.unwrap_effect(), match id { AnyEffectId::Effect(e) => e, _ => unreachable!() });
}

#[test]
fn function_type_follows_body() {
    let f = Function::new_simple("Scene 1".to_string(), KeyedVec::new());
    assert_eq!(get_function_type(&f), FunctionType::Simple);
    let s = Function::new_sequence("Seq".to_string(), Vec::new());
    assert_eq!(get_function_type(&s), FunctionType::Sequence);
}

#[test]
fn a_fixture_may_start_in_the_last_column() {
    let infos = compute_fixture_info(UniverseId::new(0), 24, 4, "Test Fixture".to_string(), COL_COUNT);
    assert_eq!(infos.len(), 2);
    assert_eq!((infos[0].row, infos[0].col, infos[0].length), (0, 23, 1));
    assert_eq!((infos[1].row, infos[1].col, infos[1].length), (1, 0, 3));
}
