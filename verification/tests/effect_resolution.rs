use tsukuyomidmx::doc::document::Doc;
use tsukuyomidmx::effects::{
    Effect, EffectChange, EffectCommand, EffectSpec, EffectSpecChange, EffectTemplate, EffectTemplateChange,
    Expression, FixtureQuery, SequenceEffectBody, SequenceEffectSpecBody, SequenceEffectTemplateBody,
    SequenceTemplateStepBase, SimpleEffectSpecBody, Type, Value,
};
use tsukuyomidmx::fixture::{Fixture, MergeMode};
use tsukuyomidmx::fixture_def::{
    Capability, CapabilityKind, ChannelDef, FixtureDef, FixtureDefRegistry, FixtureMode,
};
use tsukuyomidmx::ids::FixtureId;
use tsukuyomidmx::keyed::KeyedVec;
use tsukuyomidmx::time::Duration;
use tsukuyomidmx::universe::{DmxAddress, UniverseId};

fn channel(kind: CapabilityKind) -> ChannelDef {
    ChannelDef::new(MergeMode::HTP, Capability::Single(kind))
}

fn registry_with_rgb_def() -> (FixtureDefRegistry, tsukuyomidmx::fixture_def::FixtureDefId) {
    let mut def = FixtureDef::new("Test Manufacturer".to_string(), "Test Model".to_string());
    def.insert_channel("Dimmer".to_string(), channel(CapabilityKind::Intensity));
    def.insert_channel("Red".to_string(), channel(CapabilityKind::Red));
    def.insert_channel("Green".to_string(), channel(CapabilityKind::Green));
    def.insert_channel("Blue".to_string(), channel(CapabilityKind::Blue));
    let mode = FixtureMode::new(vec![
        ("Dimmer".to_string(), 0),
        ("Red".to_string(), 1),
        ("Green".to_string(), 2),
        ("Blue".to_string(), 3),
    ])
    .unwrap();
    def.insert_mode("4 Channel".to_string(), mode);
    let id = def.id().duplicate();
    let mut rg = FixtureDefRegistry::new();
    rg.insert(id.duplicate(), def);
    (rg, id)
}

fn writes(commands: &[EffectCommand], fxt_id: FixtureId, ch: usize, val: u8) -> bool {
    commands.iter().any(|cmd| match cmd {
        EffectCommand::WriteUniverse { fixture_id, channel, value } => {
            *fixture_id == fxt_id && *channel == ch && *value == val
        }
        _ => false,
    })
}

fn simple_spec(name: &str, dimmer: u8) -> EffectSpec {
    let mut spec = EffectSpec::new_simple(name.to_string());
    spec.apply_change(EffectSpecChange::Simple(SimpleEffectSpecBody {
        dimmer: Some(Expression::Value(Value::Dimmer(dimmer))),
        color: Some(Expression::Prop("color".to_string())),
    }));
    spec
}

/// A blinking sequence spec, a template that makes it red on one fixture,
/// and an effect that gives the template 500 ms per step.
#[test]
fn sequence_function_works() {
    let (rg, def_id) = registry_with_rgb_def();
    let mut doc = Doc::new_with_def_registry(rg);
    let fxt = Fixture::new(
        "Left".to_string(),
        UniverseId::new(0),
        DmxAddress::first(),
        def_id,
        "4 Channel".to_string(),
        0,
        0,
    );
    let fxt_id = fxt.id();
    doc.add_fixture(fxt).unwrap();
    let query = FixtureQuery::from_str(&format!("#{}", uuid::Uuid::from_u128(fxt_id.as_u128()))).unwrap();

    let on = simple_spec("on", 255);
    let off = simple_spec("off", 0);
    let mut blink_props = KeyedVec::new();
    blink_props.insert("duration".to_string(), Type::Duration);
    blink_props.insert("color".to_string(), Type::Color);
    let blink_steps = vec![
        SequenceTemplateStepBase {
            hold: Expression::Prop("duration".to_string()),
            fade_in: Expression::Value(Value::Duration(Duration::zero())),
            key: (on.id(), query.duplicate()),
        },
        SequenceTemplateStepBase {
            hold: Expression::Prop("duration".to_string()),
            fade_in: Expression::Value(Value::Duration(Duration::zero())),
            key: (off.id(), query.duplicate()),
        },
    ];
    let mut blink = EffectSpec::new_simple("blink".to_string());
    blink.apply_change(EffectSpecChange::Sequence(SequenceEffectSpecBody {
        props: blink_props,
        steps: blink_steps,
    }));

    let mut spec_props = KeyedVec::new();
    spec_props.insert("color".to_string(), Expression::Value(Value::Color([255, 0, 0])));
    spec_props.insert("duration".to_string(), Expression::Prop("duration".to_string()));
    let mut tmpl_props = KeyedVec::new();
    tmpl_props.insert("duration".to_string(), Type::Duration);
    let mut tmpl = EffectTemplate::new_simple("red-blink-on-left".to_string());
    tmpl.apply_change(EffectTemplateChange::Sequence(SequenceEffectTemplateBody::FromSpec {
        spec_key: (blink.id(), query.duplicate()),
        spec_props,
        props: tmpl_props,
    }));

    let mut given = KeyedVec::new();
    given.insert("duration".to_string(), Value::Duration(Duration::from_millis(500)));
    let mut fx = Effect::new_sequence("red-blink-on-left-500ms".to_string());
    fx.apply_change(EffectChange::Sequence(SequenceEffectBody::FromTemplate(tmpl.id(), given)));
    let fx_id = fx.id();

    doc.add_effect_spec(on).unwrap();
    doc.add_effect_spec(off).unwrap();
    doc.add_effect_spec(blink).unwrap();
    doc.add_effect_template(tmpl).unwrap();
    doc.add_effect(fx).unwrap();

    let mut rt = doc.state_view().create_runtime(fx_id);

    let commands = rt.run(Duration::from_millis(100));
    assert_eq!(commands.len(), 4);
    assert!(writes(&commands, fxt_id, 0, 255));
    assert!(writes(&commands, fxt_id, 1, 255));
    assert!(writes(&commands, fxt_id, 2, 0));
    assert!(writes(&commands, fxt_id, 3, 0));

    let commands = rt.run(Duration::from_millis(400));
    assert_eq!(commands.len(), 4);
    assert!(writes(&commands, fxt_id, 0, 255));

    let commands = rt.run(Duration::from_millis(500));
    assert_eq!(commands.len(), 5);
    assert!(writes(&commands, fxt_id, 0, 0));
    assert!(writes(&commands, fxt_id, 1, 255));
    assert!(commands.iter().any(|cmd| matches!(cmd, EffectCommand::StopEffect)));
}
