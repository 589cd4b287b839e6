use tsukuyomidmx::doc::document::Doc;
use tsukuyomidmx::doc::DocState;
use tsukuyomidmx::effects::{
    Effect, EffectBody, EffectChange, EffectCommand, SequenceEffectBody, SequenceStep, SimpleEffectBody,
};
use tsukuyomidmx::fixture_def::FixtureDefRegistry;
use tsukuyomidmx::ids::FixtureId;
use tsukuyomidmx::keyed::KeyedVec;
use tsukuyomidmx::effects::runtime::{
    EffectRuntime, FadeInRuntime, SequenceEffectRuntime, SimpleEffectRuntime, StepRuntime,
};
use tsukuyomidmx::time::Duration;

fn writes(commands: &[EffectCommand], fxt_id: FixtureId, ch: usize, val: u8) -> bool {
    commands.iter().any(|cmd| match cmd {
        EffectCommand::WriteUniverse { fixture_id, channel, value } => {
            *fixture_id == fxt_id && *channel == ch && *value == val
        }
        _ => false,
    })
}

fn simple_effect_with(name: &str, fxt_id: FixtureId, values: &[(usize, u8)]) -> Effect {
    let mut effect = Effect::new_simple(name.to_string());
    let fixtures = match effect.body() {
        EffectBody::Simple(SimpleEffectBody::New { fixtures, .. }) => fixtures.duplicate(),
        _ => panic!("should match"),
    };
    let mut new_values = KeyedVec::new();
    for (ch, v) in values {
        new_values.insert((fxt_id, *ch), *v);
    }
    effect.apply_change(EffectChange::Simple(SimpleEffectBody::New { fixtures, values: new_values }));
    effect
}

fn create_simple_effect_with_some_values() -> (Effect, FixtureId) {
    let fxt_id = FixtureId::new();
    let effect = simple_effect_with("Scene 1", fxt_id, &[(0, 255), (1, 200)]);
    (effect, fxt_id)
}

#[test]
fn simple_runtime_run_returns_right_command() {
    let (effect, fxt_id) = create_simple_effect_with_some_values();
    let doc = DocState::new(FixtureDefRegistry::new());

    let mut rt = if let EffectBody::Simple(body) = effect.body() {
        body.create_runtime(&doc)
    } else {
        panic!("should match")
    };

    let commands = rt.run(Duration::from_millis(20));

    assert_eq!(commands.len(), 2);
    assert!(writes(&commands, fxt_id, 0, 255));
    assert!(writes(&commands, fxt_id, 1, 200));
}

#[test]
fn simple_runtime_returns_same_commands_between_first_and_last_frame() {
    let (effect, _) = create_simple_effect_with_some_values();
    let doc = DocState::new(FixtureDefRegistry::new());

    let rt = if let EffectBody::Simple(body) = effect.body() {
        body.create_runtime(&doc)
    } else {
        panic!("should match")
    };

    assert_eq!(rt.first_frame_hint(), rt.last_frame_hint());
}

/// A document holding two simple effects and a sequence of them, each held
/// for 500 ms. Returns the document, the sequence's id and the fixture id.
fn create_sequence_effect_with_some_step() -> (Doc, tsukuyomidmx::ids::EffectId, FixtureId) {
    let fxt_id = FixtureId::new();
    let simple_1 = simple_effect_with("Step 1", fxt_id, &[(0, 255), (1, 200)]);
    let simple_2 = simple_effect_with("Step 2", fxt_id, &[(0, 0), (1, 100), (2, 255)]);

    let mut seq_fx = Effect::new_sequence("Scene 1".to_string());
    let steps = vec![
        SequenceStep::new(Duration::from_millis(500), None, simple_1.id()),
        SequenceStep::new(Duration::from_millis(500), None, simple_2.id()),
    ];
    seq_fx.apply_change(EffectChange::Sequence(SequenceEffectBody::New(steps)));
    let seq_id = seq_fx.id();

    let mut doc = Doc::new_with_def_registry(FixtureDefRegistry::new());
    doc.add_effect(simple_1).unwrap();
    doc.add_effect(simple_2).unwrap();
    doc.add_effect(seq_fx).unwrap();
    (doc, seq_id, fxt_id)
}

#[test]
fn sequence_runtime_run_advances_step() {
    let (doc, seq_id, fxt_id) = create_sequence_effect_with_some_step();
    let state = doc.state_view();
    let seq_fx = state.effect(&seq_id).unwrap();

    let mut rt = seq_fx.unwrap_sequence().create_runtime(state);

    // Tick 1 - Step 1
    let commands = rt.run(Duration::from_millis(100));
    assert_eq!(commands.len(), 2);
    assert!(writes(&commands, fxt_id, 0, 255));
    assert!(writes(&commands, fxt_id, 1, 200));

    // Tick 2 - still Step 1
    let commands = rt.run(Duration::from_millis(400));
    assert_eq!(commands.len(), 2);
    assert!(writes(&commands, fxt_id, 0, 255));
    assert!(writes(&commands, fxt_id, 1, 200));

    // Tick 3 - Step 2
    let commands = rt.run(Duration::from_millis(500));
    assert_eq!(commands.len(), 4);
    assert!(writes(&commands, fxt_id, 0, 0));
    assert!(writes(&commands, fxt_id, 1, 100));
    assert!(writes(&commands, fxt_id, 2, 255));
    assert!(commands.iter().any(|cmd| matches!(cmd, EffectCommand::StopEffect)));
}

#[test]
fn doc_creates_the_runtime_of_a_stored_sequence() {
    let (doc, seq_id, fxt_id) = create_sequence_effect_with_some_step();
    let mut rt = doc.state_view().create_runtime(seq_id);
    let commands = rt.run(Duration::from_millis(100));
    assert_eq!(commands.len(), 2);
    assert!(writes(&commands, fxt_id, 1, 200));
}

#[test]
fn time_left_over_by_a_step_counts_towards_the_next() {
    let hold = || {
        StepRuntime::new(
            Duration::from_millis(500),
            EffectRuntime::Simple(SimpleEffectRuntime::new(&KeyedVec::new())),
            None,
            None,
        )
    };
    let mut rt = EffectRuntime::Sequence(SequenceEffectRuntime::new(vec![hold(), hold()]));
    let commands = rt.run(Duration::from_millis(600));
    assert!(!commands.iter().any(|cmd| matches!(cmd, EffectCommand::StopEffect)));
    let commands = rt.run(Duration::from_millis(400));
    assert!(commands.iter().any(|cmd| matches!(cmd, EffectCommand::StopEffect)));
}

#[test]
fn a_tick_past_fade_and_hold_ends_the_step_with_the_rest() {
    let mut s = StepRuntime::new(
        Duration::from_millis(100),
        EffectRuntime::Simple(SimpleEffectRuntime::new(&KeyedVec::new())),
        Some(Duration::from_millis(100)),
        Some(FadeInRuntime::new(&Vec::new(), &Vec::new(), Duration::from_millis(100))),
    );
    let (_, rest) = s.run(Duration::from_millis(300));
    assert_eq!(rest.unwrap().as_nanos(), 100_000_000);
}
