//! The state of the editor around the document: which effect is selected,
//! and the output settings of each universe.
use crate::functions::{Function, FunctionBody};
use crate::ids::{EffectId, EffectSpecId, EffectTemplateId, OutputPluginId};
use crate::keyed::KeyedVec;
use vstd::prelude::*;

verus! {

/// The id of an effect, a template or a spec.
#[derive(Clone, Copy, PartialEq, Eq, Structural, Hash, Debug)]
pub enum AnyEffectId {
    Effect(EffectId),
    Spec(EffectSpecId),
    Template(EffectTemplateId),
}

impl AnyEffectId {
    /// The effect id; only for an effect.
    pub fn unwrap_effect(&self) -> (r: EffectId)
        requires
            *self is Effect,
        ensures
            *self == AnyEffectId::Effect(r),
    {
        match self {
            AnyEffectId::Effect(id) => *id,
            _ => vstd::pervasive::unreached(),
        }
    }

    /// The spec id; only for a spec.
    pub fn unwrap_spec(&self) -> (r: EffectSpecId)
        requires
            *self is Spec,
        ensures
            *self == AnyEffectId::Spec(r),
    {
        match self {
            AnyEffectId::Spec(id) => *id,
            _ => vstd::pervasive::unreached(),
        }
    }

    /// The template id; only for a template.
    pub fn unwrap_template(&self) -> (r: EffectTemplateId)
        requires
            *self is Template,
        ensures
            *self == AnyEffectId::Template(r),
    {
        match self {
            AnyEffectId::Template(id) => *id,
            _ => vstd::pervasive::unreached(),
        }
    }
}

/// A change to the editor state.
#[derive(Clone, Copy, Debug)]
pub enum AppStateChange {
    SetSelectedFunction(AnyEffectId),
}

/// The editor state.
#[derive(Clone, Copy, Debug)]
pub struct AppState {
    current_effect_id: Option<AnyEffectId>,
}

impl AppState {
    /// The selected effect.
    pub closed spec fn current(&self) -> Option<AnyEffectId> {
        self.current_effect_id
    }

    /// Nothing selected.
    pub fn new() -> (r: Self)
        ensures
            r.current() is None,
    {
        AppState { current_effect_id: None }
    }

    /// The selected effect.
    pub fn current_effect_id(&self) -> (r: Option<AnyEffectId>)
        ensures
            r == self.current(),
    {
        self.current_effect_id
    }
}

/// Applies changes to the editor state.
#[derive(Debug)]
pub struct Dispatcher {
    state: AppState,
}

impl Dispatcher {
    /// The state the dispatcher changes.
    pub closed spec fn state_spec(&self) -> AppState {
        self.state
    }

    /// A dispatcher over a state with nothing selected.
    pub fn new() -> (r: Self)
        ensures
            r.state_spec().current() is None,
    {
        Dispatcher { state: AppState::new() }
    }

    /// The state.
    pub fn state(&self) -> (r: &AppState)
        ensures
            *r == self.state_spec(),
    {
        &self.state
    }

    /// Applies `change`: selecting an effect makes it the current one.
    pub fn dispatch(&mut self, change: AppStateChange)
        ensures
            match change {
                AppStateChange::SetSelectedFunction(id) => final(self).state_spec().current() == Some(id),
            },
    {
        match change {
            AppStateChange::SetSelectedFunction(id) => {
                self.state.current_effect_id = Some(id);
            },
        }
    }
}

/// How a universe is output.
#[derive(Clone, Debug)]
pub enum OutputPluginInfo {
    Artnet { target_ip: String },
    FTDI,
    Preview2D,
    Preview3D,
}

/// The output plugins of one universe.
#[derive(Debug)]
pub struct UniverseConfig {
    output_plugins: KeyedVec<OutputPluginId, OutputPluginInfo>,
}

impl UniverseConfig {
    /// No output plugin.
    pub fn new() -> (r: Self)
        ensures
            r.output_plugins_spec() == Map::<OutputPluginId, OutputPluginInfo>::empty(),
    {
        UniverseConfig { output_plugins: KeyedVec::new() }
    }

    /// The output plugins, by id.
    pub closed spec fn output_plugins_spec(&self) -> Map<OutputPluginId, OutputPluginInfo> {
        self.output_plugins@
    }

    /// The output plugins, by id.
    pub fn output_plugins(&self) -> (r: &KeyedVec<OutputPluginId, OutputPluginInfo>)
        ensures
            r@ == self.output_plugins_spec(),
    {
        &self.output_plugins
    }

    /// The configuration with the output plugins of `plugins`.
    pub fn from_plugins(plugins: KeyedVec<OutputPluginId, OutputPluginInfo>) -> (r: Self)
        ensures
            r.output_plugins_spec() == plugins@,
    {
        UniverseConfig { output_plugins: plugins }
    }
}

/// The kinds of function a list shows.
#[derive(Clone, Copy, PartialEq, Eq, Structural, Debug)]
pub enum FunctionType {
    Simple,
    Sequence,
    Parallel,
}

/// The kind of `fun`.
pub fn get_function_type(fun: &Function) -> (r: FunctionType)
    ensures
        match fun.body_spec() {
            FunctionBody::Simple(_) => r == FunctionType::Simple,
            FunctionBody::Sequence(_) => r == FunctionType::Sequence,
            FunctionBody::Parallel(_) => r == FunctionType::Parallel,
        },
{
    match fun.body() {
        FunctionBody::Simple(_) => FunctionType::Simple,
        FunctionBody::Sequence(_) => FunctionType::Sequence,
        FunctionBody::Parallel(_) => FunctionType::Parallel,
    }
}

} // verus!
