//! The document facade: validates requests, applies them, and keeps the
//! commands that undo and redo them.
use super::commands::{
    lemma_command_roundtrip, lemma_enabled_redoable, redoable, refreshed, AddUniverseCommand, CommandView, DocCommand,
};
use super::decider::{
    self, add_fixture_accepted, add_fixture_error, update_fixture_accepted, update_fixture_error,
};
use super::errors::{
    AddEffectError, AddEffectSpecError, AddEffectTemplateError, FixtureAddError, FixtureRemoveError,
    FixtureUpdateError, RemoveEffectError, RemoveEffectSpecError, RemoveEffectTemplateError,
    UpdateEffectError, UpdateEffectSpecError, UpdateEffectTemplateError,
};
use super::state::{occupancy, DocState, DocView, IndexMap};
use super::DocEffect;
use crate::effects::{Effect, EffectChange, EffectSpec, EffectSpecChange, EffectTemplate, EffectTemplateChange};
use crate::fixture::{Fixture, FixtureChange};
use crate::fixture_def::FixtureDefRegistry;
use crate::ids::{EffectId, EffectSpecId, EffectTemplateId, FixtureId, OutputPluginId};
use crate::universe::UniverseId;
use vstd::prelude::*;

verus! {

/// `cmds[i]` applies to `states[i + 1]` and gives `states[i]`; the last state
/// is `cur`. So applying the commands from the top down walks back through
/// the states.
pub open spec fn chain_valid(cmds: Seq<CommandView>, states: Seq<DocView>, cur: DocView) -> bool {
    &&& states.len() == cmds.len() + 1
    &&& states.last() == cur
    &&& forall|i: int| 0 <= i < cmds.len() ==> #[trigger] step_valid(cmds[i], states[i + 1], states[i])
}

/// `c` applies to the consistent document `from` and gives `to`.
pub open spec fn step_valid(c: CommandView, from: DocView, to: DocView) -> bool {
    from.consistent() && c.enabled(from) && c.applied(from) == to
}

/// A command that takes `new` back to the current state extends a chain.
proof fn lemma_chain_push(
    cmds: Seq<CommandView>,
    states: Seq<DocView>,
    cur: DocView,
    c: CommandView,
    new: DocView,
)
    requires
        chain_valid(cmds, states, cur),
        new.consistent(),
        c.enabled(new),
        c.applied(new) == cur,
    ensures
        chain_valid(cmds.push(c), states.push(new), new),
{
    let cmds2 = cmds.push(c);
    let states2 = states.push(new);
    assert forall|i: int| 0 <= i < cmds2.len() implies #[trigger] step_valid(
        cmds2[i],
        states2[i + 1],
        states2[i],
    ) by {
        if i < cmds.len() {
            assert(cmds2[i] == cmds[i]);
            assert(states2[i] == states[i]);
            assert(step_valid(cmds[i], states[i + 1], states[i]));
            if i + 1 < states.len() {
                assert(states2[i + 1] == states[i + 1]);
            }
        }
    }
}

/// Without its top command, a chain ends where that command leads.
proof fn lemma_chain_pop(cmds: Seq<CommandView>, states: Seq<DocView>, cur: DocView)
    requires
        chain_valid(cmds, states, cur),
        cmds.len() > 0,
    ensures
        chain_valid(cmds.drop_last(), states.drop_last(), states[states.len() - 2]),
        states[states.len() - 2] == cmds.last().applied(cur),
        cur.consistent(),
        cmds.last().enabled(cur),
{
    let cmds2 = cmds.drop_last();
    let states2 = states.drop_last();
    assert(cmds[cmds.len() - 1] == cmds.last());
    assert forall|i: int| 0 <= i < cmds2.len() implies #[trigger] step_valid(
        cmds2[i],
        states2[i + 1],
        states2[i],
    ) by {
        assert(cmds2[i] == cmds[i]);
        assert(step_valid(cmds[i], states[i + 1], states[i]));
    }
    let last = cmds.len() - 1;
    assert(step_valid(cmds[last], states[last + 1], states[last]));
    assert(states[last + 1] == cur);
}

/// A document: its state and the commands that undo and redo changes.
pub struct Doc {
    state: DocState,
    undo_stack: Vec<DocCommand>,
    redo_stack: Vec<DocCommand>,
    undo_states: Ghost<Seq<DocView>>,
}

impl View for Doc {
    type V = DocView;

    closed spec fn view(&self) -> DocView {
        self.state@
    }
}

impl Doc {
    closed spec fn undo_cmds(&self) -> Seq<CommandView> {
        self.undo_stack@.map_values(|c: DocCommand| c@)
    }

    /// The commands that redo undone changes, the next one last. A new
    /// change leaves them in place.
    pub closed spec fn redo_commands(&self) -> Seq<CommandView> {
        self.redo_stack@.map_values(|c: DocCommand| c@)
    }

    /// The document's invariant: its state is consistent, the undo stack
    /// walks back through the states it came from, and no universe removal
    /// waits to be redone.
    pub closed spec fn wf(&self) -> bool {
        &&& self.state@.consistent()
        &&& chain_valid(self.undo_cmds(), self.undo_states@, self.state@)
        &&& forall|i: int| 0 <= i < self.undo_cmds().len() ==> !(#[trigger] self.undo_cmds()[i] is AddUniverse)
        &&& forall|i: int|
            0 <= i < self.redo_commands().len() ==> !(#[trigger] self.redo_commands()[i] is RemoveUniverse)
    }

    /// There is a change to undo.
    pub closed spec fn has_undo(&self) -> bool {
        self.undo_stack@.len() > 0
    }

    /// There is an undone change to redo.
    pub open spec fn has_redo(&self) -> bool {
        self.redo_commands().len() > 0
    }

    /// The command that undo applies: the one that undoes the last change.
    pub closed spec fn undo_command(&self) -> CommandView {
        self.undo_cmds().last()
    }

    /// The command that redo starts from: the one that redoes the last
    /// undone change.
    pub open spec fn redo_command(&self) -> CommandView {
        self.redo_commands().last()
    }

    /// Redo can be done: there is an undone change, and it can still be made
    /// to the document as it is now.
    pub open spec fn redo_possible(&self) -> bool {
        self.has_redo() && redoable(self.redo_command(), self@)
    }

    /// The document as it was before the last change; what undo gives back.
    pub closed spec fn previous(&self) -> DocView {
        self.undo_states@[self.undo_states@.len() - 2]
    }

    /// An empty document that resolves fixtures against `defs`.
    pub fn new_with_def_registry(defs: FixtureDefRegistry) -> (r: Self)
        ensures
            r.wf(),
            r@.fixtures == Map::<FixtureId, Fixture>::empty(),
            r@.catalog == defs.catalog(),
            r@.index == IndexMap::empty(),
            r@.effect_specs == Map::<EffectSpecId, EffectSpec>::empty(),
            r@.effect_templates == Map::<EffectTemplateId, EffectTemplate>::empty(),
            r@.effects == Map::<EffectId, Effect>::empty(),
            r@.universes == Map::<UniverseId, Seq<OutputPluginId>>::empty(),
            !r.has_undo(),
            !r.has_redo(),
    {
        let state = DocState::new(defs);
        let ghost v = state@;
        let r = Doc { state, undo_stack: Vec::new(), redo_stack: Vec::new(), undo_states: Ghost(Seq::empty().push(v)) };
        assert(r.undo_cmds() =~= Seq::<CommandView>::empty());
        assert(r.redo_commands() =~= Seq::<CommandView>::empty());
        r
    }

    /// A document over `state`, with nothing to undo or redo.
    pub fn from_state(state: DocState) -> (r: Self)
        requires
            state@.consistent(),
        ensures
            r.wf(),
            r@ == state@,
            !r.has_undo(),
            !r.has_redo(),
    {
        let ghost v = state@;
        let r = Doc { state, undo_stack: Vec::new(), redo_stack: Vec::new(), undo_states: Ghost(Seq::empty().push(v)) };
        assert(r.undo_cmds() =~= Seq::<CommandView>::empty());
        assert(r.redo_commands() =~= Seq::<CommandView>::empty());
        r
    }

    /// The state, for reading.
    pub fn state_view(&self) -> (r: &DocState)
        ensures
            r@ == self@,
    {
        &self.state
    }

    /// Whether there is a change to undo.
    pub fn can_undo(&self) -> (r: bool)
        ensures
            r == self.has_undo(),
    {
        self.undo_stack.len() > 0
    }

    /// Whether there is an undone change to redo.
    pub fn redo_pending(&self) -> (r: bool)
        ensures
            r == self.has_redo(),
    {
        self.redo_stack.len() > 0
    }

    /// Whether redo can be done now.
    pub fn can_redo(&self) -> (r: bool)
        requires
            self.wf(),
        ensures
            r == self.redo_possible(),
    {
        let n = self.redo_stack.len();
        if n == 0 {
            return false;
        }
        assert(self.redo_stack@[n - 1]@ == self.redo_command());
        assert(!(self.redo_commands()[n - 1] is RemoveUniverse));
        self.redo_stack[n - 1].redoable(&self.state)
    }

    /// Applies a validated command; its undo goes on the undo stack, and the
    /// redo stack stays as it is.
    fn apply_command(&mut self, cmd: DocCommand) -> (r: DocEffect)
        requires
            old(self).wf(),
            cmd@.enabled(old(self)@),
            !(cmd@ is RemoveUniverse),
        ensures
            final(self).wf(),
            final(self)@ == cmd@.applied(old(self)@),
            r == cmd@.effect(old(self)@),
            final(self).undo_command() == cmd@.inverse(old(self)@),
            final(self).has_undo(),
            final(self).previous() == old(self)@,
            final(self).redo_commands() == old(self).redo_commands(),
    {
        let ghost v0 = self.state@;
        let ghost c = cmd@;
        proof {
            lemma_command_roundtrip(c, v0);
        }
        let (undo, effect) = cmd.apply(&mut self.state);
        let ghost v1 = self.state@;
        let ghost old_cmds = self.undo_cmds();
        let ghost old_states = self.undo_states@;
        self.undo_stack.push(undo);
        self.undo_states = Ghost(old_states.push(v1));
        proof {
            assert(self.undo_cmds() =~= old_cmds.push(c.inverse(v0)));
            lemma_chain_push(old_cmds, old_states, v0, c.inverse(v0), v1);
            assert forall|i: int| 0 <= i < self.undo_cmds().len() implies !(#[trigger] self.undo_cmds()[i] is AddUniverse) by {
                if i < old_cmds.len() {
                    assert(self.undo_cmds()[i] == old_cmds[i]);
                }
            }
        }
        effect
    }

    /// Undoes the last change; the command that redoes it goes on the redo
    /// stack, and redoing it right away gives back the document as it was.
    pub fn undo(&mut self) -> (r: DocEffect)
        requires
            old(self).wf(),
            old(self).has_undo(),
        ensures
            final(self).wf(),
            final(self)@ == old(self).previous(),
            r == old(self).undo_command().effect(old(self)@),
            final(self).redo_commands() == old(self).redo_commands().push(
                old(self).undo_command().inverse(old(self)@),
            ),
            final(self).redo_possible(),
            refreshed(final(self).redo_command(), final(self)@) == final(self).redo_command(),
            final(self).redo_command().applied(final(self)@) == old(self)@,
    {
        let ghost v0 = self.state@;
        let ghost ucmds = self.undo_cmds();
        let ghost ustates = self.undo_states@;
        let ghost rcmds = self.redo_commands();
        let ghost n = ucmds.len() - 1;
        let cmd = match self.undo_stack.pop() {
            Some(c) => c,
            None => vstd::pervasive::unreached(),
        };
        proof {
            assert(cmd@ == ucmds[n]);
            lemma_chain_pop(ucmds, ustates, v0);
            lemma_command_roundtrip(cmd@, v0);
        }
        let ghost c = cmd@;
        let (redo, effect) = cmd.apply(&mut self.state);
        let ghost v1 = self.state@;
        self.redo_stack.push(redo);
        self.undo_states = Ghost(ustates.drop_last());
        proof {
            assert(self.undo_cmds() =~= ucmds.drop_last());
            assert(self.redo_commands() =~= rcmds.push(c.inverse(v0)));
            lemma_chain_pop(ucmds, ustates, v0);
            lemma_enabled_redoable(c.inverse(v0), v1);
            assert(!(c is AddUniverse));
            assert forall|i: int| 0 <= i < self.undo_cmds().len() implies !(#[trigger] self.undo_cmds()[i] is AddUniverse) by {
                assert(self.undo_cmds()[i] == ucmds[i]);
            }
            assert forall|i: int|
                0 <= i < self.redo_commands().len() implies !(#[trigger] self.redo_commands()[i] is RemoveUniverse) by {
                if i < rcmds.len() {
                    assert(self.redo_commands()[i] == rcmds[i]);
                }
            }
        }
        effect
    }

    /// Redoes the last undone change, as it can be made to the document now;
    /// the command that undoes it goes on the undo stack.
    pub fn redo(&mut self) -> (r: DocEffect)
        requires
            old(self).wf(),
            old(self).redo_possible(),
        ensures
            final(self).wf(),
            final(self)@ == refreshed(old(self).redo_command(), old(self)@).applied(old(self)@),
            r == refreshed(old(self).redo_command(), old(self)@).effect(old(self)@),
            final(self).has_undo(),
            final(self).undo_command() == refreshed(old(self).redo_command(), old(self)@).inverse(old(self)@),
            final(self).previous() == old(self)@,
            final(self).redo_commands() == old(self).redo_commands().drop_last(),
    {
        let ghost v0 = self.state@;
        let ghost ucmds = self.undo_cmds();
        let ghost ustates = self.undo_states@;
        let ghost rcmds = self.redo_commands();
        let ghost n = rcmds.len() - 1;
        let stored = match self.redo_stack.pop() {
            Some(c) => c,
            None => vstd::pervasive::unreached(),
        };
        proof {
            assert(stored@ == rcmds[n]);
            assert(!(rcmds[n] is RemoveUniverse));
        }
        let cmd = stored.refresh(&self.state);
        proof {
            lemma_command_roundtrip(cmd@, v0);
        }
        let ghost c = cmd@;
        let (undo, effect) = cmd.apply(&mut self.state);
        let ghost v1 = self.state@;
        self.undo_stack.push(undo);
        self.undo_states = Ghost(ustates.push(v1));
        proof {
            assert(self.redo_commands() =~= rcmds.drop_last());
            assert(self.undo_cmds() =~= ucmds.push(c.inverse(v0)));
            lemma_chain_push(ucmds, ustates, v0, c.inverse(v0), v1);
            assert(!(c is RemoveUniverse));
            assert forall|i: int| 0 <= i < self.undo_cmds().len() implies !(#[trigger] self.undo_cmds()[i] is AddUniverse) by {
                if i < ucmds.len() {
                    assert(self.undo_cmds()[i] == ucmds[i]);
                }
            }
            assert forall|i: int|
                0 <= i < self.redo_commands().len() implies !(#[trigger] self.redo_commands()[i] is RemoveUniverse) by {
                assert(self.redo_commands()[i] == rcmds[i]);
            }
        }
        effect
    }

    /// Adds a fixture, if its id is new, its definition and mode resolve
    /// and its slots are free.
    pub fn add_fixture(&mut self, fixture: Fixture) -> (r: Result<DocEffect, FixtureAddError>)
        requires
            old(self).wf(),
        ensures
            final(self).wf(),
            match r {
                Ok(e) => {
                    &&& add_fixture_accepted(old(self)@, fixture)
                    &&& final(self)@ == CommandView::AddFixture(
                        fixture,
                        occupancy(old(self)@.catalog, fixture)->Some_0,
                    ).applied(old(self)@)
                    &&& final(self).undo_command() == CommandView::AddFixture(
                        fixture,
                        occupancy(old(self)@.catalog, fixture)->Some_0,
                    ).inverse(old(self)@)
                    &&& e == DocEffect::FixtureAdded(fixture.id_spec())
                    &&& final(self).has_undo() && final(self).previous() == old(self)@
                    &&& final(self).redo_commands() == old(self).redo_commands()
                },
                Err(e) => !add_fixture_accepted(old(self)@, fixture) && add_fixture_error(
                    old(self)@,
                    fixture,
                    e,
                ) && *final(self) == *old(self),
            },
    {
        match decider::add_fixture(&self.state, fixture) {
            Ok(cmd) => Ok(self.apply_command(cmd)),
            Err(e) => Err(e),
        }
    }

    /// Changes one property of fixture `id`.
    pub fn update_fixture(&mut self, id: FixtureId, change: FixtureChange) -> (r: Result<
        DocEffect,
        FixtureUpdateError,
    >)
        requires
            old(self).wf(),
        ensures
            final(self).wf(),
            match r {
                Ok(e) => {
                    &&& update_fixture_accepted(old(self)@, id, change)
                    &&& final(self)@ == CommandView::UpdateFixture(
                        id,
                        change,
                        old(self)@.occ(id),
                        occupancy(old(self)@.catalog, old(self)@.fixtures[id].changed(change))->Some_0,
                    ).applied(old(self)@)
                    &&& final(self).undo_command() == CommandView::UpdateFixture(
                        id,
                        change,
                        old(self)@.occ(id),
                        occupancy(old(self)@.catalog, old(self)@.fixtures[id].changed(change))->Some_0,
                    ).inverse(old(self)@)
                    &&& e == DocEffect::FixtureUpdated(id)
                    &&& final(self).has_undo() && final(self).previous() == old(self)@
                    &&& final(self).redo_commands() == old(self).redo_commands()
                },
                Err(e) => !update_fixture_accepted(old(self)@, id, change) && update_fixture_error(
                    old(self)@,
                    id,
                    change,
                    e,
                ) && *final(self) == *old(self),
            },
    {
        match decider::update_fixture(&self.state, id, change) {
            Ok(cmd) => Ok(self.apply_command(cmd)),
            Err(e) => Err(e),
        }
    }

    /// Removes fixture `id` and frees its slots.
    pub fn remove_fixture(&mut self, id: &FixtureId) -> (r: Result<DocEffect, FixtureRemoveError>)
        requires
            old(self).wf(),
        ensures
            final(self).wf(),
            match r {
                Ok(e) => {
                    &&& old(self)@.fixtures.contains_key(*id)
                    &&& final(self)@ == CommandView::RemoveFixture(*id).applied(old(self)@)
                    &&& final(self).undo_command() == CommandView::RemoveFixture(*id).inverse(old(self)@)
                    &&& e == DocEffect::FixtureRemoved(*id)
                    &&& final(self).has_undo() && final(self).previous() == old(self)@
                    &&& final(self).redo_commands() == old(self).redo_commands()
                },
                Err(e) => !old(self)@.fixtures.contains_key(*id) && e
                    == FixtureRemoveError::FixtureNotFound(super::errors::FixtureNotFoundError(*id))
                    && *final(self) == *old(self),
            },
    {
        match decider::remove_fixture(&self.state, id) {
            Ok(cmd) => Ok(self.apply_command(cmd)),
            Err(e) => Err(e),
        }
    }

    /// Adds an effect spec with a new id.
    pub fn add_effect_spec(&mut self, spec: EffectSpec) -> (r: Result<DocEffect, AddEffectSpecError>)
        requires
            old(self).wf(),
        ensures
            final(self).wf(),
            match r {
                Ok(e) => {
                    &&& !old(self)@.effect_specs.contains_key(spec.id_spec())
                    &&& final(self)@ == CommandView::AddEffectSpec(spec).applied(old(self)@)
                    &&& final(self).undo_command() == CommandView::AddEffectSpec(spec).inverse(old(self)@)
                    &&& e == DocEffect::EffectSpecAdded(spec.id_spec())
                    &&& final(self).has_undo() && final(self).previous() == old(self)@
                    &&& final(self).redo_commands() == old(self).redo_commands()
                },
                Err(e) => old(self)@.effect_specs.contains_key(spec.id_spec()) && e
                    == AddEffectSpecError::IdAlreadyUsed(spec.id_spec()) && *final(self) == *old(self),
            },
    {
        match decider::add_effect_spec(&self.state, spec) {
            Ok(cmd) => Ok(self.apply_command(cmd)),
            Err(e) => Err(e),
        }
    }

    /// Changes effect spec `id`.
    pub fn update_effect_spec(&mut self, id: EffectSpecId, change: EffectSpecChange) -> (r: Result<
        DocEffect,
        UpdateEffectSpecError,
    >)
        requires
            old(self).wf(),
        ensures
            final(self).wf(),
            match r {
                Ok(e) => {
                    &&& old(self)@.effect_specs.contains_key(id)
                    &&& final(self)@.effect_specs.contains_key(id)
                    &&& old(self)@.effect_specs[id].changed_to(change, final(self)@.effect_specs[id])
                    &&& final(self)@ == (DocView {
                        effect_specs: old(self)@.effect_specs.insert(id, final(self)@.effect_specs[id]),
                        ..old(self)@
                    })
                    &&& final(self).undo_command() == CommandView::UpdateEffectSpec(
                        final(self)@.effect_specs[id],
                        old(self)@.effect_specs[id],
                    )
                    &&& e == DocEffect::EffectSpecUpdated(id)
                    &&& final(self).has_undo() && final(self).previous() == old(self)@
                    &&& final(self).redo_commands() == old(self).redo_commands()
                },
                Err(e) => !old(self)@.effect_specs.contains_key(id) && e
                    == UpdateEffectSpecError::NotFound(id) && *final(self) == *old(self),
            },
    {
        match decider::update_effect_spec(&self.state, id, change) {
            Ok(cmd) => Ok(self.apply_command(cmd)),
            Err(e) => Err(e),
        }
    }

    /// Removes effect spec `id`.
    pub fn remove_effect_spec(&mut self, id: EffectSpecId) -> (r: Result<DocEffect, RemoveEffectSpecError>)
        requires
            old(self).wf(),
        ensures
            final(self).wf(),
            match r {
                Ok(e) => {
                    &&& old(self)@.effect_specs.contains_key(id)
                    &&& final(self)@ == CommandView::RemoveEffectSpec(id).applied(old(self)@)
                    &&& final(self).undo_command() == CommandView::RemoveEffectSpec(id).inverse(old(self)@)
                    &&& e == DocEffect::EffectSpecRemoved(id)
                    &&& final(self).has_undo() && final(self).previous() == old(self)@
                    &&& final(self).redo_commands() == old(self).redo_commands()
                },
                Err(e) => !old(self)@.effect_specs.contains_key(id) && e
                    == RemoveEffectSpecError::NotFound(id) && *final(self) == *old(self),
            },
    {
        match decider::remove_effect_spec(&self.state, id) {
            Ok(cmd) => Ok(self.apply_command(cmd)),
            Err(e) => Err(e),
        }
    }

    /// Adds an effect template with a new id.
    pub fn add_effect_template(&mut self, tmpl: EffectTemplate) -> (r: Result<
        DocEffect,
        AddEffectTemplateError,
    >)
        requires
            old(self).wf(),
        ensures
            final(self).wf(),
            match r {
                Ok(e) => {
                    &&& !old(self)@.effect_templates.contains_key(tmpl.id_spec())
                    &&& final(self)@ == CommandView::AddEffectTemplate(tmpl).applied(old(self)@)
                    &&& final(self).undo_command() == CommandView::AddEffectTemplate(tmpl).inverse(old(self)@)
                    &&& e == DocEffect::EffectTemplateAdded(tmpl.id_spec())
                    &&& final(self).has_undo() && final(self).previous() == old(self)@
                    &&& final(self).redo_commands() == old(self).redo_commands()
                },
                Err(e) => old(self)@.effect_templates.contains_key(tmpl.id_spec()) && e
                    == AddEffectTemplateError::IdAlreadyUsed(tmpl.id_spec()) && *final(self)
                    == *old(self),
            },
    {
        match decider::add_effect_template(&self.state, tmpl) {
            Ok(cmd) => Ok(self.apply_command(cmd)),
            Err(e) => Err(e),
        }
    }

    /// Changes effect template `id`.
    pub fn update_effect_template(&mut self, id: EffectTemplateId, change: EffectTemplateChange) -> (r:
        Result<DocEffect, UpdateEffectTemplateError>)
        requires
            old(self).wf(),
        ensures
            final(self).wf(),
            match r {
                Ok(e) => {
                    &&& old(self)@.effect_templates.contains_key(id)
                    &&& final(self)@.effect_templates.contains_key(id)
                    &&& old(self)@.effect_templates[id].changed_to(
                        change,
                        final(self)@.effect_templates[id],
                    )
                    &&& final(self)@ == (DocView {
                        effect_templates: old(self)@.effect_templates.insert(
                            id,
                            final(self)@.effect_templates[id],
                        ),
                        ..old(self)@
                    })
                    &&& final(self).undo_command() == CommandView::UpdateEffectTemplate(
                        final(self)@.effect_templates[id],
                        old(self)@.effect_templates[id],
                    )
                    &&& e == DocEffect::EffectTemplateUpdated(id)
                    &&& final(self).has_undo() && final(self).previous() == old(self)@
                    &&& final(self).redo_commands() == old(self).redo_commands()
                },
                Err(e) => !old(self)@.effect_templates.contains_key(id) && e
                    == UpdateEffectTemplateError::NotFound(id) && *final(self) == *old(self),
            },
    {
        match decider::update_effect_template(&self.state, id, change) {
            Ok(cmd) => Ok(self.apply_command(cmd)),
            Err(e) => Err(e),
        }
    }

    /// Removes effect template `id`.
    pub fn remove_effect_template(&mut self, id: EffectTemplateId) -> (r: Result<
        DocEffect,
        RemoveEffectTemplateError,
    >)
        requires
            old(self).wf(),
        ensures
            final(self).wf(),
            match r {
                Ok(e) => {
                    &&& old(self)@.effect_templates.contains_key(id)
                    &&& final(self)@ == CommandView::RemoveEffectTemplate(id).applied(old(self)@)
                    &&& final(self).undo_command() == CommandView::RemoveEffectTemplate(id).inverse(old(self)@)
                    &&& e == DocEffect::EffectTemplateRemoved(id)
                    &&& final(self).has_undo() && final(self).previous() == old(self)@
                    &&& final(self).redo_commands() == old(self).redo_commands()
                },
                Err(e) => !old(self)@.effect_templates.contains_key(id) && e
                    == RemoveEffectTemplateError::NotFound(id) && *final(self) == *old(self),
            },
    {
        match decider::remove_effect_template(&self.state, id) {
            Ok(cmd) => Ok(self.apply_command(cmd)),
            Err(e) => Err(e),
        }
    }

    /// Adds an effect with a new id.
    pub fn add_effect(&mut self, effect: Effect) -> (r: Result<DocEffect, AddEffectError>)
        requires
            old(self).wf(),
        ensures
            final(self).wf(),
            match r {
                Ok(e) => {
                    &&& !old(self)@.effects.contains_key(effect.id_spec())
                    &&& final(self)@ == CommandView::AddEffect(effect).applied(old(self)@)
                    &&& final(self).undo_command() == CommandView::AddEffect(effect).inverse(old(self)@)
                    &&& e == DocEffect::EffectAdded(effect.id_spec())
                    &&& final(self).has_undo() && final(self).previous() == old(self)@
                    &&& final(self).redo_commands() == old(self).redo_commands()
                },
                Err(e) => old(self)@.effects.contains_key(effect.id_spec()) && e
                    == AddEffectError::IdAlreadyUsed(effect.id_spec()) && *final(self) == *old(self),
            },
    {
        match decider::add_effect(&self.state, effect) {
            Ok(cmd) => Ok(self.apply_command(cmd)),
            Err(e) => Err(e),
        }
    }

    /// Changes effect `id`.
    pub fn update_effect(&mut self, id: EffectId, change: EffectChange) -> (r: Result<
        DocEffect,
        UpdateEffectError,
    >)
        requires
            old(self).wf(),
        ensures
            final(self).wf(),
            match r {
                Ok(e) => {
                    &&& old(self)@.effects.contains_key(id)
                    &&& final(self)@.effects.contains_key(id)
                    &&& old(self)@.effects[id].changed_to(change, final(self)@.effects[id])
                    &&& final(self)@ == (DocView {
                        effects: old(self)@.effects.insert(id, final(self)@.effects[id]),
                        ..old(self)@
                    })
                    &&& final(self).undo_command() == CommandView::UpdateEffect(
                        final(self)@.effects[id],
                        old(self)@.effects[id],
                    )
                    &&& e == DocEffect::EffectUpdated(id)
                    &&& final(self).has_undo() && final(self).previous() == old(self)@
                    &&& final(self).redo_commands() == old(self).redo_commands()
                },
                Err(e) => !old(self)@.effects.contains_key(id) && e == UpdateEffectError::NotFound(id)
                    && *final(self) == *old(self),
            },
    {
        match decider::update_effect(&self.state, id, change) {
            Ok(cmd) => Ok(self.apply_command(cmd)),
            Err(e) => Err(e),
        }
    }

    /// Removes effect `id`.
    pub fn remove_effect(&mut self, id: EffectId) -> (r: Result<DocEffect, RemoveEffectError>)
        requires
            old(self).wf(),
        ensures
            final(self).wf(),
            match r {
                Ok(e) => {
                    &&& old(self)@.effects.contains_key(id)
                    &&& final(self)@ == CommandView::RemoveEffect(id).applied(old(self)@)
                    &&& final(self).undo_command() == CommandView::RemoveEffect(id).inverse(old(self)@)
                    &&& e == DocEffect::EffectRemoved(id)
                    &&& final(self).has_undo() && final(self).previous() == old(self)@
                    &&& final(self).redo_commands() == old(self).redo_commands()
                },
                Err(e) => !old(self)@.effects.contains_key(id) && e == RemoveEffectError::NotFound(id)
                    && *final(self) == *old(self),
            },
    {
        match decider::remove_effect(&self.state, id) {
            Ok(cmd) => Ok(self.apply_command(cmd)),
            Err(e) => Err(e),
        }
    }

    /// Adds a universe after the highest one, or universe 0 when there is
    /// none; it has no output.
    pub fn add_universe(&mut self) -> (r: DocEffect)
        requires
            old(self).wf(),
            forall|u: UniverseId| #[trigger] old(self)@.universes.contains_key(u) ==> u.num() < 255,
        ensures
            final(self).wf(),
            final(self)@ == CommandView::AddUniverse.applied(old(self)@),
            final(self).undo_command() == CommandView::AddUniverse.inverse(old(self)@),
            r == DocEffect::UniverseAdded(super::commands::next_universe(old(self)@.universes.dom())),
            final(self).has_undo() && final(self).previous() == old(self)@,
            final(self).redo_commands() == old(self).redo_commands(),
    {
        self.apply_command(AddUniverseCommand::new())
    }
}

} // verus!
