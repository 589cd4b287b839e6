//! The engine: the values of each universe, the running effect and the
//! values set live. A tick clears the universes, writes the live values,
//! runs the effect and applies what it asks for. Receiving commands, waiting
//! between ticks and handing frames to the output plugins are the caller's.
use crate::doc::errors::ResolveError;
use crate::doc::resolve::ResolvedAddress;
use crate::doc::state::{DocState, DocView};
use crate::effects::create::{effect_made, effect_ok, effect_runtime_at};
use crate::effects::runtime::EffectRuntime;
use crate::effects::EffectCommand;
use crate::fixture::MergeMode;
use crate::fixture_def::lookup_def;
use crate::ids::{EffectId, FixtureId, OutputPluginId};
use crate::keyed::KeyedVec;
use crate::plugins::DmxFrame;
use crate::time::Duration;
use crate::universe::{DmxAddress, UniverseId};
use vstd::prelude::*;

verus! {

/// How long one tick of the engine lasts, in milliseconds.
pub const TICK_MILLIS: u64 = 100;

/// How many references an effect that the engine starts may follow: one
/// more than the number of stored effects, templates and specs, so that only
/// a chain that comes back to where it has been falls short of it.
pub open spec fn resolve_depth(v: DocView) -> nat {
    let n = v.effects.dom().len() + v.effect_templates.dom().len() + v.effect_specs.dom().len() + 1;
    if n <= u64::MAX {
        n
    } else {
        u64::MAX as nat
    }
}

/// One tick, in nanoseconds.
pub open spec fn tick_ns() -> nat {
    100_000_000
}

/// The value of a slot that held `old` after `new` is written to it: the
/// highest wins under HTP, the latest under LTP.
pub open spec fn merged(mode: MergeMode, old: u8, new: u8) -> u8 {
    match mode {
        MergeMode::HTP => if new > old {
            new
        } else {
            old
        },
        MergeMode::LTP => new,
    }
}

/// A universe where every slot is 0.
pub open spec fn zeros() -> Seq<u8> {
    Seq::new(512, |i: int| 0u8)
}

/// The values of the 512 slots of one universe.
#[derive(Clone, Copy, Debug)]
pub struct UniverseState {
    values: [u8; 512],
}

impl View for UniverseState {
    type V = Seq<u8>;

    closed spec fn view(&self) -> Seq<u8> {
        self.values@
    }
}

impl UniverseState {
    /// A universe has 512 slots.
    pub proof fn lemma_len(&self)
        ensures
            self@.len() == 512,
    {
    }

    /// A universe of zeros.
    pub fn new() -> (r: Self)
        ensures
            r@ == zeros(),
    {
        let r = UniverseState { values: [0u8; 512] };
        assert(r@ =~= zeros());
        r
    }

    /// Sets every slot to 0.
    pub fn clear(&mut self)
        ensures
            final(self)@ == zeros(),
    {
        self.values = [0u8; 512];
        assert(self@ =~= zeros());
    }

    /// Writes `value` to the slot of `resolved_address`, merged by the mode
    /// of its channel.
    pub fn set_value(&mut self, resolved_address: &ResolvedAddress, value: u8)
        ensures
            final(self)@.len() == 512,
            final(self)@ == old(self)@.update(
                resolved_address.address.num() - 1,
                merged(
                    resolved_address.channel_def.merge_mode_spec(),
                    old(self)@[resolved_address.address.num() - 1],
                    value,
                ),
            ),
    {
        let idx = resolved_address.address.value() - 1;
        let ghost before = self@;
        match resolved_address.channel_def.merge_mode() {
            MergeMode::HTP => {
                if value > self.values[idx] {
                    self.values[idx] = value;
                }
            },
            MergeMode::LTP => {
                self.values[idx] = value;
            },
        }
        assert(self@ =~= before.update(
            idx as int,
            merged(resolved_address.channel_def.merge_mode_spec(), before[idx as int], value),
        ));
    }

    /// The frame of this universe.
    pub fn frame(&self) -> (r: DmxFrame)
        ensures
            r@ == self@,
    {
        DmxFrame::from_values(self.values)
    }
}

/// A request to the engine. `P` is the output plugin that `AddPlugin`
/// brings, which the caller starts.
#[derive(Debug)]
pub enum EngineCommand<P> {
    StartFunction(EffectId),
    /// Stops the running effect.
    StopFunction,
    SetLiveValue { fixture_id: FixtureId, channel: String, value: u8 },
    AddPlugin { universe: UniverseId, plugin: P },
    Shutdown,
    UniverseAdded(UniverseId),
    UniverseRemoved(UniverseId),
}

/// A report from the engine.
#[derive(Debug)]
pub enum EngineMessage {
    ErrorOccured(EngineError),
}

/// What went wrong in the engine.
#[derive(Debug)]
pub enum EngineError {
    ResolvingAddress { fixture_id: FixtureId, channel: String, source: ResolveError },
    ResolveAddress(ResolveError),
    RunningFunction { function_id: EffectId },
    SendingDmx { universe_id: UniverseId, plugin_id: OutputPluginId },
    FunctionNotFound { function_id: EffectId },
    OutputPluginNotFound { id: OutputPluginId },
    /// A write reached a universe that the engine was not told of.
    UniverseNotInitialized(UniverseId),
}

/// The engine as values.
pub struct EngineView {
    pub active: Option<EffectRuntime>,
    /// The effect whose runtime is running, as it was started.
    pub running: Option<EffectId>,
    pub plugins: Seq<UniverseId>,
    pub universes: Map<UniverseId, Seq<u8>>,
    pub live: Map<(FixtureId, Seq<char>), u8>,
    pub shutdown: bool,
}

/// Runs effects and keeps the universes.
#[derive(Debug)]
pub struct Engine {
    active_runtime: Option<EffectRuntime>,
    active_id: Option<EffectId>,
    plugins: Vec<UniverseId>,
    universe_states: KeyedVec<UniverseId, UniverseState>,
    live_values: KeyedVec<(FixtureId, String), u8>,
    should_shutdown: bool,
}

impl View for Engine {
    type V = EngineView;

    closed spec fn view(&self) -> EngineView {
        EngineView {
            active: self.active_runtime,
            running: self.active_id,
            plugins: self.plugins@,
            universes: self.universe_states@.map_values(|s: UniverseState| s@),
            live: self.live_values@,
            shutdown: self.should_shutdown,
        }
    }
}

/// The channels of the mode of fixture `f`.
pub open spec fn mode_channels(v: DocView, f: FixtureId) -> Seq<String> {
    let fx = v.fixtures[f];
    lookup_def(v.catalog, fx.def_spec()@)->Some_0.mode_map()[fx.mode_spec()@].channels()
}

/// How the channel at offset `o` of fixture `f` merges.
pub open spec fn channel_merge(v: DocView, f: FixtureId, o: int) -> MergeMode {
    let fx = v.fixtures[f];
    lookup_def(v.catalog, fx.def_spec()@)->Some_0.channel_map()[mode_channels(v, f)[o]@].merge_mode_spec()
}

/// Every channel of fixture `f` has a template and a slot.
pub open spec fn fixture_channels_complete(v: DocView, f: FixtureId) -> bool {
    &&& v.occ(f).len() == mode_channels(v, f).len()
    &&& forall|i: int|
        0 <= i < mode_channels(v, f).len() ==> lookup_def(
            v.catalog,
            v.fixtures[f].def_spec()@,
        )->Some_0.channel_map().contains_key(#[trigger] mode_channels(v, f)[i]@)
}

/// The channel at offset `o` of fixture `f`, where the fixture's mode has
/// one, has a template: a write to it can be merged.
pub open spec fn offset_writable(v: DocView, f: FixtureId, o: int) -> bool {
    v.fixtures.contains_key(f) && 0 <= o < mode_channels(v, f).len() ==> lookup_def(
        v.catalog,
        v.fixtures[f].def_spec()@,
    )->Some_0.channel_map().contains_key(mode_channels(v, f)[o]@)
}

/// Each channel named `name` of fixture `f` has a template and a slot: a
/// write to it can be merged and placed.
pub open spec fn name_writable(v: DocView, f: FixtureId, name: Seq<char>) -> bool {
    v.fixtures.contains_key(f) ==> forall|i: int|
        0 <= i < mode_channels(v, f).len() && #[trigger] mode_channels(v, f)[i]@ == name ==> lookup_def(
            v.catalog,
            v.fixtures[f].def_spec()@,
        )->Some_0.channel_map().contains_key(name) && i < v.occ(f).len()
}

/// Every write among `cmds` goes to a channel that can be written.
pub open spec fn writes_writable(v: DocView, cmds: Seq<EffectCommand>) -> bool {
    forall|i: int|
        0 <= i < cmds.len() ==> match #[trigger] cmds[i] {
            EffectCommand::WriteUniverse { fixture_id, channel, .. } => offset_writable(v, fixture_id, channel as int),
            _ => true,
        }
}

/// Every live value of `live` names channels that can be written.
pub open spec fn live_writable(v: DocView, live: Seq<((FixtureId, String), u8)>) -> bool {
    forall|i: int| 0 <= i < live.len() ==> name_writable(v, (#[trigger] live[i]).0.0, live[i].0.1@)
}

/// A document whose channels are all complete can be written anywhere.
pub proof fn lemma_complete_writable(v: DocView)
    requires
        channels_complete(v),
    ensures
        forall|f: FixtureId, o: int| #[trigger] offset_writable(v, f, o),
        forall|f: FixtureId, name: Seq<char>| #[trigger] name_writable(v, f, name),
{
    assert forall|f: FixtureId, o: int| #[trigger] offset_writable(v, f, o) by {
        if v.fixtures.contains_key(f) && 0 <= o < mode_channels(v, f).len() {
            assert(fixture_channels_complete(v, f));
        }
    }
    assert forall|f: FixtureId, name: Seq<char>| #[trigger] name_writable(v, f, name) by {
        if v.fixtures.contains_key(f) {
            assert(fixture_channels_complete(v, f));
            assert forall|i: int|
                0 <= i < mode_channels(v, f).len() && #[trigger] mode_channels(v, f)[i]@ == name implies lookup_def(
                v.catalog,
                v.fixtures[f].def_spec()@,
            )->Some_0.channel_map().contains_key(name) && i < v.occ(f).len() by {
                assert(lookup_def(v.catalog, v.fixtures[f].def_spec()@)->Some_0.channel_map().contains_key(
                    mode_channels(v, f)[i]@,
                ));
            }
        }
    }
}

/// Every channel of every fixture has a template and a slot.
pub open spec fn channels_complete(v: DocView) -> bool {
    forall|f: FixtureId| #[trigger] v.fixtures.contains_key(f) ==> fixture_channels_complete(v, f)
}

/// The slot and merge mode of the channel at offset `o` of fixture `f`.
pub open spec fn offset_target(v: DocView, f: FixtureId, o: int) -> Option<(UniverseId, DmxAddress, MergeMode)> {
    if v.fixtures.contains_key(f) && 0 <= o < v.occ(f).len() {
        Some((v.occ(f)[o].0, v.occ(f)[o].1, channel_merge(v, f, o)))
    } else {
        None
    }
}

/// The first offset of a channel named `name` in `chans`.
pub open spec fn first_offset(chans: Seq<String>, name: Seq<char>) -> Option<int>
    decreases chans.len(),
{
    if chans.len() == 0 {
        None
    } else {
        match first_offset(chans.drop_last(), name) {
            Some(o) => Some(o),
            None => if chans.last()@ == name {
                Some(chans.len() - 1)
            } else {
                None
            },
        }
    }
}

/// The slot and merge mode of the first channel named `name` of fixture `f`.
pub open spec fn name_target(v: DocView, f: FixtureId, name: Seq<char>) -> Option<(UniverseId, DmxAddress, MergeMode)> {
    if v.fixtures.contains_key(f) {
        match first_offset(mode_channels(v, f), name) {
            Some(o) => offset_target(v, f, o),
            None => None,
        }
    } else {
        None
    }
}

/// `st` after `value` is written to the slot of `t`; nothing changes where
/// there is no slot or its universe is not kept.
pub open spec fn write_slot(
    st: Map<UniverseId, Seq<u8>>,
    t: Option<(UniverseId, DmxAddress, MergeMode)>,
    value: u8,
) -> Map<UniverseId, Seq<u8>> {
    match t {
        Some((u, a, m)) => if st.contains_key(u) {
            st.insert(u, st[u].update(a.num() - 1, merged(m, st[u][a.num() - 1], value)))
        } else {
            st
        },
        None => st,
    }
}

/// Where [`first_offset`] is `Some`, it is the first offset with that name;
/// where it is `None`, no channel has that name.
proof fn lemma_first_offset(chans: Seq<String>, name: Seq<char>)
    ensures
        match first_offset(chans, name) {
            Some(o) => 0 <= o < chans.len() && chans[o]@ == name && forall|j: int|
                0 <= j < o ==> #[trigger] chans[j]@ != name,
            None => forall|j: int| 0 <= j < chans.len() ==> #[trigger] chans[j]@ != name,
        },
    decreases chans.len(),
{
    if chans.len() > 0 {
        let d = chans.drop_last();
        lemma_first_offset(d, name);
        assert forall|j: int| 0 <= j < d.len() implies d[j] == chans[j] by {}
    }
}


/// What starting effect `id` does: where the effect resolves at
/// [`resolve_depth`], its runtime becomes the running one; otherwise nothing
/// changes.
pub open spec fn start_step(v: DocView, s0: EngineView, id: EffectId, s1: EngineView) -> bool {
    if effect_ok(v, id, resolve_depth(v)) {
        &&& s1.active matches Some(rt) && effect_made(v, id, rt, resolve_depth(v))
        &&& s1 == (EngineView { active: s1.active, running: Some(id), ..s0 })
    } else {
        s1 == s0
    }
}

/// What the engine does on command `c` of its running effect: a start
/// starts that effect, a stop stops the running one, a write writes to the
/// channel at that offset of that fixture.
pub open spec fn command_step(v: DocView, s0: EngineView, c: EffectCommand, s1: EngineView) -> bool {
    match c {
        EffectCommand::StartEffect(id) => if s0.running == Some(id) {
            s1 == s0
        } else {
            start_step(v, s0, id, s1)
        },
        EffectCommand::StopEffect => s1 == (EngineView { active: None, running: None, ..s0 }),
        EffectCommand::WriteUniverse { fixture_id, channel, value } => s1 == (EngineView {
            universes: write_slot(s0.universes, offset_target(v, fixture_id, channel as int), value),
            ..s0
        }),
    }
}

/// `trace` goes from `s0` through the commands of `cmds`, one at a time.
pub open spec fn commands_trace(v: DocView, s0: EngineView, cmds: Seq<EffectCommand>, trace: Seq<EngineView>) -> bool {
    &&& trace.len() == cmds.len() + 1
    &&& trace[0] == s0
    &&& forall|i: int| #![trigger cmds[i]] 0 <= i < cmds.len() ==> command_step(v, trace[i], cmds[i], trace[i + 1])
}

/// `s1` is `s0` after its running effect `rt` ran a tick, becoming `ran`,
/// and the engine applied what it wrote, going through `trace`.
pub open spec fn tick_result(
    v: DocView,
    s0: EngineView,
    rt: EffectRuntime,
    ran: EffectRuntime,
    trace: Seq<EngineView>,
    s1: EngineView,
) -> bool {
    &&& rt.ran(&ran, tick_ns())
    &&& commands_trace(v, EngineView { active: Some(ran), ..s0 }, rt.output(tick_ns()), trace)
    &&& s1 == trace.last()
}

/// `s1` is `s0` after its running effect, if any, ran a tick, and `msgs`
/// are the answers to what it asked for that could not be done.
pub open spec fn ran_active(v: DocView, s0: EngineView, s1: EngineView, msgs: Seq<EngineMessage>) -> bool {
    match s0.active {
        None => s1 == s0 && msgs.len() == 0,
        Some(rt) => exists|ran: EffectRuntime, trace: Seq<EngineView>|
            #[trigger] tick_result(v, s0, rt, ran, trace, s1) && command_reports(v, trace, rt.output(tick_ns()), msgs),
    }
}

/// `st` after each live value of `live` is written, in order, to the
/// channel it names.
pub open spec fn live_applied(
    v: DocView,
    st: Map<UniverseId, Seq<u8>>,
    live: Seq<((FixtureId, String), u8)>,
) -> Map<UniverseId, Seq<u8>>
    decreases live.len(),
{
    if live.len() == 0 {
        st
    } else {
        write_slot(live_applied(v, st, live.drop_last()), name_target(v, live.last().0.0, live.last().0.1@), live.last().1)
    }
}

/// `m` is what the engine answers to a start of effect `id`: nothing where
/// the effect resolves, otherwise that it is missing or cannot run.
pub open spec fn start_report(v: DocView, id: EffectId, m: Option<EngineMessage>) -> bool {
    match m {
        None => effect_ok(v, id, resolve_depth(v)),
        Some(EngineMessage::ErrorOccured(EngineError::FunctionNotFound { function_id: f })) => {
            !v.effects.contains_key(id) && f == id
        },
        Some(EngineMessage::ErrorOccured(EngineError::RunningFunction { function_id: f })) => {
            &&& v.effects.contains_key(id)
            &&& !effect_ok(v, id, resolve_depth(v))
            &&& f == id
        },
        _ => false,
    }
}

/// `m` is what the engine answers to a write to slot target `t` while its
/// universes are `st`: nothing where the slot's universe is kept, that the
/// universe is not kept otherwise; where there is no slot, `unresolved`.
pub open spec fn write_report(
    st: Map<UniverseId, Seq<u8>>,
    t: Option<(UniverseId, DmxAddress, MergeMode)>,
    m: Option<EngineMessage>,
    unresolved: bool,
) -> bool {
    match t {
        Some((u, _, _)) => if st.contains_key(u) {
            m is None
        } else {
            m == Some(EngineMessage::ErrorOccured(EngineError::UniverseNotInitialized(u)))
        },
        None => unresolved,
    }
}

/// `m` is what the engine answers to a write to the channel at offset `o`
/// of fixture `f`: where that channel does not resolve, an address error.
pub open spec fn offset_write_report(
    v: DocView,
    st: Map<UniverseId, Seq<u8>>,
    f: FixtureId,
    o: int,
    m: Option<EngineMessage>,
) -> bool {
    write_report(
        st,
        offset_target(v, f, o),
        m,
        m matches Some(EngineMessage::ErrorOccured(EngineError::ResolveAddress(_))),
    )
}

/// `m` is what the engine answers to a write to the first channel named
/// `name` of fixture `f`: where there is none, an error naming the fixture
/// and the channel.
pub open spec fn name_write_report(
    v: DocView,
    st: Map<UniverseId, Seq<u8>>,
    f: FixtureId,
    name: Seq<char>,
    m: Option<EngineMessage>,
) -> bool {
    write_report(
        st,
        name_target(v, f, name),
        m,
        m matches Some(
            EngineMessage::ErrorOccured(EngineError::ResolvingAddress { fixture_id: ff, channel: c, .. }),
        ) && ff == f && c@ == name,
    )
}

/// `m` is what the engine answers to command `c` of its running effect in
/// state `s0`.
pub open spec fn command_report(v: DocView, s0: EngineView, c: EffectCommand, m: Option<EngineMessage>) -> bool {
    match c {
        EffectCommand::StartEffect(id) => if s0.running == Some(id) {
            m is None
        } else {
            start_report(v, id, m)
        },
        EffectCommand::StopEffect => m is None,
        EffectCommand::WriteUniverse { fixture_id, channel, .. } => offset_write_report(
            v,
            s0.universes,
            fixture_id,
            channel as int,
            m,
        ),
    }
}

/// `msgs` are, in order, the answers that are not nothing to the commands
/// `cmds`, each given in its state of `trace`.
pub open spec fn command_reports(
    v: DocView,
    trace: Seq<EngineView>,
    cmds: Seq<EffectCommand>,
    msgs: Seq<EngineMessage>,
) -> bool
    decreases cmds.len(),
{
    if cmds.len() == 0 {
        msgs.len() == 0
    } else {
        let i = cmds.len() - 1;
        ||| command_report(v, trace[i], cmds[i], None) && command_reports(v, trace, cmds.drop_last(), msgs)
        ||| msgs.len() > 0 && command_report(v, trace[i], cmds[i], Some(msgs.last())) && command_reports(
            v,
            trace,
            cmds.drop_last(),
            msgs.drop_last(),
        )
    }
}

/// `msgs` are, in order, the answers that are not nothing to the writes of
/// the live values `live`, starting from universes `st`.
pub open spec fn live_reports(
    v: DocView,
    st: Map<UniverseId, Seq<u8>>,
    live: Seq<((FixtureId, String), u8)>,
    msgs: Seq<EngineMessage>,
) -> bool
    decreases live.len(),
{
    if live.len() == 0 {
        msgs.len() == 0
    } else {
        let p = live.drop_last();
        let e = live.last();
        let cur = live_applied(v, st, p);
        ||| name_write_report(v, cur, e.0.0, e.0.1@, None) && live_reports(v, st, p, msgs)
        ||| msgs.len() > 0 && name_write_report(v, cur, e.0.0, e.0.1@, Some(msgs.last())) && live_reports(
            v,
            st,
            p,
            msgs.drop_last(),
        )
    }
}

/// [`command_reports`] reads only the states of `trace` before each
/// command.
proof fn lemma_command_reports_trace(
    v: DocView,
    t1: Seq<EngineView>,
    t2: Seq<EngineView>,
    cmds: Seq<EffectCommand>,
    msgs: Seq<EngineMessage>,
)
    requires
        forall|j: int| 0 <= j < cmds.len() ==> t1[j] == t2[j],
    ensures
        command_reports(v, t1, cmds, msgs) <==> command_reports(v, t2, cmds, msgs),
    decreases cmds.len(),
{
    if cmds.len() > 0 {
        lemma_command_reports_trace(v, t1, t2, cmds.drop_last(), msgs);
        if msgs.len() > 0 {
            lemma_command_reports_trace(v, t1, t2, cmds.drop_last(), msgs.drop_last());
        }
        assert(t1[cmds.len() - 1] == t2[cmds.len() - 1]);
    }
}

/// Every universe of `st`, cleared.
pub open spec fn cleared(st: Map<UniverseId, Seq<u8>>) -> Map<UniverseId, Seq<u8>> {
    st.map_values(|s: Seq<u8>| zeros())
}

impl Engine {
    /// An engine with no effect, no plugin, no universe and no live value.
    pub fn new() -> (r: Self)
        ensures
            r@.active is None,
            r@.running is None,
            r@.plugins == Seq::<UniverseId>::empty(),
            r@.universes == Map::<UniverseId, Seq<u8>>::empty(),
            r@.live == Map::<(FixtureId, Seq<char>), u8>::empty(),
            r.live_entries() == Seq::<((FixtureId, String), u8)>::empty(),
            !r@.shutdown,
    {
        let r = Engine {
            active_runtime: None,
            active_id: None,
            plugins: Vec::new(),
            universe_states: KeyedVec::new(),
            live_values: KeyedVec::new(),
            should_shutdown: false,
        };
        assert(r@.universes =~= Map::<UniverseId, Seq<u8>>::empty());
        r
    }

    /// Whether a shutdown was asked for.
    pub fn should_shutdown(&self) -> (r: bool)
        ensures
            r == self@.shutdown,
    {
        self.should_shutdown
    }

    /// Whether the running effect, if any, can run the next tick.
    pub fn can_run_active(&self) -> (r: bool)
        ensures
            r == (self@.active matches Some(rt) ==> rt.can_run(tick_ns())),
    {
        match &self.active_runtime {
            Some(rt) => rt.can_run_for(Duration::from_millis(TICK_MILLIS)),
            None => true,
        }
    }

    /// Whether the next tick can be run on `doc`: every live value names
    /// channels that can be written, and the running effect, if any, can run
    /// the tick and writes only channels that can be written.
    pub fn can_tick(&self, doc: &DocState) -> (r: bool)
        requires
            doc@.consistent(),
        ensures
            r == (live_writable(doc@, self.live_entries()) && (self@.active matches Some(rt) ==> rt.can_run(
                tick_ns(),
            ) && writes_writable(doc@, rt.output(tick_ns())))),
    {
        let n = self.live_values.len();
        let mut i: usize = 0;
        while i < n
            invariant
                n == self.live_entries().len(),
                i <= n,
                doc@.consistent(),
                forall|j: int|
                    0 <= j < i ==> name_writable(
                        doc@,
                        (#[trigger] self.live_entries()[j]).0.0,
                        self.live_entries()[j].0.1@,
                    ),
            decreases n - i,
        {
            let k = self.live_values.key_at(i);
            if !doc.name_writable(k.0, &k.1) {
                return false;
            }
            i = i + 1;
        }
        match &self.active_runtime {
            Some(rt) => {
                let tick = Duration::from_millis(TICK_MILLIS);
                rt.can_run_for(tick) && rt.output_writable(doc, tick)
            },
            None => true,
        }
    }

    /// The live values, in the order they are written.
    pub closed spec fn live_entries(&self) -> Seq<((FixtureId, String), u8)> {
        self.live_values.entries()
    }

    /// Starts effect `function_id`, replacing the running one, where it
    /// resolves at [`resolve_depth`]. Reports an effect that is not stored,
    /// or that does not resolve.
    pub fn start_function(&mut self, function_id: EffectId, doc: &DocState) -> (r: Option<EngineMessage>)
        requires
            doc@.consistent(),
        ensures
            start_step(doc@, old(self)@, function_id, final(self)@),
            final(self).live_entries() == old(self).live_entries(),
            start_report(doc@, function_id, r),
    {
        if doc.effect(&function_id).is_none() {
            return Some(
                EngineMessage::ErrorOccured(EngineError::FunctionNotFound { function_id }),
            );
        }
        let depth = doc.resolve_depth();
        if !doc.can_create_runtime(function_id, depth) {
            return Some(EngineMessage::ErrorOccured(EngineError::RunningFunction { function_id }));
        }
        let rt = effect_runtime_at(doc, function_id, Ghost(depth as nat));
        self.active_runtime = Some(rt);
        self.active_id = Some(function_id);
        None
    }

    /// Writes `value` to the slot of `ra` in its universe, merged by the
    /// mode of its channel; reports a universe that is not kept.
    fn set_universe_value(&mut self, ra: &ResolvedAddress, value: u8) -> (r: Option<EngineMessage>)
        ensures
            final(self)@ == (EngineView {
                universes: write_slot(
                    old(self)@.universes,
                    Some((ra.universe, ra.address, ra.channel_def.merge_mode_spec())),
                    value,
                ),
                ..old(self)@
            }),
            final(self).live_entries() == old(self).live_entries(),
            if old(self)@.universes.contains_key(ra.universe) {
                r is None
            } else {
                r == Some(EngineMessage::ErrorOccured(EngineError::UniverseNotInitialized(ra.universe)))
            },
    {
        match self.universe_states.get(&ra.universe) {
            Some(st) => {
                let mut st = *st;
                st.set_value(ra, value);
                let _ = self.universe_states.insert(ra.universe, st);
                proof {
                    let old_u = old(self)@.universes;
                    let a = ra.address.num() - 1;
                    assert(self@.universes =~= old_u.insert(
                        ra.universe,
                        old_u[ra.universe].update(
                            a,
                            merged(ra.channel_def.merge_mode_spec(), old_u[ra.universe][a], value),
                        ),
                    ));
                }
                None
            },
            None => Some(
                EngineMessage::ErrorOccured(EngineError::UniverseNotInitialized(ra.universe)),
            ),
        }
    }

    /// Writes `value` to the channel at offset `channel` of fixture
    /// `fxt_id`. Reports a channel that does not resolve, and a universe
    /// that is not kept.
    pub fn write_universe(&mut self, doc: &DocState, fxt_id: FixtureId, channel: usize, value: u8) -> (r:
        Option<EngineMessage>)
        requires
            doc@.consistent(),
            offset_writable(doc@, fxt_id, channel as int),
        ensures
            final(self)@ == (EngineView {
                universes: write_slot(old(self)@.universes, offset_target(doc@, fxt_id, channel as int), value),
                ..old(self)@
            }),
            final(self).live_entries() == old(self).live_entries(),
            offset_write_report(doc@, old(self)@.universes, fxt_id, channel as int, r),
    {
        proof {
            if doc@.fixtures.contains_key(fxt_id) {
                let chans = mode_channels(doc@, fxt_id);
                if (channel as int) < chans.len() {
                    assert(lookup_def(doc@.catalog, doc@.fixtures[fxt_id].def_spec()@)->Some_0.channel_map().contains_key(
                        chans[channel as int]@,
                    ));
                }
            }
        }
        match doc.resolve_address_with_offset(fxt_id, channel) {
            Ok(ra) => self.set_universe_value(&ra, value),
            Err(e) => Some(EngineMessage::ErrorOccured(EngineError::ResolveAddress(e))),
        }
    }

    /// Writes `value` to the first channel named `channel` of fixture
    /// `fixture_id`. Reports a channel that does not resolve, and a universe
    /// that is not kept.
    pub fn write_universe_with_channel_name(
        &mut self,
        doc: &DocState,
        fixture_id: FixtureId,
        channel: &String,
        value: u8,
    ) -> (r: Option<EngineMessage>)
        requires
            doc@.consistent(),
            name_writable(doc@, fixture_id, channel@),
        ensures
            final(self)@ == (EngineView {
                universes: write_slot(old(self)@.universes, name_target(doc@, fixture_id, channel@), value),
                ..old(self)@
            }),
            final(self).live_entries() == old(self).live_entries(),
            name_write_report(doc@, old(self)@.universes, fixture_id, channel@, r),
    {
        proof {
            if doc@.fixtures.contains_key(fixture_id) {
                let chans = mode_channels(doc@, fixture_id);
                lemma_first_offset(chans, channel@);
            }
        }
        match doc.resolve_address(fixture_id, channel) {
            Ok(ra) => {
                proof {
                    let chans = mode_channels(doc@, fixture_id);
                    let o = first_offset(chans, channel@)->Some_0;
                    let o2 = choose|o2: int|
                        0 <= o2 < chans.len() && #[trigger] chans[o2]@ == channel@ && (forall|j: int|
                            0 <= j < o2 ==> #[trigger] chans[j]@ != channel@) && (ra.universe, ra.address)
                            == doc@.occ(fixture_id)[o2];
                    assert(first_offset(chans, channel@) is Some);
                    if o < o2 {
                        assert(chans[o]@ != channel@);
                    }
                    if o2 < o {
                        assert(chans[o2]@ != channel@);
                    }
                    assert(o == o2);
                }
                self.set_universe_value(&ra, value)
            },
            Err(e) => Some(
                EngineMessage::ErrorOccured(
                    EngineError::ResolvingAddress { fixture_id, channel: channel.clone(), source: e },
                ),
            ),
        }
    }

    /// Handles one request. A plugin to add is handed back, for the caller
    /// to start; its universe is recorded.
    pub fn handle_command<P>(&mut self, cmd: EngineCommand<P>, doc: &DocState) -> (r: (
        Option<P>,
        Option<EngineMessage>,
    ))
        requires
            doc@.consistent(),
        ensures
            match cmd {
                EngineCommand::StartFunction(id) => {
                    &&& start_step(doc@, old(self)@, id, final(self)@)
                    &&& r.0 is None
                    &&& start_report(doc@, id, r.1)
                },
                EngineCommand::StopFunction => {
                    &&& final(self)@ == (EngineView { active: None, running: None, ..old(self)@ })
                    &&& r.0 is None
                    &&& r.1 is None
                },
                EngineCommand::SetLiveValue { fixture_id, channel, value } => {
                    &&& final(self)@ == (EngineView {
                        live: if value == 0 {
                            old(self)@.live.remove((fixture_id, channel@))
                        } else {
                            old(self)@.live.insert((fixture_id, channel@), value)
                        },
                        ..old(self)@
                    })
                    &&& r.0 is None
                    &&& r.1 is None
                },
                EngineCommand::AddPlugin { universe, plugin } => {
                    &&& final(self)@ == (EngineView { plugins: old(self)@.plugins.push(universe), ..old(self)@ })
                    &&& r.0 == Some(plugin)
                    &&& r.1 is None
                },
                EngineCommand::Shutdown => {
                    &&& final(self)@ == (EngineView { shutdown: true, ..old(self)@ })
                    &&& r.0 is None
                    &&& r.1 is None
                },
                EngineCommand::UniverseAdded(id) => {
                    &&& final(self)@ == (EngineView {
                        universes: old(self)@.universes.insert(id, zeros()),
                        ..old(self)@
                    })
                    &&& r.0 is None
                    &&& r.1 is None
                },
                EngineCommand::UniverseRemoved(id) => {
                    &&& final(self)@ == (EngineView { universes: old(self)@.universes.remove(id), ..old(self)@ })
                    &&& r.0 is None
                    &&& r.1 is None
                },
            },
    {
        match cmd {
            EngineCommand::StartFunction(id) => (None, self.start_function(id, doc)),
            EngineCommand::StopFunction => {
                self.stop_function();
                (None, None)
            },
            EngineCommand::UniverseAdded(id) => {
                let _ = self.universe_states.insert(id, UniverseState::new());
                assert(self@.universes =~= old(self)@.universes.insert(id, zeros()));
                (None, None)
            },
            EngineCommand::UniverseRemoved(id) => {
                let _ = self.universe_states.remove(&id);
                assert(self@.universes =~= old(self)@.universes.remove(id));
                (None, None)
            },
            EngineCommand::SetLiveValue { fixture_id, channel, value } => {
                if value == 0 {
                    let _ = self.live_values.remove(&(fixture_id, channel));
                } else {
                    let _ = self.live_values.insert((fixture_id, channel), value);
                }
                (None, None)
            },
            EngineCommand::AddPlugin { universe, plugin } => {
                self.plugins.push(universe);
                (Some(plugin), None)
            },
            EngineCommand::Shutdown => {
                self.should_shutdown = true;
                (None, None)
            },
        }
    }

    /// Sets every slot of every universe to 0.
    pub fn clear_universes(&mut self)
        ensures
            final(self)@ == (EngineView { universes: cleared(old(self)@.universes), ..old(self)@ }),
            final(self).live_entries() == old(self).live_entries(),
    {
        let n = self.universe_states.len();
        let mut keys: Vec<UniverseId> = Vec::new();
        let mut i: usize = 0;
        while i < n
            invariant
                n == self.universe_states.entries().len(),
                i <= n,
                keys@.len() == i,
                forall|j: int| 0 <= j < i ==> #[trigger] keys@[j] == self.universe_states.entries()[j].0,
                forall|j: int|
                    0 <= j < n ==> self.universe_states@.contains_key(
                        #[trigger] self.universe_states.entries()[j].0@,
                    ),
            decreases n - i,
        {
            keys.push(*self.universe_states.key_at(i));
            i = i + 1;
        }
        proof {
            assert forall|u: UniverseId| #[trigger] old(self)@.universes.contains_key(u) implies keys@.contains(u) by {
                let j = crate::keyed::seq_index_of(self.universe_states.entries(), u);
                assert(keys@[j] == u);
            }
            assert forall|j: int| 0 <= j < n implies old(self)@.universes.contains_key(#[trigger] keys@[j]) by {
                assert(self.universe_states@.contains_key(self.universe_states.entries()[j].0@));
            }
        }
        let ghost u0 = old(self)@.universes;
        let mut k: usize = 0;
        while k < n
            invariant
                n == keys@.len(),
                k <= n,
                forall|u: UniverseId| #[trigger] u0.contains_key(u) ==> keys@.contains(u),
                forall|j: int| 0 <= j < n ==> u0.contains_key(#[trigger] keys@[j]),
                self@.universes.dom() == u0.dom(),
                forall|u: UniverseId|
                    #[trigger] self@.universes.contains_key(u) ==> self@.universes[u] == if keys@.take(
                        k as int,
                    ).contains(u) {
                        zeros()
                    } else {
                        u0[u]
                    },
                self@.active == old(self)@.active,
                self@.running == old(self)@.running,
                self@.plugins == old(self)@.plugins,
                self@.live == old(self)@.live,
                self@.shutdown == old(self)@.shutdown,
                self.live_entries() == old(self).live_entries(),
            decreases n - k,
        {
            let u = keys[k];
            let _ = self.universe_states.insert(u, UniverseState::new());
            proof {
                let t0 = keys@.take(k as int);
                let t1 = keys@.take(k + 1);
                assert(t1 =~= t0.push(u));
                assert forall|w: UniverseId| t1.contains(w) <==> t0.contains(w) || w == u by {
                    if t1.contains(w) {
                        let j = choose|j: int| 0 <= j < t1.len() && t1[j] == w;
                        if j < t0.len() {
                            assert(t0[j] == w);
                        }
                    }
                    if t0.contains(w) {
                        let j = choose|j: int| 0 <= j < t0.len() && t0[j] == w;
                        assert(t1[j] == w);
                    }
                    if w == u {
                        assert(t1[k as int] == w);
                    }
                }
                assert(self@.universes.dom() =~= u0.dom());
            }
            k = k + 1;
        }
        proof {
            assert(keys@.take(n as int) =~= keys@);
            assert(self@.universes =~= cleared(u0));
        }
    }

    /// Writes each live value, in order, to the channel it names; returns
    /// what could not be written.
    pub fn apply_live_values(&mut self, doc: &DocState) -> (r: Vec<EngineMessage>)
        requires
            doc@.consistent(),
            live_writable(doc@, old(self).live_entries()),
        ensures
            final(self)@ == (EngineView {
                universes: live_applied(doc@, old(self)@.universes, old(self).live_entries()),
                ..old(self)@
            }),
            final(self).live_entries() == old(self).live_entries(),
            live_reports(doc@, old(self)@.universes, old(self).live_entries(), r@),
    {
        let n = self.live_values.len();
        let ghost entries = self.live_entries();
        let mut msgs: Vec<EngineMessage> = Vec::new();
        let mut i: usize = 0;
        while i < n
            invariant
                n == entries.len(),
                i <= n,
                doc@.consistent(),
                live_writable(doc@, entries),
                self.live_entries() == entries,
                entries == old(self).live_entries(),
                self@ == (EngineView {
                    universes: live_applied(doc@, old(self)@.universes, entries.take(i as int)),
                    ..old(self)@
                }),
                live_reports(doc@, old(self)@.universes, entries.take(i as int), msgs@),
            decreases n - i,
        {
            let fid = self.live_values.key_at(i).0;
            let ch = self.live_values.key_at(i).1.clone();
            let val = *self.live_values.value_at(i);
            let ghost msgs0 = msgs@;
            assert(name_writable(doc@, entries[i as int].0.0, entries[i as int].0.1@));
            let m = self.write_universe_with_channel_name(doc, fid, &ch, val);
            if let Some(m) = m {
                msgs.push(m);
                proof {
                    assert(msgs@.drop_last() == msgs0);
                }
            }
            proof {
                assert(entries.take(i + 1).drop_last() =~= entries.take(i as int));
                assert(entries.take(i + 1).last() == entries[i as int]);
            }
            i = i + 1;
        }
        proof {
            assert(entries.take(n as int) =~= entries);
        }
        msgs
    }

    /// Runs the running effect, if any, for a tick and applies what it asks
    /// for, in order; returns what could not be done.
    pub fn run_active_function(&mut self, doc: &DocState) -> (r: Vec<EngineMessage>)
        requires
            doc@.consistent(),
            old(self)@.active matches Some(rt) ==> rt.can_run(tick_ns()) && writes_writable(
                doc@,
                rt.output(tick_ns()),
            ),
        ensures
            ran_active(doc@, old(self)@, final(self)@, r@),
            final(self).live_entries() == old(self).live_entries(),
    {
        let mut cur: Option<EffectRuntime> = None;
        std::mem::swap(&mut cur, &mut self.active_runtime);
        let (commands, ran) = match cur {
            Some(mut rt) => {
                let c = rt.run(Duration::from_millis(TICK_MILLIS));
                (c, rt)
            },
            None => {
                return Vec::new();
            },
        };
        let ghost rt0 = old(self)@.active->Some_0;
        self.active_runtime = Some(ran);
        let ghost s_start = self@;
        assert(s_start == (EngineView { active: Some(ran), ..old(self)@ }));
        let ghost mut trace: Seq<EngineView> = Seq::empty().push(self@);
        let mut msgs: Vec<EngineMessage> = Vec::new();
        let n = commands.len();
        let mut i: usize = 0;
        while i < n
            invariant
                n == commands@.len(),
                i <= n,
                doc@.consistent(),
                writes_writable(doc@, commands@),
                trace.len() == i + 1,
                trace[0] == s_start,
                trace.last() == self@,
                forall|j: int| #![trigger commands@[j]] 0 <= j < i ==> command_step(doc@, trace[j], commands@[j], trace[j + 1]),
                self.live_entries() == old(self).live_entries(),
                command_reports(doc@, trace, commands@.take(i as int), msgs@),
            decreases n - i,
        {
            let ghost before = self@;
            let ghost msgs0 = msgs@;
            let answer = match commands[i] {
                EffectCommand::StartEffect(id) => {
                    let running = match self.active_id {
                        Some(r) => r == id,
                        None => false,
                    };
                    if running {
                        None
                    } else {
                        self.start_function(id, doc)
                    }
                },
                EffectCommand::StopEffect => {
                    self.stop_function();
                    None
                },
                EffectCommand::WriteUniverse { fixture_id, channel, value } => self.write_universe(
                    doc,
                    fixture_id,
                    channel,
                    value,
                ),
            };
            assert(command_report(doc@, before, commands@[i as int], answer));
            if let Some(m) = answer {
                msgs.push(m);
                proof {
                    assert(msgs@.drop_last() == msgs0);
                }
            }
            proof {
                let t2 = trace.push(self@);
                lemma_command_reports_trace(doc@, trace, t2, commands@.take(i as int), msgs0);
                assert(commands@.take(i + 1).drop_last() =~= commands@.take(i as int));
                assert(commands@.take(i + 1).last() == commands@[i as int]);
                assert(t2[i as int] == before);
                assert(command_reports(doc@, t2, commands@.take(i + 1), msgs@));
                assert(command_step(doc@, before, commands@[i as int], self@));
                assert forall|j: int| #![trigger commands@[j]] 0 <= j < i + 1 implies command_step(doc@, t2[j], commands@[j], t2[j + 1]) by {
                    if j < i {
                        assert(t2[j] == trace[j]);
                        assert(t2[j + 1] == trace[j + 1]);
                    } else {
                        assert(t2[j] == before);
                    }
                }
                trace = t2;
            }
            i = i + 1;
        }
        proof {
            assert(tick_result(doc@, old(self)@, rt0, ran, trace, self@));
            assert(commands@.take(n as int) =~= commands@);
        }
        msgs
    }

    /// One tick: clears the universes, writes the live values, then runs
    /// the effect and applies what it asks for. Returns what could not be
    /// done.
    pub fn tick(&mut self, doc: &DocState) -> (r: Vec<EngineMessage>)
        requires
            doc@.consistent(),
            live_writable(doc@, old(self).live_entries()),
            old(self)@.active matches Some(rt) ==> rt.can_run(tick_ns()) && writes_writable(
                doc@,
                rt.output(tick_ns()),
            ),
        ensures
            exists|k: int|
                0 <= k <= r@.len() && live_reports(
                    doc@,
                    cleared(old(self)@.universes),
                    old(self).live_entries(),
                    #[trigger] r@.take(k),
                ) && ran_active(
                    doc@,
                    EngineView {
                        universes: live_applied(doc@, cleared(old(self)@.universes), old(self).live_entries()),
                        ..old(self)@
                    },
                    final(self)@,
                    r@.skip(k),
                ),
            final(self).live_entries() == old(self).live_entries(),
    {
        self.clear_universes();
        let mut msgs = self.apply_live_values(doc);
        let ghost live_msgs = msgs@;
        let mut more = self.run_active_function(doc);
        let ghost run_msgs = more@;
        msgs.append(&mut more);
        proof {
            let k = live_msgs.len() as int;
            assert(msgs@.take(k) =~= live_msgs);
            assert(msgs@.skip(k) =~= run_msgs);
        }
        msgs
    }

    /// The frame of each plugin's universe, in the order the plugins were
    /// added; `None` for a universe the engine does not keep.
    pub fn plugin_frames(&self) -> (r: Vec<Option<DmxFrame>>)
        ensures
            r@.len() == self@.plugins.len(),
            forall|i: int|
                0 <= i < r@.len() ==> match #[trigger] r@[i] {
                    Some(f) => self@.universes.contains_key(self@.plugins[i]) && f@
                        == self@.universes[self@.plugins[i]],
                    None => !self@.universes.contains_key(self@.plugins[i]),
                },
    {
        let n = self.plugins.len();
        let mut out: Vec<Option<DmxFrame>> = Vec::new();
        let mut i: usize = 0;
        while i < n
            invariant
                n == self@.plugins.len(),
                i <= n,
                out@.len() == i,
                forall|j: int|
                    0 <= j < i ==> match #[trigger] out@[j] {
                        Some(f) => self@.universes.contains_key(self@.plugins[j]) && f@
                            == self@.universes[self@.plugins[j]],
                        None => !self@.universes.contains_key(self@.plugins[j]),
                    },
            decreases n - i,
        {
            let f = match self.universe_states.get(&self.plugins[i]) {
                Some(st) => Some(st.frame()),
                None => None,
            };
            out.push(f);
            i = i + 1;
        }
        out
    }

    /// Stops the running effect; nothing happens when none runs.
    pub fn stop_function(&mut self)
        ensures
            final(self)@ == (EngineView { active: None, running: None, ..old(self)@ }),
            final(self).live_entries() == old(self).live_entries(),
    {
        self.active_runtime = None;
        self.active_id = None;
    }
}

impl DocState {
    /// [`resolve_depth`] of this document.
    pub fn resolve_depth(&self) -> (r: u64)
        ensures
            r == resolve_depth(self@),
    {
        let effects = self.effect_ids();
        let templates = self.effect_template_ids();
        let specs = self.effect_spec_ids();
        proof {
            assert(effects@.to_set() =~= self@.effects.dom());
            assert(templates@.to_set() =~= self@.effect_templates.dom());
            assert(specs@.to_set() =~= self@.effect_specs.dom());
            effects@.unique_seq_to_set();
            templates@.unique_seq_to_set();
            specs@.unique_seq_to_set();
        }
        let a = effects.len() as u64;
        let b = templates.len() as u64;
        let c = specs.len() as u64;
        a.saturating_add(b).saturating_add(c).saturating_add(1)
    }

    /// Whether a write to the channel at offset `o` of fixture `f` can be
    /// merged.
    pub fn offset_writable(&self, f: FixtureId, o: usize) -> (r: bool)
        requires
            self@.consistent(),
        ensures
            r == offset_writable(self@, f, o as int),
    {
        let fx = match self.fixture(&f) {
            Some(fx) => fx,
            None => {
                return true;
            },
        };
        let def = match self.fixture_defs().get(fx.fixture_def()) {
            Ok(d) => d,
            Err(_) => vstd::pervasive::unreached(),
        };
        let mode = match def.mode(fx.fixture_mode()) {
            Some(m) => m,
            None => vstd::pervasive::unreached(),
        };
        assert(mode.channels() == mode_channels(self@, f));
        match mode.get_channel_by_offset(o) {
            Some(name) => def.channel_template(name).is_some(),
            None => true,
        }
    }

    /// Whether each channel named `name` of fixture `f` has a template and a
    /// slot.
    pub fn name_writable(&self, f: FixtureId, name: &String) -> (r: bool)
        requires
            self@.consistent(),
        ensures
            r == name_writable(self@, f, name@),
    {
        let fx = match self.fixture(&f) {
            Some(fx) => fx,
            None => {
                return true;
            },
        };
        let def = match self.fixture_defs().get(fx.fixture_def()) {
            Ok(d) => d,
            Err(_) => vstd::pervasive::unreached(),
        };
        let mode = match def.mode(fx.fixture_mode()) {
            Some(m) => m,
            None => vstd::pervasive::unreached(),
        };
        let ghost chans = mode_channels(self@, f);
        assert(mode.channels() == chans);
        let slots = mode.occupied_addresses(fx.universe_id(), fx.address());
        assert(slots@ == self@.occ(f));
        let has_template = def.channel_template(name).is_some();
        let count = mode.footprint();
        let mut k: usize = 0;
        while k < count
            invariant
                count == chans.len(),
                k <= count,
                mode.channels() == chans,
                chans == mode_channels(self@, f),
                self@.fixtures.contains_key(f),
                slots@ == self@.occ(f),
                lookup_def(self@.catalog, self@.fixtures[f].def_spec()@) == Some(*def),
                has_template == def.channel_map().contains_key(name@),
                forall|m: int|
                    0 <= m < k && #[trigger] chans[m]@ == name@ ==> has_template && m < self@.occ(f).len(),
            decreases count - k,
        {
            let c = match mode.get_channel_by_offset(k) {
                Some(c) => c,
                None => vstd::pervasive::unreached(),
            };
            if *c == *name {
                if !has_template || k >= slots.len() {
                    return false;
                }
            }
            k = k + 1;
        }
        true
    }

    /// Whether every channel of every fixture has a template and a slot,
    /// which the engine needs of a document to write to it.
    pub fn channels_complete(&self) -> (r: bool)
        requires
            self@.consistent(),
        ensures
            r == channels_complete(self@),
    {
        let ids = self.fixture_ids();
        let n = ids.len();
        let mut i: usize = 0;
        while i < n
            invariant
                n == ids@.len(),
                i <= n,
                self@.consistent(),
                forall|j: int| 0 <= j < ids@.len() ==> self@.fixtures.contains_key(#[trigger] ids@[j]),
                forall|id: FixtureId| #[trigger] self@.fixtures.contains_key(id) ==> ids@.contains(id),
                forall|j: int| 0 <= j < i ==> fixture_channels_complete(self@, #[trigger] ids@[j]),
            decreases n - i,
        {
            let id = ids[i];
            assert(self@.fixtures.contains_key(id));
            let f = match self.fixture(&id) {
                Some(f) => f,
                None => vstd::pervasive::unreached(),
            };
            let def = match self.fixture_defs().get(f.fixture_def()) {
                Ok(d) => d,
                Err(_) => vstd::pervasive::unreached(),
            };
            let mode = match def.mode(f.fixture_mode()) {
                Some(m) => m,
                None => vstd::pervasive::unreached(),
            };
            let slots = mode.occupied_addresses(f.universe_id(), f.address());
            let count = mode.footprint();
            assert(mode.channels() == mode_channels(self@, id));
            if slots.len() != count {
                assert(!fixture_channels_complete(self@, id));
                return false;
            }
            let mut k: usize = 0;
            while k < count
                invariant
                    count == mode_channels(self@, id).len(),
                    k <= count,
                    mode.channels() == mode_channels(self@, id),
                    self@.fixtures.contains_key(id),
                    lookup_def(self@.catalog, self@.fixtures[id].def_spec()@) == Some(*def),
                    forall|m: int|
                        0 <= m < k ==> def.channel_map().contains_key(#[trigger] mode_channels(self@, id)[m]@),
                decreases count - k,
            {
                let name = match mode.get_channel_by_offset(k) {
                    Some(c) => c,
                    None => vstd::pervasive::unreached(),
                };
                if def.channel_template(name).is_none() {
                    proof {
                        assert(!def.channel_map().contains_key(mode_channels(self@, id)[k as int]@));
                        assert(!fixture_channels_complete(self@, id));
                    }
                    return false;
                }
                k = k + 1;
            }
            i = i + 1;
        }
        proof {
            assert forall|f: FixtureId| #[trigger] self@.fixtures.contains_key(f) implies fixture_channels_complete(self@, f) by {
                let j = choose|j: int| 0 <= j < ids@.len() && ids@[j] == f;
                assert(fixture_channels_complete(self@, ids@[j]));
            }
        }
        true
    }
}

} // verus!
