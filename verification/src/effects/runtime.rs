//! Running effects: each tick a runtime is given the time elapsed since the
//! previous tick and answers with the commands for the engine.
use crate::doc::state::{DocState, DocView};
use crate::effects::EffectCommand;
use crate::engine::{offset_writable, writes_writable};
use crate::ids::FixtureId;
use crate::keyed::KeyedVec;
use crate::time::{Duration, MAX_NANOS};
use vstd::prelude::*;

verus! {

broadcast use vstd::std_specs::vec::group_vec_axioms;

/// A channel of a fixture: the fixture and the channel's offset in its mode.
pub type ChannelKey = (FixtureId, usize);

/// `a + b` nanoseconds, or the longest span if that is out of range.
pub open spec fn sat_add(a: nat, b: nat) -> nat {
    if a + b <= MAX_NANOS {
        a + b
    } else {
        MAX_NANOS as nat
    }
}

/// The value of a channel fading from `from` to `to` over `duration`, after
/// `elapsed`: `from + (to - from) * elapsed / duration` rounded to the nearest
/// integer, halves away from zero; `to` once the fade is over.
pub open spec fn fade_value(from: u8, to: u8, elapsed: nat, duration: nat) -> u8 {
    if duration == 0 || elapsed >= duration {
        to
    } else {
        let f = from as int;
        let t = to as int;
        let d = duration as int;
        let e = elapsed as int;
        ((2 * f * (d - e) + 2 * t * e + d) / (2 * d)) as u8
    }
}

/// A fade starts at its first value: with no time elapsed, the faded
/// value is `from`.
pub proof fn lemma_fade_starts_at_from(from: u8, to: u8, duration: nat)
    requires
        duration > 0,
    ensures
        fade_value(from, to, 0, duration) == from,
{
    let f = from as int;
    let d = duration as int;
    assert((2 * f * d + d) / (2 * d) == f) by (nonlinear_arith)
        requires
            d > 0,
    {
        assert(2 * f * d + d == f * (2 * d) + d);
    }
}

/// A fade ends at its last value: once its whole time elapsed, the faded
/// value is `to`.
pub proof fn lemma_fade_ends_at_to(from: u8, to: u8, elapsed: nat, duration: nat)
    requires
        elapsed >= duration,
    ensures
        fade_value(from, to, elapsed, duration) == to,
{
}

/// A faded value lies between the two values it fades between.
pub proof fn lemma_fade_between(from: u8, to: u8, elapsed: nat, duration: nat)
    ensures
        (from <= to ==> from <= fade_value(from, to, elapsed, duration) <= to),
        (to <= from ==> to <= fade_value(from, to, elapsed, duration) <= from),
{
    if duration > 0 && elapsed < duration {
        let f = from as int;
        let t = to as int;
        let d = duration as int;
        let e = elapsed as int;
        let n = 2 * f * (d - e) + 2 * t * e + d;
        let lo = if f <= t { f } else { t };
        let hi = if f <= t { t } else { f };
        assert(2 * lo * d <= 2 * f * (d - e) + 2 * t * e && 2 * f * (d - e) + 2 * t * e <= 2 * hi * d)
            by (nonlinear_arith)
            requires
                0 <= e < d,
                lo <= f <= hi,
                lo <= t <= hi,
        ;
        assert(lo <= n / (2 * d) <= hi) by (nonlinear_arith)
            requires
                d > 0,
                2 * lo * d + d <= n,
                n <= 2 * hi * d + d,
                0 <= lo,
        {
            assert(n / (2 * d) >= lo) by {
                assert(lo * (2 * d) <= n);
            }
            assert(n / (2 * d) <= hi) by {
                assert(n < (hi + 1) * (2 * d));
            }
        }
    }
}

/// The value `m` holds for `k`, or 0.
pub open spec fn value_or_zero(m: Map<ChannelKey, u8>, k: ChannelKey) -> u8 {
    if m.contains_key(k) {
        m[k]
    } else {
        0
    }
}

/// The command that writes `v` to channel `k`.
pub open spec fn write_command(k: ChannelKey, v: u8) -> EffectCommand {
    EffectCommand::WriteUniverse { fixture_id: k.0, channel: k.1, value: v }
}

/// The value last written to each channel by `cmds`.
pub open spec fn frame_values(cmds: Seq<EffectCommand>) -> Map<ChannelKey, u8>
    decreases cmds.len(),
{
    if cmds.len() == 0 {
        Map::empty()
    } else {
        let m = frame_values(cmds.drop_last());
        match cmds.last() {
            EffectCommand::WriteUniverse { fixture_id, channel, value } => m.insert(
                (fixture_id, channel),
                value,
            ),
            _ => m,
        }
    }
}

/// `keys` followed by the channels that `cmds` writes and `keys` lacks, in
/// the order of their first write.
pub open spec fn frame_keys(keys: Seq<ChannelKey>, cmds: Seq<EffectCommand>) -> Seq<ChannelKey>
    decreases cmds.len(),
{
    if cmds.len() == 0 {
        keys
    } else {
        let ks = frame_keys(keys, cmds.drop_last());
        match cmds.last() {
            EffectCommand::WriteUniverse { fixture_id, channel, value } => if ks.contains(
                (fixture_id, channel),
            ) {
                ks
            } else {
                ks.push((fixture_id, channel))
            },
            _ => ks,
        }
    }
}

/// Fades every channel of two frames from its value in the first to its
/// value in the second.
#[derive(Debug)]
pub struct FadeInRuntime {
    from_values: KeyedVec<ChannelKey, u8>,
    to_values: KeyedVec<ChannelKey, u8>,
    ordered_keys: Vec<ChannelKey>,
    duration: Duration,
    elapsed: Duration,
}

impl FadeInRuntime {
    /// The channels written, in order.
    pub closed spec fn keys(&self) -> Seq<ChannelKey> {
        self.ordered_keys@
    }

    /// The values faded from.
    pub closed spec fn from_map(&self) -> Map<ChannelKey, u8> {
        self.from_values@
    }

    /// The values faded to.
    pub closed spec fn to_map(&self) -> Map<ChannelKey, u8> {
        self.to_values@
    }

    /// The length of the fade, in nanoseconds.
    pub closed spec fn duration_ns(&self) -> nat {
        self.duration.ns()
    }

    /// The time faded so far, in nanoseconds.
    pub closed spec fn elapsed_ns(&self) -> nat {
        self.elapsed.ns()
    }

    /// What a tick of `e` nanoseconds writes: each channel at its faded value.
    pub open spec fn output(&self, e: nat) -> Seq<EffectCommand> {
        let el = sat_add(self.elapsed_ns(), e);
        Seq::new(
            self.keys().len(),
            |i: int|
                write_command(
                    self.keys()[i],
                    fade_value(
                        value_or_zero(self.from_map(), self.keys()[i]),
                        value_or_zero(self.to_map(), self.keys()[i]),
                        el,
                        self.duration_ns(),
                    ),
                ),
        )
    }

    /// `next` is this fade after a tick of `e` nanoseconds.
    pub open spec fn faded(&self, next: &FadeInRuntime, e: nat) -> bool {
        &&& next.keys() == self.keys()
        &&& next.from_map() == self.from_map()
        &&& next.to_map() == self.to_map()
        &&& next.duration_ns() == self.duration_ns()
        &&& next.elapsed_ns() == sat_add(self.elapsed_ns(), e)
    }

    /// A fade over `duration` from the values that `from_step_last_frame`
    /// writes to those that `to_step_first_frame` writes; a channel missing on
    /// one side counts as 0 there.
    pub fn new(
        from_step_last_frame: &Vec<EffectCommand>,
        to_step_first_frame: &Vec<EffectCommand>,
        duration: Duration,
    ) -> (r: Self)
        ensures
            r.from_map() == frame_values(from_step_last_frame@),
            r.to_map() == frame_values(to_step_first_frame@),
            r.keys() == frame_keys(
                frame_keys(Seq::empty(), from_step_last_frame@),
                to_step_first_frame@,
            ),
            r.duration_ns() == duration.ns(),
            r.elapsed_ns() == 0,
    {
        let mut from_values: KeyedVec<ChannelKey, u8> = KeyedVec::new();
        let mut to_values: KeyedVec<ChannelKey, u8> = KeyedVec::new();
        let mut ordered_keys: Vec<ChannelKey> = Vec::new();
        collect_frame(from_step_last_frame, &mut from_values, &mut ordered_keys);
        collect_frame(to_step_first_frame, &mut to_values, &mut ordered_keys);
        FadeInRuntime { from_values, to_values, ordered_keys, duration, elapsed: Duration::zero() }
    }

    /// Advances the fade by `elapsed` and writes every channel at its faded
    /// value.
    pub fn run(&mut self, elapsed: Duration) -> (r: Vec<EffectCommand>)
        ensures
            r@ == old(self).output(elapsed.ns()),
            old(self).faded(&*final(self), elapsed.ns()),
    {
        self.elapsed = self.elapsed.saturating_add(elapsed);
        let el = self.elapsed.as_nanos();
        let d = self.duration.as_nanos();
        let n = self.ordered_keys.len();
        let mut out: Vec<EffectCommand> = Vec::new();
        let mut i: usize = 0;
        while i < n
            invariant
                n == self.ordered_keys@.len(),
                i <= n,
                el == self.elapsed_ns(),
                d == self.duration_ns(),
                el <= MAX_NANOS,
                d <= MAX_NANOS,
                out@.len() == i,
                forall|j: int|
                    0 <= j < i ==> #[trigger] out@[j] == write_command(
                        self.keys()[j],
                        fade_value(
                            value_or_zero(self.from_map(), self.keys()[j]),
                            value_or_zero(self.to_map(), self.keys()[j]),
                            el as nat,
                            d as nat,
                        ),
                    ),
            decreases n - i,
        {
            let key = self.ordered_keys[i];
            let from: u8 = match self.from_values.get(&key) {
                Some(v) => *v,
                None => 0,
            };
            let to: u8 = match self.to_values.get(&key) {
                Some(v) => *v,
                None => 0,
            };
            let value = fade_step(from, to, el, d);
            out.push(EffectCommand::WriteUniverse { fixture_id: key.0, channel: key.1, value });
            i = i + 1;
        }
        out
    }
}

/// [`fade_value`] computed on integers.
fn fade_step(from: u8, to: u8, elapsed: u128, duration: u128) -> (r: u8)
    requires
        elapsed <= MAX_NANOS,
        duration <= MAX_NANOS,
    ensures
        r == fade_value(from, to, elapsed as nat, duration as nat),
{
    if duration == 0 || elapsed >= duration {
        to
    } else {
        let f = from as u128;
        let t = to as u128;
        assert(2 * f * (duration - elapsed) <= 2 * 255 * MAX_NANOS) by (nonlinear_arith)
            requires
                f <= 255,
                duration - elapsed <= MAX_NANOS,
        ;
        assert(2 * t * elapsed <= 2 * 255 * MAX_NANOS) by (nonlinear_arith)
            requires
                t <= 255,
                elapsed <= MAX_NANOS,
        ;
        let num = 2 * f * (duration - elapsed) + 2 * t * elapsed + duration;
        let q = num / (2 * duration);
        assert(q <= 255) by (nonlinear_arith)
            requires
                num == 2 * f * (duration - elapsed) + 2 * t * elapsed + duration,
                q as int == (num as int) / (2 * (duration as int)),
                f <= 255,
                t <= 255,
                elapsed < duration,
                duration > 0,
        {
            assert(num <= 2 * 255 * (duration - elapsed) + 2 * 255 * elapsed + duration);
            assert(num < 2 * duration * 256);
        }
        q as u8
    }
}

/// Adds the writes of `frame` to `values` (last write wins) and their
/// channels, where new, to `keys`.
fn collect_frame(
    frame: &Vec<EffectCommand>,
    values: &mut KeyedVec<ChannelKey, u8>,
    keys: &mut Vec<ChannelKey>,
)
    requires
        old(values)@ == Map::<ChannelKey, u8>::empty(),
    ensures
        final(values)@ == frame_values(frame@),
        final(keys)@ == frame_keys(old(keys)@, frame@),
{
    let ghost k0 = keys@;
    let n = frame.len();
    let mut i: usize = 0;
    while i < n
        invariant
            n == frame@.len(),
            i <= n,
            values@ == frame_values(frame@.take(i as int)),
            keys@ == frame_keys(k0, frame@.take(i as int)),
        decreases n - i,
    {
        assert(frame@.take(i + 1).drop_last() =~= frame@.take(i as int));
        match frame[i] {
            EffectCommand::WriteUniverse { fixture_id, channel, value } => {
                let key = (fixture_id, channel);
                let _ = values.insert(key, value);
                let mut present = false;
                let mut j: usize = 0;
                while j < keys.len()
                    invariant
                        j <= keys@.len(),
                        present == (exists|m: int| 0 <= m < j && keys@[m] == key),
                    decreases keys@.len() - j,
                {
                    if keys[j].0 == key.0 && keys[j].1 == key.1 {
                        present = true;
                    }
                    j = j + 1;
                }
                if !present {
                    keys.push(key);
                }
            },
            _ => {},
        }
        i = i + 1;
    }
    assert(frame@.take(n as int) =~= frame@);
}


/// What part of a sequence step is running.
#[derive(Debug, Clone, Copy, PartialEq, Eq, Structural)]
pub enum SequenceStepState {
    Hold,
    FadeIn,
}

/// Writes the same commands on every tick.
#[derive(Debug)]
pub struct SimpleEffectRuntime {
    commands: Vec<EffectCommand>,
}

/// One step of a sequence: an optional fade from the previous step, then
/// its effect held for `hold`.
#[derive(Debug)]
pub struct StepRuntime {
    hold: Duration,
    fade_in: Option<Duration>,
    runtime: EffectRuntime,
    fadein_runtime: Option<FadeInRuntime>,
    time_to_next_action: Duration,
    running_state: SequenceStepState,
}

/// Runs its steps one after the other.
#[derive(Debug)]
pub struct SequenceEffectRuntime {
    steps: Vec<StepRuntime>,
    current_step_num: usize,
    dur_buffer: Duration,
}

/// Runs all its runtimes on every tick.
#[derive(Debug)]
pub struct ParallelEffectRuntime {
    runtimes: Vec<EffectRuntime>,
}

/// A running effect.
#[derive(Debug)]
pub enum EffectRuntime {
    Simple(SimpleEffectRuntime),
    Sequence(SequenceEffectRuntime),
    Parallel(ParallelEffectRuntime),
}

impl SimpleEffectRuntime {
    /// The commands written on every tick.
    pub closed spec fn commands_spec(&self) -> Seq<EffectCommand> {
        self.commands@
    }

    /// A runtime writing `commands`.
    pub fn from_commands(commands: Vec<EffectCommand>) -> (r: Self)
        ensures
            r.commands_spec() == commands@,
    {
        SimpleEffectRuntime { commands }
    }

    /// The value written to each channel of `values`, in the order of its
    /// entries.
    pub fn new(values: &KeyedVec<ChannelKey, u8>) -> (r: Self)
        ensures
            r.commands_spec() == values.entries().map_values(
                |e: (ChannelKey, u8)| write_command(e.0, e.1),
            ),
    {
        let n = values.len();
        let mut commands: Vec<EffectCommand> = Vec::new();
        let mut i: usize = 0;
        while i < n
            invariant
                n == values.entries().len(),
                i <= n,
                commands@ == values.entries().take(i as int).map_values(
                    |e: (ChannelKey, u8)| write_command(e.0, e.1),
                ),
            decreases n - i,
        {
            let k = *values.key_at(i);
            let v = *values.value_at(i);
            commands.push(EffectCommand::WriteUniverse { fixture_id: k.0, channel: k.1, value: v });
            assert(values.entries().take(i + 1) =~= values.entries().take(i as int).push(
                values.entries()[i as int],
            ));
            i = i + 1;
        }
        assert(values.entries().take(n as int) =~= values.entries());
        SimpleEffectRuntime { commands }
    }
}

/// The commands of the runtimes of `rs`, one after the other, for a tick
/// of `e` nanoseconds.
pub closed spec fn par_output(rs: Seq<EffectRuntime>, e: nat) -> Seq<EffectCommand>
    decreases rs,
{
    if rs.len() == 0 {
        Seq::empty()
    } else {
        par_output(rs.drop_last(), e) + rs.last().output(e)
    }
}

/// Every runtime of `rs` can run a tick of `e` nanoseconds.
pub closed spec fn par_can_run(rs: Seq<EffectRuntime>, e: nat) -> bool
    decreases rs,
{
    if rs.len() == 0 {
        true
    } else {
        par_can_run(rs.drop_last(), e) && rs.last().can_run(e)
    }
}

/// Each runtime of `b` is the one of `a` at its index after a tick of `e`.
pub closed spec fn par_ran(a: Seq<EffectRuntime>, b: Seq<EffectRuntime>, e: nat) -> bool
    decreases a,
{
    &&& a.len() == b.len()
    &&& if a.len() == 0 {
        true
    } else {
        par_ran(a.drop_last(), b.drop_last(), e) && a.last().ran(&b.last(), e)
    }
}

/// Every runtime of `rs` has frames.
pub closed spec fn par_has_frames(rs: Seq<EffectRuntime>) -> bool
    decreases rs,
{
    if rs.len() == 0 {
        true
    } else {
        par_has_frames(rs.drop_last()) && rs.last().has_frames()
    }
}

/// [`par_can_run`] holds exactly when every runtime can run.
pub proof fn lemma_par_can_run(rs: Seq<EffectRuntime>, e: nat)
    ensures
        par_can_run(rs, e) <==> forall|i: int| 0 <= i < rs.len() ==> #[trigger] rs[i].can_run(e),
    decreases rs.len(),
{
    if rs.len() > 0 {
        let d = rs.drop_last();
        lemma_par_can_run(d, e);
        assert(par_can_run(rs, e) == (par_can_run(d, e) && rs.last().can_run(e)));
        assert(rs.last() == rs[rs.len() - 1]);
        assert forall|i: int| 0 <= i < d.len() implies d[i] == rs[i] by {}
        if par_can_run(rs, e) {
            assert forall|i: int| 0 <= i < rs.len() implies #[trigger] rs[i].can_run(e) by {
                if i < rs.len() - 1 {
                    assert(d[i].can_run(e));
                }
            }
        }
        if forall|i: int| 0 <= i < rs.len() ==> #[trigger] rs[i].can_run(e) {
            assert forall|i: int| 0 <= i < d.len() implies #[trigger] d[i].can_run(e) by {
                assert(rs[i].can_run(e));
            }
            assert(rs[rs.len() - 1].can_run(e));
        }
    }
}

/// A simple runtime writes the same commands on every tick, and its first
/// and last frames are those commands.
pub proof fn lemma_simple_frames(rt: EffectRuntime, e: nat)
    requires
        rt is Simple,
    ensures
        rt.first_frame() == rt.last_frame(),
        rt.output(e) == rt.first_frame(),
        rt.can_run(e),
        forall|next: EffectRuntime| #[trigger] rt.ran(&next, e) ==> next.output(e) == rt.output(e),
{
    assert forall|next: EffectRuntime| #[trigger] rt.ran(&next, e) implies next.output(e) == rt.output(e) by {
        if let EffectRuntime::Simple(a) = rt {
            if let EffectRuntime::Simple(b) = next {
            }
        }
    }
}

/// When a runtime has frames: a simple one always; a sequence when it has
/// steps and the effects of its first and last steps have frames; a parallel
/// one when each of its runtimes has frames.
pub proof fn lemma_has_frames(rt: EffectRuntime)
    ensures
        rt is Simple ==> rt.has_frames(),
        rt is Sequence ==> (rt.has_frames() <==> {
            let s = rt->Sequence_0.steps_spec();
            s.len() > 0 && s[0].runtime_spec().has_frames() && s.last().runtime_spec().has_frames()
        }),
        rt is Parallel ==> (rt.has_frames() <==> forall|i: int|
            0 <= i < rt->Parallel_0.runtimes_spec().len()
                ==> #[trigger] rt->Parallel_0.runtimes_spec()[i].has_frames()),
{
    if let EffectRuntime::Parallel(p) = rt {
        lemma_par_has_frames(p.runtimes@);
        assert(rt.has_frames() == par_has_frames(p.runtimes@));
        assert(p.runtimes_spec() == p.runtimes@);
    }
}

/// [`par_has_frames`] holds exactly when every runtime has frames.
pub proof fn lemma_par_has_frames(rs: Seq<EffectRuntime>)
    ensures
        par_has_frames(rs) <==> forall|i: int| 0 <= i < rs.len() ==> #[trigger] rs[i].has_frames(),
    decreases rs.len(),
{
    if rs.len() > 0 {
        let d = rs.drop_last();
        lemma_par_has_frames(d);
        assert(par_has_frames(rs) == (par_has_frames(d) && rs.last().has_frames()));
        assert(rs.last() == rs[rs.len() - 1]);
        assert forall|i: int| 0 <= i < d.len() implies d[i] == rs[i] by {}
        if par_has_frames(rs) {
            assert forall|i: int| 0 <= i < rs.len() implies #[trigger] rs[i].has_frames() by {
                if i < rs.len() - 1 {
                    assert(d[i].has_frames());
                }
            }
        }
        if forall|i: int| 0 <= i < rs.len() ==> #[trigger] rs[i].has_frames() {
            assert forall|i: int| 0 <= i < d.len() implies #[trigger] d[i].has_frames() by {
                assert(rs[i].has_frames());
            }
            assert(rs[rs.len() - 1].has_frames());
        }
    }
}

/// The first frames of the runtimes of `rs`, one after the other.
pub closed spec fn par_first(rs: Seq<EffectRuntime>) -> Seq<EffectCommand>
    decreases rs,
{
    if rs.len() == 0 {
        Seq::empty()
    } else {
        par_first(rs.drop_last()) + rs.last().first_frame()
    }
}

/// The last frames of the runtimes of `rs`, one after the other.
pub closed spec fn par_last(rs: Seq<EffectRuntime>) -> Seq<EffectCommand>
    decreases rs,
{
    if rs.len() == 0 {
        Seq::empty()
    } else {
        par_last(rs.drop_last()) + rs.last().last_frame()
    }
}

impl StepRuntime {
    /// A tick of `e` nanoseconds can run: a fading step has its fade, a
    /// holding one's effect can run the tick.
    pub closed spec fn can_run(&self, e: nat) -> bool
        decreases self,
    {
        match self.running_state {
            SequenceStepState::FadeIn => self.fadein_runtime is Some,
            SequenceStepState::Hold => self.runtime.can_run(e),
        }
    }

    /// The step ends within a tick of `e` nanoseconds: its hold runs out, or
    /// its fade and its whole hold both do.
    pub closed spec fn breaks(&self, e: nat) -> bool {
        let t = self.time_to_next_action.ns();
        match self.running_state {
            SequenceStepState::Hold => e >= t,
            SequenceStepState::FadeIn => e >= t && e - t > self.hold.ns(),
        }
    }

    /// The time left over when the step ends within a tick of `e`.
    pub closed spec fn overflow(&self, e: nat) -> nat {
        let t = self.time_to_next_action.ns();
        match self.running_state {
            SequenceStepState::Hold => (e - t) as nat,
            SequenceStepState::FadeIn => (e - t - self.hold.ns()) as nat,
        }
    }

    /// What a tick of `e` nanoseconds writes: the fade while fading, the
    /// step's effect while holding.
    pub closed spec fn output(&self, e: nat) -> Seq<EffectCommand>
        decreases self,
    {
        match self.running_state {
            SequenceStepState::FadeIn => match self.fadein_runtime {
                Some(f) => f.output(e),
                None => Seq::empty(),
            },
            SequenceStepState::Hold => self.runtime.output(e),
        }
    }

    /// `next` is this step after a tick of `e` nanoseconds: the running part
    /// advanced; then either time is left until the next action, or a hold
    /// ended (the step is over), or a fade ended and the hold starts with
    /// what is left of the tick taken from it.
    pub closed spec fn ran(&self, next: &StepRuntime, e: nat) -> bool
        decreases self,
    {
        let t = self.time_to_next_action.ns();
        &&& next.hold == self.hold
        &&& next.fade_in == self.fade_in
        &&& match self.running_state {
            SequenceStepState::FadeIn => {
                &&& next.runtime == self.runtime
                &&& next.fadein_runtime is Some
                &&& self.fadein_runtime is Some
                &&& self.fadein_runtime->Some_0.faded(&next.fadein_runtime->Some_0, e)
            },
            SequenceStepState::Hold => {
                &&& self.runtime.ran(&next.runtime, e)
                &&& next.fadein_runtime == self.fadein_runtime
            },
        }
        &&& if t > e {
            next.time_to_next_action.ns() == t - e && next.running_state == self.running_state
        } else if self.running_state == SequenceStepState::Hold {
            next.time_to_next_action == self.time_to_next_action && next.running_state
                == SequenceStepState::Hold
        } else if e - t <= self.hold.ns() {
            next.running_state == SequenceStepState::Hold && next.time_to_next_action.ns()
                == self.hold.ns() - (e - t)
        } else {
            next.running_state == SequenceStepState::Hold && next.time_to_next_action.ns() == 0
        }
    }
}

impl EffectRuntime {
    /// A tick of `e` nanoseconds can run: a sequence has not ended and its
    /// current step can run; every runtime of a parallel one can.
    pub closed spec fn can_run(&self, e: nat) -> bool
        decreases self,
    {
        match self {
            EffectRuntime::Simple(_) => true,
            EffectRuntime::Sequence(q) => q.current_step_num < q.steps@.len()
                && q.steps@[q.current_step_num as int].can_run(q.carried(e)),
            EffectRuntime::Parallel(p) => par_can_run(p.runtimes@, e),
        }
    }

    /// What a tick of `e` nanoseconds writes. A sequence writes what its
    /// current step writes in the tick and the time carried over into it,
    /// and a stop once its last step ends.
    pub closed spec fn output(&self, e: nat) -> Seq<EffectCommand>
        decreases self,
    {
        match self {
            EffectRuntime::Simple(s) => s.commands@,
            EffectRuntime::Sequence(q) => if q.current_step_num < q.steps@.len() {
                let st = q.steps@[q.current_step_num as int];
                let c = q.carried(e);
                if st.breaks(c) && q.current_step_num + 1 == q.steps@.len() {
                    st.output(c).push(EffectCommand::StopEffect)
                } else {
                    st.output(c)
                }
            } else {
                Seq::empty()
            },
            EffectRuntime::Parallel(p) => par_output(p.runtimes@, e),
        }
    }

    /// `next` is this runtime after a tick of `e` nanoseconds. A sequence
    /// advances its current step by the tick and the time carried over into
    /// it, and moves to the next step when that one ends, carrying the time
    /// left over into that step; otherwise nothing is carried.
    pub closed spec fn ran(&self, next: &EffectRuntime, e: nat) -> bool
        decreases self,
    {
        match (self, next) {
            (EffectRuntime::Simple(a), EffectRuntime::Simple(b)) => b.commands@ == a.commands@,
            (EffectRuntime::Sequence(a), EffectRuntime::Sequence(b)) => {
                let cur = a.current_step_num as int;
                &&& 0 <= cur < a.steps@.len()
                &&& b.steps@.len() == a.steps@.len()
                &&& forall|i: int|
                    0 <= i < a.steps@.len() && i != cur ==> #[trigger] b.steps@[i] == a.steps@[i]
                &&& a.steps@[cur].ran(&b.steps@[cur], a.carried(e))
                &&& if a.steps@[cur].breaks(a.carried(e)) {
                    &&& b.current_step_num == a.current_step_num + 1
                    &&& if cur + 1 == a.steps@.len() {
                        b.dur_buffer.ns() == 0
                    } else {
                        b.dur_buffer.ns() == a.steps@[cur].overflow(a.carried(e))
                    }
                } else {
                    b.current_step_num == a.current_step_num && b.dur_buffer.ns() == 0
                }
            },
            (EffectRuntime::Parallel(a), EffectRuntime::Parallel(b)) => par_ran(
                a.runtimes@,
                b.runtimes@,
                e,
            ),
            _ => false,
        }
    }

    /// The hints can be asked for: every sequence has a step.
    pub closed spec fn has_frames(&self) -> bool
        decreases self,
    {
        match self {
            EffectRuntime::Simple(_) => true,
            EffectRuntime::Sequence(q) => q.steps@.len() > 0 && q.steps@[0].runtime.has_frames()
                && q.steps@.last().runtime.has_frames(),
            EffectRuntime::Parallel(p) => par_has_frames(p.runtimes@),
        }
    }

    /// What the runtime writes when it starts: a sequence's first step's.
    pub closed spec fn first_frame(&self) -> Seq<EffectCommand>
        decreases self,
    {
        match self {
            EffectRuntime::Simple(s) => s.commands@,
            EffectRuntime::Sequence(q) => if q.steps@.len() > 0 {
                q.steps@[0].runtime.first_frame()
            } else {
                Seq::empty()
            },
            EffectRuntime::Parallel(p) => par_first(p.runtimes@),
        }
    }

    /// What the runtime writes when it ends. For a sequence this is the
    /// first frame of its last step.
    pub closed spec fn last_frame(&self) -> Seq<EffectCommand>
        decreases self,
    {
        match self {
            EffectRuntime::Simple(s) => s.commands@,
            EffectRuntime::Sequence(q) => if q.steps@.len() > 0 {
                q.steps@.last().runtime.first_frame()
            } else {
                Seq::empty()
            },
            EffectRuntime::Parallel(p) => par_last(p.runtimes@),
        }
    }
}


impl StepRuntime {
    /// How long the step holds its effect, in nanoseconds.
    pub closed spec fn hold_ns(&self) -> nat {
        self.hold.ns()
    }

    /// How long the step fades in, if it does.
    pub closed spec fn fade_in_spec(&self) -> Option<Duration> {
        self.fade_in
    }

    /// The effect the step holds.
    pub closed spec fn runtime_spec(&self) -> EffectRuntime {
        self.runtime
    }

    /// The fade into the step, if any.
    pub closed spec fn fade_spec(&self) -> Option<FadeInRuntime> {
        self.fadein_runtime
    }

    /// The time until the running part ends, in nanoseconds.
    pub closed spec fn next_ns(&self) -> nat {
        self.time_to_next_action.ns()
    }

    /// The running part.
    pub closed spec fn state_spec(&self) -> SequenceStepState {
        self.running_state
    }

    /// A step that first fades for `fade_in` (when given) and then holds
    /// `runtime` for `hold`.
    pub fn new(
        hold: Duration,
        runtime: EffectRuntime,
        fade_in: Option<Duration>,
        fadein_runtime: Option<FadeInRuntime>,
    ) -> (r: Self)
        ensures
            r.hold_ns() == hold.ns(),
            r.fade_in_spec() == fade_in,
            r.runtime_spec() == runtime,
            r.fade_spec() == fadein_runtime,
            match fade_in {
                Some(f) => r.next_ns() == f.ns() && r.state_spec() == SequenceStepState::FadeIn,
                None => r.next_ns() == hold.ns() && r.state_spec() == SequenceStepState::Hold,
            },
    {
        let (time_to_next_action, running_state) = match fade_in {
            Some(f) => (f, SequenceStepState::FadeIn),
            None => (hold, SequenceStepState::Hold),
        };
        StepRuntime { hold, fade_in, runtime, fadein_runtime, time_to_next_action, running_state }
    }

    /// Runs the step for a tick of `elapsed`. The second result is the time
    /// left over when the step ends within the tick, `None` while it goes on.
    pub fn run(&mut self, elapsed: Duration) -> (r: (Vec<EffectCommand>, Option<Duration>))
        requires
            old(self).can_run(elapsed.ns()),
        ensures
            r.0@ == old(self).output(elapsed.ns()),
            old(self).ran(&*final(self), elapsed.ns()),
            match r.1 {
                Some(d) => old(self).breaks(elapsed.ns()) && d.ns() == old(self).overflow(elapsed.ns()),
                None => !old(self).breaks(elapsed.ns()),
            },
        decreases *old(self),
    {
        let commands = match self.running_state {
            SequenceStepState::FadeIn => match &mut self.fadein_runtime {
                Some(f) => f.run(elapsed),
                None => vstd::pervasive::unreached(),
            },
            SequenceStepState::Hold => self.runtime.run(elapsed),
        };
        if self.time_to_next_action.gt(&elapsed) {
            self.time_to_next_action = self.time_to_next_action.sub(elapsed);
            return (commands, None);
        }
        match self.running_state {
            SequenceStepState::Hold => {
                let rest = elapsed.sub(self.time_to_next_action);
                (commands, Some(rest))
            },
            SequenceStepState::FadeIn => {
                let rest = elapsed.sub(self.time_to_next_action);
                self.running_state = SequenceStepState::Hold;
                if rest.gt(&self.hold) {
                    self.time_to_next_action = Duration::zero();
                    (commands, Some(rest.sub(self.hold)))
                } else {
                    self.time_to_next_action = self.hold.sub(rest);
                    (commands, None)
                }
            },
        }
    }

    /// Whether the step can run a tick of `elapsed`: a fading step needs its
    /// fade, a holding one an effect that can run the tick.
    pub fn can_run_for(&self, elapsed: Duration) -> (r: bool)
        ensures
            r == self.can_run(elapsed.ns()),
        decreases self,
    {
        match self.running_state {
            SequenceStepState::FadeIn => self.fadein_runtime.is_some(),
            SequenceStepState::Hold => self.runtime.can_run_for(elapsed),
        }
    }

    /// What the step's effect writes when it starts; only for a step
    /// without a fade.
    pub fn first_frame_hint(&self) -> (r: Vec<EffectCommand>)
        requires
            self.fade_in_spec() is None,
            self.runtime_spec().has_frames(),
        ensures
            r@ == self.runtime_spec().first_frame(),
    {
        self.runtime.first_frame_hint()
    }

    /// What the step's effect writes when it ends.
    pub fn last_frame_hint(&self) -> (r: Vec<EffectCommand>)
        requires
            self.runtime_spec().has_frames(),
        ensures
            r@ == self.runtime_spec().last_frame(),
    {
        self.runtime.last_frame_hint()
    }
}

impl SequenceEffectRuntime {
    /// The steps.
    pub closed spec fn steps_spec(&self) -> Seq<StepRuntime> {
        self.steps@
    }

    /// The index of the running step.
    pub closed spec fn current_spec(&self) -> nat {
        self.current_step_num as nat
    }

    /// The time left over by the last step that ended, in nanoseconds; it
    /// counts towards the next tick of the step that follows.
    pub closed spec fn buffer_ns(&self) -> nat {
        self.dur_buffer.ns()
    }

    /// The time the running step advances by in a tick of `e`: the tick and
    /// the time carried over into it.
    pub closed spec fn carried(&self, e: nat) -> nat {
        sat_add(e, self.dur_buffer.ns())
    }

    /// A sequence at its first step.
    pub fn new(steps: Vec<StepRuntime>) -> (r: Self)
        ensures
            r.steps_spec() == steps@,
            r.current_spec() == 0,
            r.buffer_ns() == 0,
    {
        SequenceEffectRuntime { steps, current_step_num: 0, dur_buffer: Duration::zero() }
    }

    /// The running step.
    pub fn get_current_step(&mut self) -> (r: &mut StepRuntime)
        requires
            old(self).current_spec() < old(self).steps_spec().len(),
        ensures
            *r == old(self).steps_spec()[old(self).current_spec() as int],
            final(self).steps_spec() == old(self).steps_spec().update(
                old(self).current_spec() as int,
                *final(r),
            ),
            final(self).current_spec() == old(self).current_spec(),
            final(self).buffer_ns() == old(self).buffer_ns(),
    {
        let cur = self.current_step_num;
        &mut self.steps[cur]
    }
}

impl ParallelEffectRuntime {
    /// The runtimes run together.
    pub closed spec fn runtimes_spec(&self) -> Seq<EffectRuntime> {
        self.runtimes@
    }

    /// Runtimes run together.
    pub fn new(runtimes: Vec<EffectRuntime>) -> (r: Self)
        ensures
            r.runtimes_spec() == runtimes@,
    {
        ParallelEffectRuntime { runtimes }
    }
}

impl EffectRuntime {
    /// Runs the effect for a tick of `elapsed` and returns what to write.
    pub fn run(&mut self, elapsed: Duration) -> (r: Vec<EffectCommand>)
        requires
            old(self).can_run(elapsed.ns()),
        ensures
            r@ == old(self).output(elapsed.ns()),
            old(self).ran(&*final(self), elapsed.ns()),
        decreases *old(self),
    {
        let ghost e = elapsed.ns();
        let mut rt = EffectRuntime::Simple(SimpleEffectRuntime { commands: Vec::new() });
        std::mem::swap(&mut rt, self);
        let ghost rt0 = rt;
        assert(rt0 == *old(self));
        assert(rt0.can_run(e));
        match rt {
            EffectRuntime::Simple(s) => {
                let c = s.commands.clone();
                assert(c@ =~= s.commands@);
                *self = EffectRuntime::Simple(s);
                c
            },
            EffectRuntime::Sequence(mut q) => {
                assert(rt0 == EffectRuntime::Sequence(q));
                assert(q.current_step_num < q.steps@.len());
                let cur = q.current_step_num;
                let len = q.steps.len();
                let ghost steps0 = q.steps@;
                let step_elapsed = elapsed.saturating_add(q.dur_buffer);
                assert(step_elapsed.ns() == q.carried(e));
                q.dur_buffer = Duration::zero();
                let (mut commands, brk) = q.steps[cur].run(step_elapsed);
                assert forall|i: int| 0 <= i < steps0.len() && i != cur implies #[trigger] q.steps@[i]
                    == steps0[i] by {}
                match brk {
                    Some(d) => {
                        q.current_step_num = cur + 1;
                        if q.current_step_num == len {
                            commands.push(EffectCommand::StopEffect);
                        } else {
                            q.dur_buffer = d;
                        }
                    },
                    None => {},
                }
                *self = EffectRuntime::Sequence(q);
                commands
            },
            EffectRuntime::Parallel(mut p) => {
                assert(rt0 == EffectRuntime::Parallel(p));
                let ghost rs0 = p.runtimes@;
                let n = p.runtimes.len();
                proof {
                    lemma_par_can_run(rs0, e);
                }
                let mut out: Vec<EffectCommand> = Vec::new();
                let mut i: usize = 0;
                while i < n
                    invariant
                        n == rs0.len(),
                        p.runtimes@.len() == n,
                        i <= n,
                        *old(self) is Parallel,
                        rs0 == old(self)->Parallel_0.runtimes@,
                        e == elapsed.ns(),
                        forall|j: int| 0 <= j < n ==> #[trigger] rs0[j].can_run(e),
                        par_ran(rs0.take(i as int), p.runtimes@.take(i as int), e),
                        forall|j: int| i <= j < n ==> #[trigger] p.runtimes@[j] == rs0[j],
                        out@ == par_output(rs0.take(i as int), e),
                    decreases n - i,
                {
                    assert(p.runtimes@[i as int] == rs0[i as int]);
                    let ghost before = p.runtimes@;
                    let mut c = p.runtimes[i].run(elapsed);
                    assert(p.runtimes@.take(i as int) =~= before.take(i as int));
                    out.append(&mut c);
                    assert(rs0.take(i + 1).drop_last() =~= rs0.take(i as int));
                    assert(rs0.take(i + 1).last() == rs0[i as int]);
                    assert(p.runtimes@.take(i + 1).drop_last() =~= p.runtimes@.take(i as int));
                    assert(p.runtimes@.take(i + 1).last() == p.runtimes@[i as int]);
                    i = i + 1;
                }
                assert(rs0.take(n as int) =~= rs0);
                assert(p.runtimes@.take(n as int) =~= p.runtimes@);
                *self = EffectRuntime::Parallel(p);
                out
            },
        }
    }

    /// Whether the effect can run a tick of `elapsed`: a sequence must not
    /// have ended, and its running step must be able to run the tick.
    pub fn can_run_for(&self, elapsed: Duration) -> (r: bool)
        ensures
            r == self.can_run(elapsed.ns()),
        decreases self,
    {
        match self {
            EffectRuntime::Simple(_) => true,
            EffectRuntime::Sequence(q) => {
                q.current_step_num < q.steps.len() && q.steps[q.current_step_num].can_run_for(
                    elapsed.saturating_add(q.dur_buffer),
                )
            },
            EffectRuntime::Parallel(p) => {
                proof {
                    lemma_par_can_run(p.runtimes@, elapsed.ns());
                }
                let n = p.runtimes.len();
                let mut i: usize = 0;
                while i < n
                    invariant
                        *self == EffectRuntime::Parallel(*p),
                        n == p.runtimes@.len(),
                        i <= n,
                        forall|j: int| 0 <= j < i ==> #[trigger] p.runtimes@[j].can_run(elapsed.ns()),
                    decreases n - i,
                {
                    assert(p.runtimes@[i as int] == self->Parallel_0.runtimes@[i as int]);
                    if !p.runtimes[i].can_run_for(elapsed) {
                        proof {
                            lemma_par_can_run(p.runtimes@, elapsed.ns());
                        }
                        assert(!p.runtimes@[i as int].can_run(elapsed.ns()));
                        assert(self.can_run(elapsed.ns()) == par_can_run(p.runtimes@, elapsed.ns()));
                        return false;
                    }
                    i = i + 1;
                }
                true
            },
        }
    }

    /// What the effect writes when it starts.
    pub fn first_frame_hint(&self) -> (r: Vec<EffectCommand>)
        requires
            self.has_frames(),
        ensures
            r@ == self.first_frame(),
        decreases self,
    {
        match self {
            EffectRuntime::Simple(s) => {
                let c = s.commands.clone();
                assert(c@ =~= s.commands@);
                c
            },
            EffectRuntime::Sequence(q) => q.steps[0].runtime.first_frame_hint(),
            EffectRuntime::Parallel(p) => {
                proof {
                    lemma_par_has_frames(p.runtimes@);
                }
                let n = p.runtimes.len();
                let mut out: Vec<EffectCommand> = Vec::new();
                let mut i: usize = 0;
                while i < n
                    invariant
                        *self == EffectRuntime::Parallel(*p),
                        n == p.runtimes@.len(),
                        i <= n,
                        forall|j: int| 0 <= j < n ==> #[trigger] p.runtimes@[j].has_frames(),
                        out@ == par_first(p.runtimes@.take(i as int)),
                    decreases n - i,
                {
                    assert(p.runtimes@[i as int] == self->Parallel_0.runtimes@[i as int]);
                    let mut c = p.runtimes[i].first_frame_hint();
                    out.append(&mut c);
                    assert(p.runtimes@.take(i + 1).drop_last() =~= p.runtimes@.take(i as int));
                    i = i + 1;
                }
                assert(p.runtimes@.take(n as int) =~= p.runtimes@);
                out
            },
        }
    }

    /// What the effect writes when it ends; for a sequence, the first frame
    /// of its last step.
    pub fn last_frame_hint(&self) -> (r: Vec<EffectCommand>)
        requires
            self.has_frames(),
        ensures
            r@ == self.last_frame(),
        decreases self,
    {
        match self {
            EffectRuntime::Simple(s) => {
                let c = s.commands.clone();
                assert(c@ =~= s.commands@);
                c
            },
            EffectRuntime::Sequence(q) => {
                let last = q.steps.len() - 1;
                q.steps[last].runtime.first_frame_hint()
            },
            EffectRuntime::Parallel(p) => {
                proof {
                    lemma_par_has_frames(p.runtimes@);
                }
                let n = p.runtimes.len();
                let mut out: Vec<EffectCommand> = Vec::new();
                let mut i: usize = 0;
                while i < n
                    invariant
                        *self == EffectRuntime::Parallel(*p),
                        n == p.runtimes@.len(),
                        i <= n,
                        forall|j: int| 0 <= j < n ==> #[trigger] p.runtimes@[j].has_frames(),
                        out@ == par_last(p.runtimes@.take(i as int)),
                    decreases n - i,
                {
                    assert(p.runtimes@[i as int] == self->Parallel_0.runtimes@[i as int]);
                    let mut c = p.runtimes[i].last_frame_hint();
                    out.append(&mut c);
                    assert(p.runtimes@.take(i + 1).drop_last() =~= p.runtimes@.take(i as int));
                    i = i + 1;
                }
                assert(p.runtimes@.take(n as int) =~= p.runtimes@);
                out
            },
        }
    }
}

/// What a simple runtime does: it can run every tick, writes its commands
/// on every tick, and they are both its first and its last frame; a tick
/// keeps them.
pub proof fn lemma_simple_runtime(rt: SimpleEffectRuntime, e: nat)
    ensures
        EffectRuntime::Simple(rt).can_run(e),
        EffectRuntime::Simple(rt).has_frames(),
        EffectRuntime::Simple(rt).output(e) == rt.commands_spec(),
        EffectRuntime::Simple(rt).first_frame() == rt.commands_spec(),
        EffectRuntime::Simple(rt).last_frame() == rt.commands_spec(),
        forall|next: EffectRuntime| #[trigger]
            EffectRuntime::Simple(rt).ran(&next, e) <==> (next is Simple && next->Simple_0.commands_spec()
                == rt.commands_spec()),
{
}

/// A simple runtime made from the entries of a map of channel values
/// writes, on every tick and as its first and last frame, one command per
/// entry, in order, each writing that value to that channel.
pub proof fn lemma_simple_runtime_of_values(entries: Seq<(ChannelKey, u8)>, rt: SimpleEffectRuntime, e: nat)
    requires
        rt.commands_spec() == entries.map_values(|x: (ChannelKey, u8)| write_command(x.0, x.1)),
    ensures
        EffectRuntime::Simple(rt).output(e).len() == entries.len(),
        forall|i: int|
            0 <= i < entries.len() ==> #[trigger] EffectRuntime::Simple(rt).output(e)[i] == write_command(
                entries[i].0,
                entries[i].1,
            ),
        EffectRuntime::Simple(rt).first_frame() == EffectRuntime::Simple(rt).output(e),
        EffectRuntime::Simple(rt).last_frame() == EffectRuntime::Simple(rt).output(e),
{
    lemma_simple_runtime(rt, e);
}

/// What a step does in a tick of `e`, in terms of its parts: a fading step
/// writes its fade, a holding one its effect; a holding step ends once the
/// tick reaches the end of its hold, a fading one once the tick goes past its
/// fade and its whole hold, and what is left over is the rest of the tick.
pub proof fn lemma_step_runtime(s: StepRuntime, e: nat)
    ensures
        s.can_run(e) == match s.state_spec() {
            SequenceStepState::FadeIn => s.fade_spec() is Some,
            SequenceStepState::Hold => s.runtime_spec().can_run(e),
        },
        s.output(e) == match s.state_spec() {
            SequenceStepState::FadeIn => match s.fade_spec() {
                Some(f) => f.output(e),
                None => Seq::empty(),
            },
            SequenceStepState::Hold => s.runtime_spec().output(e),
        },
        s.breaks(e) == match s.state_spec() {
            SequenceStepState::Hold => e >= s.next_ns(),
            SequenceStepState::FadeIn => e >= s.next_ns() && e - s.next_ns() > s.hold_ns(),
        },
        s.breaks(e) ==> s.overflow(e) == match s.state_spec() {
            SequenceStepState::Hold => e - s.next_ns(),
            SequenceStepState::FadeIn => e - s.next_ns() - s.hold_ns(),
        },
        forall|next: StepRuntime| #[trigger]
            s.ran(&next, e) ==> {
                &&& next.hold_ns() == s.hold_ns()
                &&& next.fade_in_spec() == s.fade_in_spec()
                &&& if s.next_ns() > e {
                    next.next_ns() == s.next_ns() - e && next.state_spec() == s.state_spec()
                } else if s.state_spec() == SequenceStepState::Hold {
                    next.next_ns() == s.next_ns() && next.state_spec() == SequenceStepState::Hold
                } else if e - s.next_ns() <= s.hold_ns() {
                    next.next_ns() == s.hold_ns() - (e - s.next_ns()) && next.state_spec()
                        == SequenceStepState::Hold
                } else {
                    next.next_ns() == 0 && next.state_spec() == SequenceStepState::Hold
                }
                &&& match s.state_spec() {
                    SequenceStepState::FadeIn => {
                        &&& next.runtime_spec() == s.runtime_spec()
                        &&& s.fade_spec() is Some && next.fade_spec() is Some
                        &&& s.fade_spec()->Some_0.faded(&next.fade_spec()->Some_0, e)
                    },
                    SequenceStepState::Hold => {
                        &&& s.runtime_spec().ran(&next.runtime_spec(), e)
                        &&& next.fade_spec() == s.fade_spec()
                    },
                }
            },
{
}

/// What a sequence does in a tick of `e`: its running step advances by the
/// tick and the time carried over into it, and writes what that step writes,
/// with a stop once its last step ends. When the step ends the sequence
/// moves to the next one and carries the time left over into it; otherwise
/// nothing is carried.
pub proof fn lemma_sequence_runtime(q: SequenceEffectRuntime, e: nat)
    ensures
        q.carried(e) == sat_add(e, q.buffer_ns()),
        EffectRuntime::Sequence(q).can_run(e) == (q.current_spec() < q.steps_spec().len()
            && q.steps_spec()[q.current_spec() as int].can_run(q.carried(e))),
        EffectRuntime::Sequence(q).output(e) == if q.current_spec() < q.steps_spec().len() {
            let st = q.steps_spec()[q.current_spec() as int];
            if st.breaks(q.carried(e)) && q.current_spec() + 1 == q.steps_spec().len() {
                st.output(q.carried(e)).push(EffectCommand::StopEffect)
            } else {
                st.output(q.carried(e))
            }
        } else {
            Seq::empty()
        },
        forall|next: EffectRuntime| #[trigger]
            EffectRuntime::Sequence(q).ran(&next, e) ==> {
                let cur = q.current_spec() as int;
                let st = q.steps_spec()[cur];
                let b = next->Sequence_0;
                &&& next is Sequence
                &&& cur < q.steps_spec().len()
                &&& b.steps_spec().len() == q.steps_spec().len()
                &&& forall|i: int|
                    0 <= i < q.steps_spec().len() && i != cur ==> #[trigger] b.steps_spec()[i]
                        == q.steps_spec()[i]
                &&& st.ran(&b.steps_spec()[cur], q.carried(e))
                &&& if st.breaks(q.carried(e)) {
                    &&& b.current_spec() == q.current_spec() + 1
                    &&& b.buffer_ns() == if cur + 1 == q.steps_spec().len() {
                        0
                    } else {
                        st.overflow(q.carried(e))
                    }
                } else {
                    b.current_spec() == q.current_spec() && b.buffer_ns() == 0
                }
            },
{
}

/// The writes of `a` followed by `b` can be done exactly when those of each
/// can.
proof fn lemma_writes_writable_concat(v: DocView, a: Seq<EffectCommand>, b: Seq<EffectCommand>)
    ensures
        writes_writable(v, a + b) == (writes_writable(v, a) && writes_writable(v, b)),
{
    let c = a + b;
    if writes_writable(v, a) && writes_writable(v, b) {
        assert forall|i: int| 0 <= i < c.len() implies match #[trigger] c[i] {
            EffectCommand::WriteUniverse { fixture_id, channel, .. } => offset_writable(v, fixture_id, channel as int),
            _ => true,
        } by {
            if i < a.len() {
                assert(c[i] == a[i]);
            } else {
                assert(c[i] == b[i - a.len()]);
            }
        }
    }
    if writes_writable(v, c) {
        assert forall|i: int| 0 <= i < a.len() implies match #[trigger] a[i] {
            EffectCommand::WriteUniverse { fixture_id, channel, .. } => offset_writable(v, fixture_id, channel as int),
            _ => true,
        } by {
            assert(c[i] == a[i]);
        }
        assert forall|i: int| 0 <= i < b.len() implies match #[trigger] b[i] {
            EffectCommand::WriteUniverse { fixture_id, channel, .. } => offset_writable(v, fixture_id, channel as int),
            _ => true,
        } by {
            assert(c[a.len() + i] == b[i]);
        }
    }
}

impl FadeInRuntime {
    /// Whether every channel the fade writes can be written.
    pub fn writable(&self, doc: &DocState, e: Ghost<nat>) -> (r: bool)
        requires
            doc@.consistent(),
        ensures
            r == writes_writable(doc@, self.output(e@)),
    {
        let n = self.ordered_keys.len();
        let mut i: usize = 0;
        while i < n
            invariant
                n == self.keys().len(),
                i <= n,
                doc@.consistent(),
                forall|j: int| 0 <= j < i ==> offset_writable(doc@, (#[trigger] self.keys()[j]).0, self.keys()[j].1 as int),
            decreases n - i,
        {
            let k = self.ordered_keys[i];
            if !doc.offset_writable(k.0, k.1) {
                proof {
                    assert(self.output(e@)[i as int] == write_command(k, fade_value(
                        value_or_zero(self.from_map(), k),
                        value_or_zero(self.to_map(), k),
                        sat_add(self.elapsed_ns(), e@),
                        self.duration_ns(),
                    )));
                }
                return false;
            }
            i = i + 1;
        }
        proof {
            let out = self.output(e@);
            assert forall|j: int| 0 <= j < out.len() implies match #[trigger] out[j] {
                EffectCommand::WriteUniverse { fixture_id, channel, .. } => offset_writable(doc@, fixture_id, channel as int),
                _ => true,
            } by {
                assert(offset_writable(doc@, self.keys()[j].0, self.keys()[j].1 as int));
            }
        }
        true
    }
}

impl EffectRuntime {
    /// Whether every write of a tick of `elapsed` can be done.
    pub fn output_writable(&self, doc: &DocState, elapsed: Duration) -> (r: bool)
        requires
            doc@.consistent(),
        ensures
            r == writes_writable(doc@, self.output(elapsed.ns())),
        decreases self,
    {
        match self {
            EffectRuntime::Simple(s) => {
                let n = s.commands.len();
                let mut i: usize = 0;
                while i < n
                    invariant
                        *self == EffectRuntime::Simple(*s),
                        n == s.commands@.len(),
                        i <= n,
                        doc@.consistent(),
                        forall|j: int|
                            0 <= j < i ==> match #[trigger] s.commands@[j] {
                                EffectCommand::WriteUniverse { fixture_id, channel, .. } => offset_writable(
                                    doc@,
                                    fixture_id,
                                    channel as int,
                                ),
                                _ => true,
                            },
                    decreases n - i,
                {
                    match &s.commands[i] {
                        EffectCommand::WriteUniverse { fixture_id, channel, .. } => {
                            if !doc.offset_writable(*fixture_id, *channel) {
                                assert(self.output(elapsed.ns())[i as int] == s.commands@[i as int]);
                                return false;
                            }
                        },
                        _ => {},
                    }
                    i = i + 1;
                }
                true
            },
            EffectRuntime::Sequence(q) => {
                if q.current_step_num >= q.steps.len() {
                    return true;
                }
                let c = elapsed.saturating_add(q.dur_buffer);
                assert(c.ns() == q.carried(elapsed.ns()));
                let st = &q.steps[q.current_step_num];
                let ok = match st.running_state {
                    SequenceStepState::FadeIn => match &st.fadein_runtime {
                        Some(f) => f.writable(doc, Ghost(c.ns())),
                        None => true,
                    },
                    SequenceStepState::Hold => st.runtime.output_writable(doc, c),
                };
                proof {
                    let o = st.output(c.ns());
                    lemma_writes_writable_concat(doc@, o, seq![EffectCommand::StopEffect]);
                    assert(o.push(EffectCommand::StopEffect) =~= o + seq![EffectCommand::StopEffect]);
                    assert(writes_writable(doc@, seq![EffectCommand::StopEffect]));
                }
                ok
            },
            EffectRuntime::Parallel(p) => {
                let n = p.runtimes.len();
                let mut i: usize = 0;
                while i < n
                    invariant
                        *self == EffectRuntime::Parallel(*p),
                        n == p.runtimes@.len(),
                        i <= n,
                        doc@.consistent(),
                        writes_writable(doc@, par_output(p.runtimes@.take(i as int), elapsed.ns())),
                    decreases n - i,
                {
                    assert(p.runtimes@[i as int] == self->Parallel_0.runtimes@[i as int]);
                    let ok = p.runtimes[i].output_writable(doc, elapsed);
                    proof {
                        let t = p.runtimes@.take(i + 1);
                        assert(t.drop_last() =~= p.runtimes@.take(i as int));
                        assert(t.last() == p.runtimes@[i as int]);
                        assert(par_output(t, elapsed.ns()) == par_output(t.drop_last(), elapsed.ns()) + t.last().output(
                            elapsed.ns(),
                        ));
                        lemma_writes_writable_concat(
                            doc@,
                            par_output(p.runtimes@.take(i as int), elapsed.ns()),
                            p.runtimes@[i as int].output(elapsed.ns()),
                        );
                    }
                    if !ok {
                        proof {
                            lemma_par_output_prefix(p.runtimes@, elapsed.ns(), i + 1, doc@);
                        }
                        return false;
                    }
                    i = i + 1;
                }
                assert(p.runtimes@.take(n as int) =~= p.runtimes@);
                true
            },
        }
    }
}

/// A prefix of a parallel runtime's writes that cannot all be done keeps the
/// whole from being done.
proof fn lemma_par_output_prefix(rs: Seq<EffectRuntime>, e: nat, k: int, v: DocView)
    requires
        0 <= k <= rs.len(),
        !writes_writable(v, par_output(rs.take(k), e)),
    ensures
        !writes_writable(v, par_output(rs, e)),
    decreases rs.len(),
{
    if k == rs.len() {
        assert(rs.take(k) =~= rs);
    } else {
        let p = rs.drop_last();
        assert(p.take(k) =~= rs.take(k));
        lemma_par_output_prefix(p, e, k, v);
        lemma_writes_writable_concat(v, par_output(p, e), rs.last().output(e));
    }
}

/// The frames of a sequence: its first step's effect's first frame, and
/// its last step's effect's first frame; nothing without steps.
pub proof fn lemma_sequence_frames(q: SequenceEffectRuntime)
    ensures
        EffectRuntime::Sequence(q).first_frame() == if q.steps_spec().len() > 0 {
            q.steps_spec()[0].runtime_spec().first_frame()
        } else {
            Seq::empty()
        },
        EffectRuntime::Sequence(q).last_frame() == if q.steps_spec().len() > 0 {
            q.steps_spec().last().runtime_spec().first_frame()
        } else {
            Seq::empty()
        },
{
}

/// What a parallel runtime does, through its runtimes: it writes what they
/// write, one after the other, can run a tick when each can, advances each,
/// and its frames are theirs one after the other.
pub proof fn lemma_parallel_runtime(p: ParallelEffectRuntime, e: nat)
    ensures
        EffectRuntime::Parallel(p).output(e) == par_output(p.runtimes_spec(), e),
        EffectRuntime::Parallel(p).can_run(e) == par_can_run(p.runtimes_spec(), e),
        EffectRuntime::Parallel(p).first_frame() == par_first(p.runtimes_spec()),
        EffectRuntime::Parallel(p).last_frame() == par_last(p.runtimes_spec()),
        forall|next: EffectRuntime| #[trigger]
            EffectRuntime::Parallel(p).ran(&next, e) <==> (next is Parallel && par_ran(
                p.runtimes_spec(),
                next->Parallel_0.runtimes_spec(),
                e,
            )),
{
}

/// The parallel combinators, one runtime at a time: what the runtimes
/// write and their frames are those of all but the last followed by the
/// last one's; they advance when all but the last do and the last does.
pub proof fn lemma_par_unfold(rs: Seq<EffectRuntime>, next: Seq<EffectRuntime>, e: nat)
    ensures
        par_output(rs, e) == if rs.len() == 0 {
            Seq::empty()
        } else {
            par_output(rs.drop_last(), e) + rs.last().output(e)
        },
        par_first(rs) == if rs.len() == 0 {
            Seq::empty()
        } else {
            par_first(rs.drop_last()) + rs.last().first_frame()
        },
        par_last(rs) == if rs.len() == 0 {
            Seq::empty()
        } else {
            par_last(rs.drop_last()) + rs.last().last_frame()
        },
        par_ran(rs, next, e) == (rs.len() == next.len() && (rs.len() == 0 || (par_ran(
            rs.drop_last(),
            next.drop_last(),
            e,
        ) && rs.last().ran(&next.last(), e)))),
{
}

} // verus!
