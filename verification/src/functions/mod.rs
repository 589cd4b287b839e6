//! Functions, the earlier form of effects. A prototype gives a dimmer level
//! and a color; binding it to fixtures gives a function that writes them to
//! the fixtures' channels.
use crate::doc::state::{DocState, DocView};
use crate::effects::resolve::{dimmer_of, rgb_of};
use crate::ids::{AppliedFunctionId, FixtureId, FunctionPrototypeId};
use crate::keyed::KeyedVec;
use crate::time::{Duration, MAX_NANOS};
use vstd::prelude::*;

pub use crate::effects::Diagnostics;

verus! {

/// Either a body given in place or the id of a stored one.
#[derive(Debug)]
pub enum FunctionBodyOrId<T, U> {
    Body(T),
    Id(U),
}

/// A dimmer level and a color, not yet bound to fixtures.
#[derive(Clone, Copy, Debug)]
pub struct SimpleFunctionPrototypeBody {
    pub dimmer: Option<u8>,
    pub color: Option<[u8; 3]>,
}

/// Values by fixture and channel offset.
#[derive(Debug)]
pub struct SimpleFunctionBody {
    values: KeyedVec<(FixtureId, usize), u8>,
}

/// A step of a sequence: its body holds for `duration`, between a fade in
/// and a fade out.
#[derive(Debug)]
pub struct SequenceStep<T, U> {
    pub duration: Duration,
    pub fade_in: Duration,
    pub fade_out: Duration,
    pub body: FunctionBodyOrId<T, U>,
}

/// Steps of prototypes.
#[derive(Debug)]
pub struct SequenceFunctionPrototypeBody {
    pub steps: Vec<SequenceStep<FunctionPrototypeBody, FunctionPrototypeId>>,
}

/// Steps of functions.
#[derive(Debug)]
pub struct SequenceFunctionBody {
    pub steps: Vec<SequenceStep<FunctionBody, AppliedFunctionId>>,
}

/// Prototypes run side by side.
#[derive(Debug)]
pub struct ParallelFunctionPrototypeBody {}

/// Functions run side by side.
#[derive(Debug)]
pub struct ParallelFunctionBody {
    pub items: Vec<FunctionBodyOrId<FunctionBody, AppliedFunctionId>>,
}

/// The body of a function.
#[derive(Debug)]
pub enum FunctionBody {
    Simple(SimpleFunctionBody),
    Sequence(SequenceFunctionBody),
    Parallel(ParallelFunctionBody),
}

/// The body of a prototype.
#[derive(Debug)]
pub enum FunctionPrototypeBody {
    Simple(SimpleFunctionPrototypeBody),
    Sequence(SequenceFunctionPrototypeBody),
    Parallel(ParallelFunctionPrototypeBody),
}

/// A function bound to fixtures; it can control model-specific channels.
#[derive(Debug)]
pub struct Function {
    id: AppliedFunctionId,
    name: String,
    body: FunctionBody,
}

/// A function not yet bound to fixtures; it controls model-agnostic
/// channels such as dimmer and color.
#[derive(Debug)]
pub struct FunctionPrototype {
    id: FunctionPrototypeId,
    name: String,
    body: FunctionPrototypeBody,
}

/// What a running function asks the engine to do.
#[derive(Clone, Copy, Debug)]
pub enum FunctionCommand {
    /// Start the function; nothing happens if it is already started.
    StartFunction(AppliedFunctionId),
    /// Stop the running function.
    StopFuntion,
    WriteUniverse { fixture_id: FixtureId, channel: usize, value: u8 },
    StartFade {
        from_id: AppliedFunctionId,
        to_id: AppliedFunctionId,
        chaser_id: AppliedFunctionId,
        duration: Duration,
    },
}

/// The command that writes `value` to channel `key.1` of fixture `key.0`.
pub open spec fn write_function_command(key: (FixtureId, usize), value: u8) -> FunctionCommand {
    FunctionCommand::WriteUniverse { fixture_id: key.0, channel: key.1, value }
}

impl SimpleFunctionBody {
    /// The values by fixture and channel offset.
    pub closed spec fn values_spec(&self) -> Map<(FixtureId, usize), u8> {
        self.values@
    }

    /// The values in the order they are written.
    pub closed spec fn entries(&self) -> Seq<((FixtureId, usize), u8)> {
        self.values.entries()
    }

    /// A body writing `values`.
    pub fn new(values: KeyedVec<(FixtureId, usize), u8>) -> (r: Self)
        ensures
            r.values_spec() == values@,
            r.entries() == values.entries(),
    {
        SimpleFunctionBody { values }
    }

    /// The values by fixture and channel offset.
    pub fn values(&self) -> (r: &KeyedVec<(FixtureId, usize), u8>)
        ensures
            r@ == self.values_spec(),
            r.entries() == self.entries(),
    {
        &self.values
    }

    /// A runtime for this body.
    pub fn create_runtime(&self) -> (r: SimpleFunctionRuntime) {
        SimpleFunctionRuntime
    }

    /// A runtime for the stored function `self_id` with this body.
    pub fn create_runtime_standalone(&self, self_id: AppliedFunctionId) -> (r: StandAloneSimpleFunctionRuntime)
        ensures
            r.fun_id == self_id,
    {
        StandAloneSimpleFunctionRuntime { fun_id: self_id, inner: SimpleFunctionRuntime }
    }
}

/// Runs a simple function: every tick writes its values.
#[derive(Debug)]
pub struct SimpleFunctionRuntime;

/// A simple runtime for a stored function.
#[derive(Debug)]
pub struct StandAloneSimpleFunctionRuntime {
    pub fun_id: AppliedFunctionId,
    pub inner: SimpleFunctionRuntime,
}

impl SimpleFunctionRuntime {
    /// The commands writing the values of `body`, which must be simple.
    pub fn run(&mut self, body: &FunctionBody, elapsed: Duration, doc: &DocState) -> (r: Vec<FunctionCommand>)
        requires
            body is Simple,
        ensures
            r@ == body->Simple_0.entries().map_values(
                |e: ((FixtureId, usize), u8)| write_function_command(e.0, e.1),
            ),
    {
        let fun = match body {
            FunctionBody::Simple(f) => f,
            _ => vstd::pervasive::unreached(),
        };
        let n = fun.values.len();
        let mut acc: Vec<FunctionCommand> = Vec::new();
        let mut i: usize = 0;
        while i < n
            invariant
                n == fun.values.entries().len(),
                i <= n,
                acc@ == fun.values.entries().take(i as int).map_values(
                    |e: ((FixtureId, usize), u8)| write_function_command(e.0, e.1),
                ),
            decreases n - i,
        {
            let k = *fun.values.key_at(i);
            let v = *fun.values.value_at(i);
            acc.push(FunctionCommand::WriteUniverse { fixture_id: k.0, channel: k.1, value: v });
            assert(fun.values.entries().take(i + 1) =~= fun.values.entries().take(i as int).push(
                fun.values.entries()[i as int],
            ));
            i = i + 1;
        }
        assert(fun.values.entries().take(n as int) =~= fun.values.entries());
        acc
    }
}

impl StandAloneSimpleFunctionRuntime {
    /// The commands writing the values of `body`, which must be simple.
    pub fn run(&mut self, body: &FunctionBody, elapsed: Duration, doc: &DocState) -> (r: Vec<FunctionCommand>)
        requires
            body is Simple,
        ensures
            r@ == body->Simple_0.entries().map_values(
                |e: ((FixtureId, usize), u8)| write_function_command(e.0, e.1),
            ),
    {
        self.inner.run(body, elapsed, doc)
    }
}

impl<T, U> SequenceStep<T, U> {
    /// The whole time of the step, fades included.
    pub open spec fn total_ns(&self) -> nat {
        self.fade_in.ns() + self.duration.ns() + self.fade_out.ns()
    }

    /// The whole time of the step, fades included.
    pub fn total_duration(&self) -> (r: Duration)
        requires
            self.total_ns() <= MAX_NANOS,
        ensures
            r.ns() == self.total_ns(),
    {
        self.fade_in.add(self.duration).add(self.fade_out)
    }
}

/// The values that binding `p` to `fixtures` writes, fixture by fixture:
/// its dimmer level to the fixture's dimmer channel, its color to the red,
/// green and blue channels, where the fixture has them.
pub open spec fn bound_values(v: DocView, p: SimpleFunctionPrototypeBody, fixtures: Seq<FixtureId>) -> Map<
    (FixtureId, usize),
    u8,
>
    decreases fixtures.len(),
{
    if fixtures.len() == 0 {
        Map::empty()
    } else {
        let m = bound_values(v, p, fixtures.drop_last());
        let f = fixtures.last();
        let m1 = match (p.dimmer, dimmer_of(v, f)) {
            (Some(d), Some(o)) => m.insert((f, o as usize), d),
            _ => m,
        };
        match (p.color, rgb_of(v, f)) {
            (Some(c), Some((r, g, b))) => m1.insert((f, r as usize), c@[0]).insert((f, g as usize), c@[1]).insert(
                (f, b as usize),
                c@[2],
            ),
            _ => m1,
        }
    }
}

/// What binding reports of fixture `f` when it has no dimmer channel; the
/// fixture is written as `{:?}` writes its id.
pub open spec fn no_dimmer_message(f: FixtureId) -> Seq<char> {
    "fixture FixtureId("@ + crate::ids::uuid_text(f.value()) + ") doesn't have dimmer channel"@
}

/// [`no_dimmer_message`] of `f`.
fn no_dimmer_text(f: FixtureId) -> (r: String)
    ensures
        r@ == no_dimmer_message(f),
{
    let mut s = String::from_str("fixture FixtureId(");
    let t = crate::ids::uuid_debug_text(f.as_u128());
    s.append(t.as_str());
    s.append(") doesn't have dimmer channel");
    s
}

/// What binding `p` to `fixtures` reports, fixture by fixture: that the
/// fixture has no dimmer channel where `p` has a level, that it has no red,
/// green and blue channels where `p` has a color.
pub open spec fn bind_messages(v: DocView, p: SimpleFunctionPrototypeBody, fixtures: Seq<FixtureId>) -> Seq<
    Seq<char>,
>
    decreases fixtures.len(),
{
    if fixtures.len() == 0 {
        Seq::empty()
    } else {
        let f = fixtures.last();
        bind_messages(v, p, fixtures.drop_last()) + (if p.dimmer is Some && dimmer_of(v, f) is None {
            seq![no_dimmer_message(f)]
        } else {
            Seq::empty()
        }) + (if p.color is Some && rgb_of(v, f) is None {
            seq!["this fixture doesn't have rgb channel"@]
        } else {
            Seq::empty()
        })
    }
}

/// How many channels that binding `p` to `fixtures` needs are missing.
pub open spec fn bind_errors(v: DocView, p: SimpleFunctionPrototypeBody, fixtures: Seq<FixtureId>) -> nat {
    bind_messages(v, p, fixtures).len()
}

/// What binding `p` to the fixture lists `args` reports: that there is no
/// argument, that there is more than one, or what binding to the single
/// one reports.
pub open spec fn simple_messages(v: DocView, p: SimpleFunctionPrototypeBody, args: Seq<Vec<FixtureId>>) -> Seq<
    Seq<char>,
> {
    if args.len() == 0 {
        seq!["no argument provided"@]
    } else if args.len() > 1 {
        seq!["too many arguments provided"@]
    } else {
        bind_messages(v, p, args[0]@)
    }
}

impl SimpleFunctionPrototypeBody {
    /// A prototype with this level and color.
    pub fn new(dimmer: Option<u8>, color: Option<[u8; 3]>) -> (r: Self)
        ensures
            r.dimmer == dimmer,
            r.color == color,
    {
        SimpleFunctionPrototypeBody { dimmer, color }
    }

    /// Binds the prototype to the fixtures of its single argument. Reports
    /// a missing argument, a second one, and each channel that a fixture
    /// lacks; gives no body where anything was reported.
    pub fn bind_to_inner(&self, args: &Vec<Vec<FixtureId>>, doc: &DocState, diag: &mut Diagnostics) -> (r:
        Option<SimpleFunctionBody>)
        requires
            doc@.consistent(),
            args@.len() == 1 ==> forall|i: int|
                0 <= i < args@[0]@.len() ==> doc@.fixtures.contains_key(#[trigger] args@[0]@[i]),
        ensures
            final(diag).messages() == old(diag).messages() + simple_messages(doc@, *self, args@),
            r is Some <==> simple_messages(doc@, *self, args@).len() == 0,
            r matches Some(b) ==> args@.len() == 1 && b.values_spec() == bound_values(doc@, *self, args@[0]@),
    {
        if args.len() == 0 {
            diag.push_err(String::from_str("no argument provided"));
            return None;
        }
        if args.len() > 1 {
            diag.push_err(String::from_str("too many arguments provided"));
            return None;
        }
        let fixtures = &args[0];
        let mut values: KeyedVec<(FixtureId, usize), u8> = KeyedVec::new();
        let mut has_error = false;
        let ghost start = diag.messages().len();
        let n = fixtures.len();
        let mut i: usize = 0;
        while i < n
            invariant
                n == fixtures@.len(),
                i <= n,
                doc@.consistent(),
                forall|j: int| 0 <= j < fixtures@.len() ==> doc@.fixtures.contains_key(#[trigger] fixtures@[j]),
                values@ == bound_values(doc@, *self, fixtures@.take(i as int)),
                diag.messages() == old(diag).messages() + bind_messages(doc@, *self, fixtures@.take(i as int)),
                has_error == (bind_errors(doc@, *self, fixtures@.take(i as int)) > 0),
            decreases n - i,
        {
            let fxt_id = fixtures[i];
            proof {
                assert(fixtures@.take(i + 1).drop_last() =~= fixtures@.take(i as int));
                assert(fixtures@.take(i + 1).last() == fxt_id);
            }
            let (dimmer_channel, rgb_channel) = doc.get_dimmer_and_color(fxt_id);
            if let Some(dimmer) = self.dimmer {
                if let Some(offset) = dimmer_channel {
                    let _ = values.insert((fxt_id, offset), dimmer);
                } else {
                    diag.push_err(no_dimmer_text(fxt_id));
                    has_error = true;
                }
            }
            if let Some(color) = self.color {
                if let Some(rgb_offset) = rgb_channel {
                    let _ = values.insert((fxt_id, rgb_offset[0]), color[0]);
                    let _ = values.insert((fxt_id, rgb_offset[1]), color[1]);
                    let _ = values.insert((fxt_id, rgb_offset[2]), color[2]);
                } else {
                    diag.push_err(String::from_str("this fixture doesn't have rgb channel"));
                    has_error = true;
                }
            }
            i = i + 1;
        }
        proof {
            assert(fixtures@.take(n as int) =~= fixtures@);
        }
        if has_error {
            return None;
        }
        Some(SimpleFunctionBody { values })
    }
}

/// Every step of `steps` is given in place, and is simple or a sequence of
/// such steps.
pub open spec fn steps_bindable(steps: Seq<SequenceStep<FunctionPrototypeBody, FunctionPrototypeId>>) -> bool
    decreases steps,
{
    if steps.len() == 0 {
        true
    } else {
        &&& steps_bindable(steps.drop_last())
        &&& match steps.last().body {
            FunctionBodyOrId::Body(FunctionPrototypeBody::Simple(_)) => true,
            FunctionBodyOrId::Body(FunctionPrototypeBody::Sequence(q)) => steps_bindable(q.steps@),
            _ => false,
        }
    }
}

/// Every step of `steps` binds to `args` without error.
pub open spec fn steps_bind_ok(
    v: DocView,
    steps: Seq<SequenceStep<FunctionPrototypeBody, FunctionPrototypeId>>,
    args: Seq<Vec<FixtureId>>,
) -> bool
    decreases steps,
{
    if steps.len() == 0 {
        true
    } else {
        &&& steps_bind_ok(v, steps.drop_last(), args)
        &&& match steps.last().body {
            FunctionBodyOrId::Body(FunctionPrototypeBody::Simple(p)) => args.len() == 1 && bind_errors(
                v,
                p,
                args[0]@,
            ) == 0,
            FunctionBodyOrId::Body(FunctionPrototypeBody::Sequence(q)) => steps_bind_ok(v, q.steps@, args),
            _ => false,
        }
    }
}

/// What binding `steps` to `args` reports: what each step reports, in
/// order, up to and including the first step that does not bind.
pub open spec fn steps_messages(
    v: DocView,
    steps: Seq<SequenceStep<FunctionPrototypeBody, FunctionPrototypeId>>,
    args: Seq<Vec<FixtureId>>,
) -> Seq<Seq<char>>
    decreases steps,
{
    if steps.len() == 0 {
        Seq::empty()
    } else {
        let prev = steps_messages(v, steps.drop_last(), args);
        if !steps_bind_ok(v, steps.drop_last(), args) {
            prev
        } else {
            prev + match steps.last().body {
                FunctionBodyOrId::Body(FunctionPrototypeBody::Simple(p)) => simple_messages(v, p, args),
                FunctionBodyOrId::Body(FunctionPrototypeBody::Sequence(q)) => steps_messages(v, q.steps@, args),
                _ => Seq::empty(),
            }
        }
    }
}

/// Once a prefix of `steps` does not bind, the later steps report nothing.
proof fn lemma_steps_messages_take(
    v: DocView,
    steps: Seq<SequenceStep<FunctionPrototypeBody, FunctionPrototypeId>>,
    args: Seq<Vec<FixtureId>>,
    k: int,
)
    requires
        0 <= k <= steps.len(),
        !steps_bind_ok(v, steps.take(k), args),
    ensures
        steps_messages(v, steps, args) == steps_messages(v, steps.take(k), args),
    decreases steps.len(),
{
    if k == steps.len() {
        assert(steps.take(k) =~= steps);
    } else {
        let p = steps.drop_last();
        assert(p.take(k) =~= steps.take(k));
        lemma_steps_take(v, p, args, k);
        lemma_steps_messages_take(v, p, args, k);
    }
}

/// `out` is `steps` bound to `args`: the same timing, each simple step
/// with the values it binds to, each sequence bound step by step.
pub open spec fn steps_bound(
    v: DocView,
    steps: Seq<SequenceStep<FunctionPrototypeBody, FunctionPrototypeId>>,
    args: Seq<Vec<FixtureId>>,
    out: Seq<SequenceStep<FunctionBody, AppliedFunctionId>>,
) -> bool
    decreases steps,
{
    &&& steps.len() == out.len()
    &&& steps.len() == 0 || {
        let s = steps.last();
        let o = out.last();
        &&& steps_bound(v, steps.drop_last(), args, out.drop_last())
        &&& o.duration == s.duration
        &&& o.fade_in == s.fade_in
        &&& o.fade_out == s.fade_out
        &&& match s.body {
            FunctionBodyOrId::Body(FunctionPrototypeBody::Simple(p)) => o.body matches FunctionBodyOrId::Body(
                FunctionBody::Simple(b),
            ) && b.values_spec() == bound_values(v, p, args[0]@),
            FunctionBodyOrId::Body(FunctionPrototypeBody::Sequence(q)) => o.body matches FunctionBodyOrId::Body(
                FunctionBody::Sequence(sb),
            ) && steps_bound(v, q.steps@, args, sb.steps@),
            _ => false,
        }
    }
}

proof fn lemma_steps_take(
    v: DocView,
    steps: Seq<SequenceStep<FunctionPrototypeBody, FunctionPrototypeId>>,
    args: Seq<Vec<FixtureId>>,
    i: int,
)
    requires
        0 <= i <= steps.len(),
    ensures
        steps_bindable(steps) ==> steps_bindable(steps.take(i)),
        steps_bind_ok(v, steps, args) ==> steps_bind_ok(v, steps.take(i), args),
    decreases steps.len(),
{
    if i == steps.len() {
        assert(steps.take(i) =~= steps);
    } else {
        lemma_steps_take(v, steps.drop_last(), args, i);
        assert(steps.drop_last().take(i) =~= steps.take(i));
    }
}

impl SequenceFunctionPrototypeBody {
    /// Binds each step, in order, to `args`; gives no body once a step does
    /// not bind, and reports why.
    pub fn bind_to_inner(&self, args: &Vec<Vec<FixtureId>>, doc: &DocState, diag: &mut Diagnostics) -> (r:
        Option<SequenceFunctionBody>)
        requires
            doc@.consistent(),
            steps_bindable(self.steps@),
            args@.len() == 1 ==> forall|i: int|
                0 <= i < args@[0]@.len() ==> doc@.fixtures.contains_key(#[trigger] args@[0]@[i]),
        ensures
            r is Some <==> steps_bind_ok(doc@, self.steps@, args@),
            r matches Some(b) ==> steps_bound(doc@, self.steps@, args@, b.steps@),
            final(diag).messages() == old(diag).messages() + steps_messages(doc@, self.steps@, args@),
            r is Some ==> final(diag).messages() == old(diag).messages(),
            r is None ==> final(diag).messages().len() > old(diag).messages().len(),
        decreases self,
    {
        let n = self.steps.len();
        let mut out: Vec<SequenceStep<FunctionBody, AppliedFunctionId>> = Vec::new();
        let mut i: usize = 0;
        while i < n
            invariant
                n == self.steps@.len(),
                i <= n,
                doc@.consistent(),
                steps_bindable(self.steps@),
                args@.len() == 1 ==> forall|j: int|
                    0 <= j < args@[0]@.len() ==> doc@.fixtures.contains_key(#[trigger] args@[0]@[j]),
                steps_bind_ok(doc@, self.steps@.take(i as int), args@),
                steps_bound(doc@, self.steps@.take(i as int), args@, out@),
                diag.messages() == old(diag).messages(),
                steps_messages(doc@, self.steps@.take(i as int), args@).len() == 0,
            decreases n - i,
        {
            let step = &self.steps[i];
            proof {
                lemma_steps_take(doc@, self.steps@, args@, i + 1);
                assert(self.steps@.take(i + 1).drop_last() =~= self.steps@.take(i as int));
                assert(self.steps@.take(i + 1).last() == self.steps@[i as int]);
            }
            let body = match &step.body {
                FunctionBodyOrId::Body(FunctionPrototypeBody::Simple(p)) => {
                    match p.bind_to_inner(args, doc, diag) {
                        Some(b) => FunctionBody::Simple(b),
                        None => {
                            proof {
                                if steps_bind_ok(doc@, self.steps@, args@) {
                                    lemma_steps_take(doc@, self.steps@, args@, i + 1);
                                }
                                lemma_steps_messages_take(doc@, self.steps@, args@, i + 1);
                            }
                            return None;
                        },
                    }
                },
                FunctionBodyOrId::Body(FunctionPrototypeBody::Sequence(q)) => {
                    match q.bind_to_inner(args, doc, diag) {
                        Some(b) => FunctionBody::Sequence(b),
                        None => {
                            proof {
                                if steps_bind_ok(doc@, self.steps@, args@) {
                                    lemma_steps_take(doc@, self.steps@, args@, i + 1);
                                }
                                lemma_steps_messages_take(doc@, self.steps@, args@, i + 1);
                            }
                            return None;
                        },
                    }
                },
                _ => vstd::pervasive::unreached(),
            };
            let bound = SequenceStep {
                duration: step.duration,
                fade_in: step.fade_in,
                fade_out: step.fade_out,
                body: FunctionBodyOrId::Body(body),
            };
            proof {
                assert(out@.push(bound).drop_last() =~= out@);
            }
            out.push(bound);
            i = i + 1;
        }
        proof {
            assert(self.steps@.take(n as int) =~= self.steps@);
            assert(diag.messages() =~= old(diag).messages() + steps_messages(doc@, self.steps@, args@));
        }
        Some(SequenceFunctionBody { steps: out })
    }
}

impl Function {
    pub closed spec fn id_spec(&self) -> AppliedFunctionId {
        self.id
    }

    pub closed spec fn name_spec(&self) -> String {
        self.name
    }

    pub closed spec fn body_spec(&self) -> &FunctionBody {
        &self.body
    }

    /// A simple function with a fresh id, writing `values`.
    pub fn new_simple(name: String, values: KeyedVec<(FixtureId, usize), u8>) -> (r: Function)
        ensures
            r.name_spec() == name,
            r.body_spec() matches FunctionBody::Simple(b) && b.values_spec() == values@ && b.entries()
                == values.entries(),
    {
        Function {
            id: AppliedFunctionId::new(),
            name,
            body: FunctionBody::Simple(SimpleFunctionBody::new(values)),
        }
    }

    /// A sequence function with a fresh id, of `steps`.
    pub fn new_sequence(name: String, steps: Vec<SequenceStep<FunctionBody, AppliedFunctionId>>) -> (r: Self)
        ensures
            r.name_spec() == name,
            r.body_spec() matches FunctionBody::Sequence(b) && b.steps@ == steps@,
    {
        Function { id: AppliedFunctionId::new(), name, body: FunctionBody::Sequence(SequenceFunctionBody { steps }) }
    }

    pub fn id(&self) -> (r: AppliedFunctionId)
        ensures
            r == self.id_spec(),
    {
        self.id
    }

    pub fn name(&self) -> (r: &String)
        ensures
            *r == self.name_spec(),
    {
        &self.name
    }

    pub fn body(&self) -> (r: &FunctionBody)
        ensures
            r == self.body_spec(),
    {
        &self.body
    }
}

impl FunctionPrototype {
    pub closed spec fn id_spec(&self) -> FunctionPrototypeId {
        self.id
    }

    pub closed spec fn body_spec(&self) -> &FunctionPrototypeBody {
        &self.body
    }

    /// A prototype with a fresh id.
    pub fn new(name: String, body: FunctionPrototypeBody) -> (r: Self)
        ensures
            r.body_spec() == body,
    {
        FunctionPrototype { id: FunctionPrototypeId::new(), name, body }
    }

    pub fn id(&self) -> (r: FunctionPrototypeId)
        ensures
            r == self.id_spec(),
    {
        self.id
    }

    /// Binds the prototype to the fixtures of `args` and names the function
    /// `name`; no function where binding reported an error.
    pub fn bind_to(&self, name: String, args: &Vec<Vec<FixtureId>>, doc: &DocState, diag: &mut Diagnostics) -> (r:
        Option<Function>)
        requires
            doc@.consistent(),
            !(self.body_spec() is Parallel),
            self.body_spec() matches FunctionPrototypeBody::Sequence(q) ==> steps_bindable(q.steps@),
            args@.len() == 1 ==> forall|i: int|
                0 <= i < args@[0]@.len() ==> doc@.fixtures.contains_key(#[trigger] args@[0]@[i]),
        ensures
            r matches Some(f) ==> f.name_spec() == name,
            match self.body_spec() {
                FunctionPrototypeBody::Simple(p) => {
                    &&& final(diag).messages() == old(diag).messages() + simple_messages(doc@, *p, args@)
                    &&& r is Some <==> args@.len() == 1 && bind_errors(doc@, *p, args@[0]@) == 0
                    &&& r matches Some(f) ==> f.body_spec() matches FunctionBody::Simple(b) && b.values_spec()
                        == bound_values(doc@, *p, args@[0]@)
                },
                FunctionPrototypeBody::Sequence(q) => {
                    &&& final(diag).messages() == old(diag).messages() + steps_messages(doc@, q.steps@, args@)
                    &&& r is Some <==> steps_bind_ok(doc@, q.steps@, args@)
                    &&& r matches Some(f) ==> f.body_spec() matches FunctionBody::Sequence(b) && steps_bound(
                        doc@,
                        q.steps@,
                        args@,
                        b.steps@,
                    )
                },
                FunctionPrototypeBody::Parallel(_) => false,
            },
    {
        match &self.body {
            FunctionPrototypeBody::Simple(p) => match p.bind_to_inner(args, doc, diag) {
                Some(b) => Some(Function { id: AppliedFunctionId::new(), name, body: FunctionBody::Simple(b) }),
                None => None,
            },
            FunctionPrototypeBody::Sequence(p) => match p.bind_to_inner(args, doc, diag) {
                Some(b) => Some(Function { id: AppliedFunctionId::new(), name, body: FunctionBody::Sequence(b) }),
                None => None,
            },
            FunctionPrototypeBody::Parallel(_) => vstd::pervasive::unreached(),
        }
    }
}

} // verus!
