pub mod parallel;
pub mod runtime;
pub mod resolve;
pub mod create;
pub mod check;
pub mod sequence;
pub mod simple;

use crate::doc::state::{DocState, DocView};
use crate::fixture::{valid_tag, Fixture, FixtureTag};
use crate::ids::{EffectId, EffectSpecId, EffectTemplateId, FixtureId};
use crate::keyed::{KeyEq, KeyedVec};
use crate::time::Duration;
use std::sync::Arc;
use vstd::prelude::*;

pub use parallel::{ParallelEffectBody, ParallelEffectSpecBody, ParallelEffectTemplateBody};
pub use sequence::{
    FromSpecError, SequenceEffectBody, SequenceEffectSpecBody, SequenceEffectTemplateBody,
    SequenceStep, SequenceTemplateStepBase,
};
pub use simple::{SimpleEffectBody, SimpleEffectSpecBody, SimpleEffectTemplateBody};

verus! {

/// Calls `Arc::clone`, which the standard library documents as making
/// another pointer to the same allocation: the result points to the value
/// that `a` points to.
#[verifier::external_body]
pub(crate) fn share<T>(a: &Arc<T>) -> (r: Arc<T>)
    ensures
        r == *a,
{
    Arc::clone(a)
}

/// What a running effect asks the engine to do.
#[derive(Clone, Copy, PartialEq, Eq, Structural, Debug)]
pub enum EffectCommand {
    /// Start the effect; the engine does nothing if it is already started.
    StartEffect(EffectId),
    /// Stop the running effect.
    StopEffect,
    /// Write `value` to channel `channel` (offset inside the fixture's mode)
    /// of fixture `fixture_id`.
    WriteUniverse { fixture_id: FixtureId, channel: usize, value: u8 },
}

/// A model-agnostic effect, not yet bound to fixtures; it controls channels
/// such as dimmer and color.
#[derive(Debug)]
pub struct EffectSpec {
    id: EffectSpecId,
    name: String,
    body: Arc<EffectSpecBody>,
}

#[derive(Debug)]
pub enum EffectSpecBody {
    Simple(SimpleEffectSpecBody),
    Sequence(SequenceEffectSpecBody),
    Parallel(ParallelEffectSpecBody),
}

#[derive(Debug)]
pub enum EffectSpecChange {
    Rename(String),
    Simple(SimpleEffectSpecBody),
    Sequence(SequenceEffectSpecBody),
    Parallel(ParallelEffectSpecBody),
}

/// An effect with properties still to be given; giving them yields an
/// [`Effect`].
#[derive(Debug)]
pub struct EffectTemplate {
    id: EffectTemplateId,
    name: String,
    body: Arc<EffectTemplateBody>,
}

/// The body of an [`EffectTemplate`]; it can be embedded as a step of a
/// sequence.
#[derive(Debug)]
pub enum EffectTemplateBody {
    Simple(SimpleEffectTemplateBody),
    Sequence(SequenceEffectTemplateBody),
    Parallel(ParallelEffectTemplateBody),
}

#[derive(Debug)]
pub enum EffectTemplateChange {
    Rename(String),
    Simple(SimpleEffectTemplateBody),
    Sequence(SequenceEffectTemplateBody),
    Parallel(ParallelEffectTemplateBody),
}

/// An effect bound to fixtures; it can control model-specific channels.
#[derive(Debug)]
pub struct Effect {
    id: EffectId,
    name: String,
    body: Arc<EffectBody>,
}

#[derive(Debug)]
pub enum EffectBody {
    Simple(SimpleEffectBody),
    Sequence(SequenceEffectBody),
    Parallel(ParallelEffectBody),
}

#[derive(Debug)]
pub enum EffectChange {
    Rename(String),
    Simple(SimpleEffectBody),
    Sequence(SequenceEffectBody),
    Parallel(ParallelEffectBody),
}

impl EffectSpec {
    pub closed spec fn id_spec(self) -> EffectSpecId {
        self.id
    }

    pub closed spec fn name_spec(self) -> String {
        self.name
    }

    pub closed spec fn body_spec(self) -> EffectSpecBody {
        *self.body
    }

    /// The spec `id` as stored: its name and body.
    pub fn from_parts(id: EffectSpecId, name: String, body: EffectSpecBody) -> (r: Self)
        ensures
            r.id_spec() == id,
            r.name_spec() == name,
            r.body_spec() == body,
    {
        EffectSpec { id, name, body: Arc::new(body) }
    }

    /// A new simple spec, with a fresh id and neither dimmer nor color.
    pub fn new_simple(name: String) -> (r: Self)
        ensures
            r.name_spec() == name,
            r.body_spec() matches EffectSpecBody::Simple(b) && b.dimmer.is_none() && b.color.is_none(),
    {
        EffectSpec {
            id: EffectSpecId::new(),
            name,
            body: Arc::new(EffectSpecBody::Simple(SimpleEffectSpecBody::new())),
        }
    }

    pub fn id(&self) -> (r: EffectSpecId)
        ensures
            r == self.id_spec(),
    {
        self.id
    }

    /// A copy of this spec, sharing its body.
    pub fn duplicate(&self) -> (r: Self)
        ensures
            r == *self,
    {
        EffectSpec { id: self.id, name: self.name.clone(), body: share(&self.body) }
    }

    pub fn name(&self) -> (r: &String)
        ensures
            *r == self.name_spec(),
    {
        &self.name
    }

    pub fn body(&self) -> (r: &EffectSpecBody)
        ensures
            *r == self.body_spec(),
    {
        &*self.body
    }

    /// `new` is `self` after `change`: renamed, or with its body replaced.
    pub open spec fn changed_to(self, change: EffectSpecChange, new: EffectSpec) -> bool {
        &&& new.id_spec() == self.id_spec()
        &&& match change {
            EffectSpecChange::Rename(n) => new.name_spec() == n && new.body_spec() == self.body_spec(),
            EffectSpecChange::Simple(b) => new.name_spec() == self.name_spec() && new.body_spec()
                == EffectSpecBody::Simple(b),
            EffectSpecChange::Sequence(b) => new.name_spec() == self.name_spec() && new.body_spec()
                == EffectSpecBody::Sequence(b),
            EffectSpecChange::Parallel(b) => new.name_spec() == self.name_spec() && new.body_spec()
                == EffectSpecBody::Parallel(b),
        }
    }

    pub fn apply_change(&mut self, change: EffectSpecChange)
        ensures
            old(self).changed_to(change, *final(self)),
    {
        match change {
            EffectSpecChange::Rename(name) => {
                self.name = name;
            },
            EffectSpecChange::Simple(body) => {
                self.body = Arc::new(EffectSpecBody::Simple(body));
            },
            EffectSpecChange::Sequence(body) => self.body = Arc::new(EffectSpecBody::Sequence(body)),
            EffectSpecChange::Parallel(body) => self.body = Arc::new(EffectSpecBody::Parallel(body)),
        }
    }
}

impl EffectTemplate {
    pub closed spec fn id_spec(self) -> EffectTemplateId {
        self.id
    }

    pub closed spec fn name_spec(self) -> String {
        self.name
    }

    pub closed spec fn body_spec(self) -> EffectTemplateBody {
        *self.body
    }

    /// The template `id` as stored: its name and body.
    pub fn from_parts(id: EffectTemplateId, name: String, body: EffectTemplateBody) -> (r: Self)
        ensures
            r.id_spec() == id,
            r.name_spec() == name,
            r.body_spec() == body,
    {
        EffectTemplate { id, name, body: Arc::new(body) }
    }

    /// A new simple template with a fresh id, patching dimmer 0 and black to
    /// the default query.
    pub fn new_simple(name: String) -> (r: Self)
        ensures
            r.name_spec() == name,
            r.body_spec() matches EffectTemplateBody::Simple(
                SimpleEffectTemplateBody::New { fixtures, values, dimmer, color, props },
            ) && fixtures.is_default() && values@ == Map::<(FixtureId, usize), u8>::empty() && dimmer
                == Expression::Value(Value::Dimmer(0)) && (color matches Expression::Value(Value::Color(c)) && c@
                == seq![0u8, 0u8, 0u8]) && props@ == Map::<Seq<char>, Type>::empty(),
    {
        EffectTemplate {
            id: EffectTemplateId::new(),
            name,
            body: Arc::new(EffectTemplateBody::Simple(SimpleEffectTemplateBody::new())),
        }
    }

    pub fn id(&self) -> (r: EffectTemplateId)
        ensures
            r == self.id_spec(),
    {
        self.id
    }

    /// A copy of this template, sharing its body.
    pub fn duplicate(&self) -> (r: Self)
        ensures
            r == *self,
    {
        EffectTemplate { id: self.id, name: self.name.clone(), body: share(&self.body) }
    }

    pub fn name(&self) -> (r: &String)
        ensures
            *r == self.name_spec(),
    {
        &self.name
    }

    pub fn body(&self) -> (r: &EffectTemplateBody)
        ensures
            *r == self.body_spec(),
    {
        &*self.body
    }

    /// `new` is `self` after `change`: renamed, or with its body replaced.
    pub open spec fn changed_to(self, change: EffectTemplateChange, new: EffectTemplate) -> bool {
        &&& new.id_spec() == self.id_spec()
        &&& match change {
            EffectTemplateChange::Rename(n) => new.name_spec() == n && new.body_spec()
                == self.body_spec(),
            EffectTemplateChange::Simple(b) => new.name_spec() == self.name_spec()
                && new.body_spec() == EffectTemplateBody::Simple(b),
            EffectTemplateChange::Sequence(b) => new.name_spec() == self.name_spec()
                && new.body_spec() == EffectTemplateBody::Sequence(b),
            EffectTemplateChange::Parallel(b) => new.name_spec() == self.name_spec()
                && new.body_spec() == EffectTemplateBody::Parallel(b),
        }
    }

    pub fn apply_change(&mut self, change: EffectTemplateChange)
        ensures
            old(self).changed_to(change, *final(self)),
    {
        match change {
            EffectTemplateChange::Rename(name) => {
                self.name = name;
            },
            EffectTemplateChange::Simple(body) => {
                self.body = Arc::new(EffectTemplateBody::Simple(body));
            },
            EffectTemplateChange::Sequence(body) => self.body = Arc::new(EffectTemplateBody::Sequence(body)),
            EffectTemplateChange::Parallel(body) => self.body = Arc::new(EffectTemplateBody::Parallel(body)),
        }
    }
}

impl Effect {
    pub closed spec fn id_spec(self) -> EffectId {
        self.id
    }

    pub closed spec fn name_spec(self) -> String {
        self.name
    }

    pub closed spec fn body_spec(self) -> EffectBody {
        *self.body
    }

    /// The effect `id` as stored: its name and body.
    pub fn from_parts(id: EffectId, name: String, body: EffectBody) -> (r: Self)
        ensures
            r.id_spec() == id,
            r.name_spec() == name,
            r.body_spec() == body,
    {
        Effect { id, name, body: Arc::new(body) }
    }

    /// A new simple effect with a fresh id that writes nothing.
    pub fn new_simple(name: String) -> (r: Effect)
        ensures
            r.name_spec() == name,
            r.body_spec() matches EffectBody::Simple(SimpleEffectBody::New { fixtures, values })
                && fixtures.is_default() && values@ == Map::<(FixtureId, usize), u8>::empty(),
    {
        Effect { id: EffectId::new(), name, body: Arc::new(EffectBody::Simple(SimpleEffectBody::new())) }
    }

    /// A new sequence effect with a fresh id and no steps.
    pub fn new_sequence(name: String) -> (r: Self)
        ensures
            r.name_spec() == name,
            r.body_spec() matches EffectBody::Sequence(SequenceEffectBody::New(steps))
                && steps@.len() == 0,
    {
        Effect {
            id: EffectId::new(),
            name,
            body: Arc::new(EffectBody::Sequence(SequenceEffectBody::new())),
        }
    }

    /// A new parallel effect with a fresh id and no items.
    pub fn new_parallel(name: String) -> (r: Self)
        ensures
            r.name_spec() == name,
            r.body_spec() matches EffectBody::Parallel(ParallelEffectBody::New { items })
                && items@.len() == 0,
    {
        Effect {
            id: EffectId::new(),
            name,
            body: Arc::new(EffectBody::Parallel(ParallelEffectBody::new())),
        }
    }

    pub fn id(&self) -> (r: EffectId)
        ensures
            r == self.id_spec(),
    {
        self.id
    }

    /// A copy of this effect, sharing its body.
    pub fn duplicate(&self) -> (r: Self)
        ensures
            r == *self,
    {
        Effect { id: self.id, name: self.name.clone(), body: share(&self.body) }
    }

    pub fn name(&self) -> (r: &String)
        ensures
            *r == self.name_spec(),
    {
        &self.name
    }

    pub fn body(&self) -> (r: &EffectBody)
        ensures
            *r == self.body_spec(),
    {
        &*self.body
    }

    /// The body of a simple effect.
    pub fn unwrap_simple(&self) -> (r: &SimpleEffectBody)
        requires
            self.body_spec() is Simple,
        ensures
            self.body_spec() == EffectBody::Simple(*r),
    {
        match &*self.body {
            EffectBody::Simple(b) => b,
            _ => vstd::pervasive::unreached(),
        }
    }

    /// The body of a sequence effect.
    pub fn unwrap_sequence(&self) -> (r: &SequenceEffectBody)
        requires
            self.body_spec() is Sequence,
        ensures
            self.body_spec() == EffectBody::Sequence(*r),
    {
        match &*self.body {
            EffectBody::Sequence(b) => b,
            _ => vstd::pervasive::unreached(),
        }
    }

    /// `new` is `self` after `change`: renamed, or with its body replaced.
    pub open spec fn changed_to(self, change: EffectChange, new: Effect) -> bool {
        &&& new.id_spec() == self.id_spec()
        &&& match change {
            EffectChange::Rename(n) => new.name_spec() == n && new.body_spec() == self.body_spec(),
            EffectChange::Simple(b) => new.name_spec() == self.name_spec() && new.body_spec()
                == EffectBody::Simple(b),
            EffectChange::Sequence(b) => new.name_spec() == self.name_spec() && new.body_spec()
                == EffectBody::Sequence(b),
            EffectChange::Parallel(b) => new.name_spec() == self.name_spec() && new.body_spec()
                == EffectBody::Parallel(b),
        }
    }

    pub fn apply_change(&mut self, change: EffectChange)
        ensures
            old(self).changed_to(change, *final(self)),
    {
        match change {
            EffectChange::Rename(name) => {
                self.name = name;
            },
            EffectChange::Simple(body) => {
                self.body = Arc::new(EffectBody::Simple(body));
            },
            EffectChange::Sequence(body) => self.body = Arc::new(EffectBody::Sequence(body)),
            EffectChange::Parallel(body) => self.body = Arc::new(EffectBody::Parallel(body)),
        }
    }
}

/// Messages collected while binding functions to fixtures.
#[derive(Debug)]
pub struct Diagnostics {
    inner: Vec<DiagnosticItem>,
}

#[derive(Debug)]
struct DiagnosticItem {
    message: String,
}

impl Diagnostics {
    /// The messages, in the order they were pushed.
    pub closed spec fn messages(self) -> Seq<Seq<char>> {
        self.inner@.map_values(|d: DiagnosticItem| d.message@)
    }

    /// No messages.
    pub fn new() -> (r: Self)
        ensures
            r.messages().len() == 0,
    {
        Diagnostics { inner: Vec::new() }
    }

    /// Records an error message.
    pub fn push_err(&mut self, message: String)
        ensures
            final(self).messages() == old(self).messages().push(message@),
    {
        let ghost text = message@;
        self.inner.push(DiagnosticItem { message });
        assert(self.messages() =~= old(self).messages().push(text));
    }

    /// The number of messages.
    pub fn len(&self) -> (r: usize)
        ensures
            r == self.messages().len(),
    {
        self.inner.len()
    }

    /// The message pushed `i`-th.
    pub fn message(&self, i: usize) -> (r: &String)
        requires
            i < self.messages().len(),
        ensures
            r@ == self.messages()[i as int],
    {
        &self.inner[i].message
    }
}

/// Either a body given in place or a reference to a stored one.
#[derive(Debug)]
pub enum EffectBodyOrReference<T, U> {
    Body(T),
    Reference(U),
}

/// A value given in place, or the name of a property to take it from.
#[derive(Debug)]
pub enum Expression {
    Value(Value),
    Prop(String),
}

/// The types that properties can have.
#[derive(Clone, Copy, PartialEq, Eq, Structural, Debug)]
pub enum Type {
    Duration,
    Dimmer,
    Color,
    FixtureQuery,
}

/// The values that can be given as properties.
#[derive(Debug)]
pub enum Value {
    Duration(Duration),
    Dimmer(u8),
    Color([u8; 3]),
    FixtureQuery(FixtureQuery),
}

impl Type {
    /// The default value of this type.
    pub fn default_value(&self) -> (r: Value)
        ensures
            r.type_of() == *self,
            *self == Type::Duration ==> (r matches Value::Duration(d) && d.ns() == 0),
            *self == Type::Dimmer ==> (r matches Value::Dimmer(v) && v == 0),
            *self == Type::Color ==> (r matches Value::Color(c) && c@ == seq![0u8, 0u8, 0u8]),
            *self == Type::FixtureQuery ==> (r matches Value::FixtureQuery(q) && q.is_default()),
    {
        match self {
            Type::Duration => Value::Duration(Duration::zero()),
            Type::Dimmer => Value::Dimmer(0),
            Type::Color => {
                let c: [u8; 3] = [0, 0, 0];
                assert(c@ =~= seq![0u8, 0u8, 0u8]);
                Value::Color(c)
            },
            Type::FixtureQuery => Value::FixtureQuery(FixtureQuery::default_query()),
        }
    }
}

impl Value {
    /// The type of a value.
    pub open spec fn type_of(self) -> Type {
        match self {
            Value::Duration(_) => Type::Duration,
            Value::Dimmer(_) => Type::Dimmer,
            Value::Color(_) => Type::Color,
            Value::FixtureQuery(_) => Type::FixtureQuery,
        }
    }

    /// Whether the value has type `typ`.
    pub fn matches_type(&self, typ: Type) -> (r: bool)
        ensures
            r == (self.type_of() == typ),
    {
        match self {
            Value::Duration(_) => typ == Type::Duration,
            Value::Dimmer(_) => typ == Type::Dimmer,
            Value::Color(_) => typ == Type::Color,
            Value::FixtureQuery(_) => typ == Type::FixtureQuery,
        }
    }

    /// The type of the value.
    pub fn typ(&self) -> (r: Type)
        ensures
            r == self.type_of(),
    {
        match self {
            Value::Duration(_) => Type::Duration,
            Value::Dimmer(_) => Type::Dimmer,
            Value::Color(_) => Type::Color,
            Value::FixtureQuery(_) => Type::FixtureQuery,
        }
    }

    /// The duration held by a duration value.
    pub fn unwrap_duration(&self) -> (r: Duration)
        requires
            self is Duration,
        ensures
            *self == Value::Duration(r),
    {
        match self {
            Value::Duration(d) => *d,
            _ => {
                proof {
                    assert(false);
                }
                Duration::zero()
            },
        }
    }

    /// The level held by a dimmer value.
    pub fn unwrap_dimmer(&self) -> (r: u8)
        requires
            self is Dimmer,
        ensures
            *self == Value::Dimmer(r),
    {
        match self {
            Value::Dimmer(v) => *v,
            _ => {
                proof {
                    assert(false);
                }
                0
            },
        }
    }

    /// The color held by a color value.
    pub fn unwrap_color(&self) -> (r: [u8; 3])
        requires
            self is Color,
        ensures
            *self == Value::Color(r),
    {
        match self {
            Value::Color(c) => *c,
            _ => {
                proof {
                    assert(false);
                }
                [0, 0, 0]
            },
        }
    }

    /// A copy of the query held by a query value.
    pub fn unwrap_query(&self) -> (r: FixtureQuery)
        requires
            self is FixtureQuery,
        ensures
            *self == Value::FixtureQuery(r),
    {
        match self {
            Value::FixtureQuery(q) => q.duplicate(),
            _ => {
                proof {
                    assert(false);
                }
                FixtureQuery::default_query()
            },
        }
    }
}

/// A selector of a [`FixtureQuery`].
#[derive(Debug)]
pub enum Selector {
    Id(FixtureId),
    Tags(Vec<FixtureTag>),
}

/// The view of a selector: an id, or tag texts.
pub enum SelectorView {
    Id(FixtureId),
    Tags(Seq<Seq<char>>),
}

impl View for Selector {
    type V = SelectorView;

    open spec fn view(&self) -> SelectorView {
        match self {
            Selector::Id(id) => SelectorView::Id(*id),
            Selector::Tags(t) => SelectorView::Tags(t@.map_values(|x: FixtureTag| x@)),
        }
    }
}

/// Selects fixtures with a css-like selector: `#<uuid>` or `.tag.tag…`.
#[derive(Debug)]
pub struct FixtureQuery {
    string: String,
    data: Arc<Vec<Selector>>,
}

impl View for FixtureQuery {
    type V = (Seq<char>, Seq<SelectorView>);

    closed spec fn view(&self) -> (Seq<char>, Seq<SelectorView>) {
        (self.string@, (*self.data)@.map_values(|s: Selector| s@))
    }
}

/// The parts of `s` between occurrences of `c`, starting with `cur` for the
/// part under way (as `str::split` cuts).
pub open spec fn split_acc(s: Seq<char>, c: char, cur: Seq<char>) -> Seq<Seq<char>>
    decreases s.len(),
{
    if s.len() == 0 {
        seq![cur]
    } else if s[0] == c {
        seq![cur] + split_acc(s.drop_first(), c, seq![])
    } else {
        split_acc(s.drop_first(), c, cur.push(s[0]))
    }
}

/// The parts of `s` between occurrences of `c`.
pub open spec fn split_on(s: Seq<char>, c: char) -> Seq<Seq<char>> {
    split_acc(s, c, seq![])
}

/// What [`FixtureQuery::from_str`] makes of `s`: for `#<uuid>` a query of
/// that fixture; for `.a.b` the tag selector of the parts of `s` between
/// dots (the first, empty one included), if all are valid tags.
pub open spec fn parse_query(s: Seq<char>) -> Option<(Seq<char>, Seq<SelectorView>)> {
    if s.len() == 0 {
        None
    } else if s[0] == '#' {
        match crate::ids::uuid_parse(s.drop_first()) {
            Some(v) => Some((s, seq![SelectorView::Id(FixtureId::from_u128_spec(v))])),
            None => None,
        }
    } else if s[0] == '.' {
        let parts = split_on(s, '.');
        if forall|i: int| 0 <= i < parts.len() ==> valid_tag(#[trigger] parts[i]) {
            Some((s, seq![SelectorView::Tags(parts)]))
        } else {
            None
        }
    } else {
        None
    }
}

impl FixtureQuery {
    /// The default query `.some-tag`.
    pub open spec fn is_default(self) -> bool {
        self@ == ((".some-tag"@, seq![SelectorView::Tags(seq!["some-tag"@])]))
    }

    /// The default query: `.some-tag`.
    pub fn default_query() -> (r: Self)
        ensures
            r.is_default(),
    {
        proof {
            reveal_strlit("some-tag");
        }
        let tag = FixtureTag::new("some-tag");
        let tag = match tag {
            Some(t) => t,
            None => {
                proof {
                    assert(false);
                }
                return FixtureQuery { string: ".some-tag".to_owned(), data: Arc::new(Vec::new()) };
            },
        };
        let mut tags: Vec<FixtureTag> = Vec::new();
        tags.push(tag);
        let mut data: Vec<Selector> = Vec::new();
        data.push(Selector::Tags(tags));
        let r = FixtureQuery { string: ".some-tag".to_owned(), data: Arc::new(data) };
        assert(r@.1 =~= seq![SelectorView::Tags(seq!["some-tag"@])]) by {
            assert(tags@.map_values(|x: FixtureTag| x@) =~= seq!["some-tag"@]);
        }
        r
    }

    /// A copy of this query, sharing its selectors.
    pub fn duplicate(&self) -> (r: Self)
        ensures
            r == *self,
    {
        FixtureQuery { string: self.string.clone(), data: share(&self.data) }
    }

    /// The query text.
    pub fn as_str(&self) -> (r: &str)
        ensures
            r@ == self@.0,
    {
        self.string.as_str()
    }

    /// Parses a query: `#<uuid>` selects one fixture, `.a.b` the fixtures
    /// with any of the tags between the dots. `None` for any other text, for
    /// an empty text and for an invalid tag.
    ///
    /// An `#` not followed by a UUID is a programming error here; see
    /// [`FixtureQuery::try_from_str`].
    pub fn from_str(val: &str) -> (r: Option<Self>)
        requires
            val@.len() > 0 && val@[0] == '#' ==> crate::ids::uuid_parse(val@.drop_first()).is_some(),
        ensures
            match r {
                Some(q) => parse_query(val@) == Some(q@),
                None => parse_query(val@).is_none(),
            },
    {
        let n = val.unicode_len();
        if n == 0 {
            return None;
        }
        let first = val.get_char(0);
        let selector = if first == '#' {
            let rest = val.substring_char(1, n);
            assert(rest@ == val@.drop_first());
            match FixtureId::from_str(rest) {
                Some(id) => Selector::Id(id),
                None => {
                    proof {
                        assert(false);
                    }
                    return None;
                },
            }
        } else if first == '.' {
            match Self::parse_tags(val) {
                Some(tags) => Selector::Tags(tags),
                None => {
                    return None;
                },
            }
        } else {
            return None;
        };
        let mut data: Vec<Selector> = Vec::new();
        data.push(selector);
        let r = FixtureQuery { string: val.to_owned(), data: Arc::new(data) };
        proof {
            if first == '#' {
                assert(r@.1 =~= seq![SelectorView::Id(FixtureId::from_u128_spec(crate::ids::uuid_parse(val@.drop_first()).unwrap()))]);
            } else {
                assert(r@.1 =~= seq![SelectorView::Tags(split_on(val@, '.'))]);
            }
        }
        Some(r)
    }

    /// Parses a query like [`FixtureQuery::from_str`], and also answers
    /// `None` where `#` is not followed by a UUID.
    pub fn try_from_str(val: &str) -> (r: Option<Self>)
        ensures
            val@.len() > 0 && val@[0] == '#' && crate::ids::uuid_parse(val@.drop_first()).is_none()
                ==> r.is_none(),
            !(val@.len() > 0 && val@[0] == '#' && crate::ids::uuid_parse(val@.drop_first()).is_none())
                ==> match r {
                Some(q) => parse_query(val@) == Some(q@),
                None => parse_query(val@).is_none(),
            },
    {
        let n = val.unicode_len();
        if n > 0 && val.get_char(0) == '#' {
            let rest = val.substring_char(1, n);
            assert(rest@ == val@.drop_first());
            if crate::ids::uuid_from_str(rest).is_none() {
                return None;
            }
        }
        Self::from_str(val)
    }

    /// The tags of `.a.b…`: the parts between dots, each a valid tag.
    fn parse_tags(val: &str) -> (r: Option<Vec<FixtureTag>>)
        requires
            val@.len() > 0,
            val@[0] == '.',
        ensures
            match r {
                Some(tags) => (forall|i: int| 0 <= i < split_on(val@, '.').len() ==> valid_tag(#[trigger] split_on(val@, '.')[i]))
                    && tags@.map_values(|x: FixtureTag| x@) == split_on(val@, '.'),
                None => !(forall|i: int| 0 <= i < split_on(val@, '.').len() ==> valid_tag(#[trigger] split_on(val@, '.')[i])),
            },
    {
        let parts = split_str(val, '.');
        let ghost target = split_on(val@, '.');
        let mut tags: Vec<FixtureTag> = Vec::new();
        let n = parts.len();
        let mut i: usize = 0;
        while i < n
            invariant
                n == parts@.len(),
                parts@.map_values(|p: String| p@) == target,
                target == split_on(val@, '.'),
                i <= n,
                tags@.len() == i,
                forall|j: int| 0 <= j < i ==> (#[trigger] tags@[j])@ == target[j],
                forall|j: int| 0 <= j < i ==> valid_tag(#[trigger] target[j]),
            decreases n - i,
        {
            assert(parts@[i as int]@ == target[i as int]);
            match FixtureTag::new(parts[i].as_str()) {
                Some(t) => {
                    tags.push(t);
                },
                None => {
                    return None;
                },
            }
            i = i + 1;
        }
        assert(tags@.map_values(|x: FixtureTag| x@) =~= target);
        Some(tags)
    }
}

/// The parts of `s` between occurrences of `c`, as `str::split` gives them.
pub fn split_str(s: &str, c: char) -> (r: Vec<String>)
    ensures
        r@.map_values(|p: String| p@) == split_on(s@, c),
{
    let n = s.unicode_len();
    let mut parts: Vec<String> = Vec::new();
    let mut start: usize = 0;
    let mut i: usize = 0;
    assert(s@.skip(0) =~= s@);
    assert(s@.subrange(0, 0) =~= Seq::<char>::empty());
    assert(parts@.map_values(|p: String| p@) =~= Seq::<Seq<char>>::empty());
    assert(Seq::<Seq<char>>::empty() + split_on(s@, c) =~= split_on(s@, c));
    while i < n
        invariant
            n == s@.len(),
            start <= i <= n,
            parts@.map_values(|p: String| p@) + split_acc(s@.skip(i as int), c, s@.subrange(start as int, i as int))
                == split_on(s@, c),
        decreases n - i,
    {
        let ch = s.get_char(i);
        let ghost rest = s@.skip(i as int);
        let ghost cur = s@.subrange(start as int, i as int);
        assert(rest[0] == ch);
        assert(rest.drop_first() =~= s@.skip(i + 1));
        if ch == c {
            let part = s.substring_char(start, i).to_owned();
            let ghost before = parts@.map_values(|p: String| p@);
            parts.push(part);
            assert(parts@.map_values(|p: String| p@) =~= before.push(cur));
            assert(s@.subrange(i + 1, i + 1) =~= Seq::<char>::empty());
            assert(split_acc(rest, c, cur) == seq![cur] + split_acc(s@.skip(i + 1), c, seq![]));
            assert(before.push(cur) + split_acc(s@.skip(i + 1), c, seq![]) =~= before + (seq![cur] + split_acc(s@.skip(i + 1), c, seq![])));
            start = i + 1;
        } else {
            assert(cur.push(ch) =~= s@.subrange(start as int, i + 1));
        }
        i = i + 1;
    }
    let last = s.substring_char(start, n).to_owned();
    let ghost before = parts@.map_values(|p: String| p@);
    parts.push(last);
    assert(s@.skip(n as int) =~= Seq::<char>::empty());
    assert(parts@.map_values(|p: String| p@) =~= before.push(s@.subrange(start as int, n as int)));
    parts
}


/// Fixture `f` carries one of the tags `tags`.
pub open spec fn has_any_tag(f: Fixture, tags: Seq<Seq<char>>) -> bool {
    exists|i: int, j: int|
        0 <= i < tags.len() && 0 <= j < f.tags_spec().len() && #[trigger] f.tags_spec()[j]@
            == #[trigger] tags[i]
}

/// Selector `s` selects fixture `id` of `v`.
pub open spec fn selects(v: DocView, id: FixtureId, s: SelectorView) -> bool {
    &&& v.fixtures.contains_key(id)
    &&& match s {
        SelectorView::Id(x) => x == id,
        SelectorView::Tags(tags) => has_any_tag(v.fixtures[id], tags),
    }
}

/// How many selectors of `sels` select `id`.
pub open spec fn selected_count(v: DocView, id: FixtureId, sels: Seq<SelectorView>) -> nat
    decreases sels.len(),
{
    if sels.len() == 0 {
        0
    } else {
        selected_count(v, id, sels.drop_last()) + if selects(v, id, sels.last()) {
            1nat
        } else {
            0nat
        }
    }
}

/// A tag selector selects a stored fixture exactly when one of the
/// selector's tags is one of the fixture's tags, at whatever place it stands
/// among them.
pub proof fn lemma_tag_selector(v: DocView, id: FixtureId, tags: Seq<Seq<char>>)
    requires
        v.fixtures.contains_key(id),
    ensures
        forall|i: int, j: int|
            0 <= i < tags.len() && 0 <= j < v.fixtures[id].tags_spec().len() && #[trigger] v.fixtures[id].tags_spec()[j]@
                == #[trigger] tags[i] ==> selects(v, id, SelectorView::Tags(tags)),
        selects(v, id, SelectorView::Tags(tags)) ==> exists|i: int, j: int|
            0 <= i < tags.len() && 0 <= j < v.fixtures[id].tags_spec().len() && v.fixtures[id].tags_spec()[j]@
                == tags[i],
{
}

/// A fixture that one of the selectors selects is selected by the query
/// they make up; one that none selects is not.
pub proof fn lemma_selected_by_some(v: DocView, id: FixtureId, sels: Seq<SelectorView>)
    ensures
        (selected_count(v, id, sels) > 0) == (exists|k: int| 0 <= k < sels.len() && selects(v, id, #[trigger] sels[k])),
    decreases sels.len(),
{
    if sels.len() > 0 {
        let p = sels.drop_last();
        lemma_selected_by_some(v, id, p);
        if exists|k: int| 0 <= k < p.len() && selects(v, id, #[trigger] p[k]) {
            let k = choose|k: int| 0 <= k < p.len() && selects(v, id, #[trigger] p[k]);
            assert(sels[k] == p[k]);
        }
        if exists|k: int| 0 <= k < sels.len() && selects(v, id, #[trigger] sels[k]) {
            let k = choose|k: int| 0 <= k < sels.len() && selects(v, id, #[trigger] sels[k]);
            if k < sels.len() - 1 {
                assert(p[k] == sels[k]);
            }
        }
    }
}

/// How many times `id` occurs in `s`.
pub open spec fn occurrences(s: Seq<FixtureId>, id: FixtureId) -> nat
    decreases s.len(),
{
    if s.len() == 0 {
        0
    } else {
        occurrences(s.drop_last(), id) + if s.last() == id {
            1nat
        } else {
            0nat
        }
    }
}

/// Whether `f` carries one of `tags`.
fn fixture_has_any_tag(f: &Fixture, tags: &Vec<FixtureTag>) -> (r: bool)
    ensures
        r == has_any_tag(*f, tags@.map_values(|t: FixtureTag| t@)),
{
    let ghost tv = tags@.map_values(|t: FixtureTag| t@);
    let ftags = f.tags();
    let mut i: usize = 0;
    while i < tags.len()
        invariant
            i <= tags@.len(),
            tv == tags@.map_values(|t: FixtureTag| t@),
            ftags@ == f.tags_spec(),
            forall|a: int, b: int|
                0 <= a < i && 0 <= b < ftags@.len() ==> #[trigger] ftags@[b]@ != #[trigger] tv[a],
        decreases tags@.len() - i,
    {
        let mut j: usize = 0;
        while j < ftags.len()
            invariant
                i < tags@.len(),
                j <= ftags@.len(),
                tv == tags@.map_values(|t: FixtureTag| t@),
                ftags@ == f.tags_spec(),
                forall|a: int, b: int|
                    0 <= a < i && 0 <= b < ftags@.len() ==> #[trigger] ftags@[b]@ != #[trigger] tv[a],
                forall|b: int| 0 <= b < j ==> #[trigger] ftags@[b]@ != tv[i as int],
            decreases ftags@.len() - j,
        {
            if ftags[j].key_eq(&tags[i]) {
                assert(ftags@[j as int]@ == tv[i as int]);
                return true;
            }
            j = j + 1;
        }
        i = i + 1;
    }
    false
}

impl FixtureQuery {
    /// The fixtures of `doc` that the query selects, once per selector that
    /// selects them; the order among one tag selector's fixtures is not
    /// specified.
    pub fn query(&self, doc: &DocState) -> (r: Vec<FixtureId>)
        ensures
            forall|id: FixtureId| occurrences(r@, id) == selected_count(doc@, id, self@.1),
    {
        let ghost sels = self@.1;
        let mut acc: Vec<FixtureId> = Vec::new();
        let data: &Vec<Selector> = &self.data;
        let n = data.len();
        let mut k: usize = 0;
        while k < n
            invariant
                n == self.data@.len(),
                *data == *self.data,
                k <= n,
                sels == self@.1,
                forall|id: FixtureId| occurrences(acc@, id) == selected_count(doc@, id, sels.take(k as int)),
            decreases n - k,
        {
            assert(sels.take(k + 1).drop_last() =~= sels.take(k as int));
            assert(sels.take(k + 1).last() == self.data@[k as int]@);
            match &data[k] {
                Selector::Id(id) => {
                    let ghost before = acc@;
                    assert(sels[k as int] == SelectorView::Id(*id));
                    if doc.fixture(id).is_some() {
                        acc.push(*id);
                    }
                    assert forall|x: FixtureId| occurrences(acc@, x) == selected_count(doc@, x, sels.take(k + 1)) by {
                        assert(selected_count(doc@, x, sels.take(k + 1)) == selected_count(doc@, x, sels.take(k as int)) + if selects(doc@, x, SelectorView::Id(*id)) { 1nat } else { 0nat });
                        if doc@.fixtures.contains_key(*id) {
                            assert(acc@.drop_last() =~= before);
                            assert(acc@.last() == *id);
                            assert(occurrences(acc@, x) == occurrences(before, x) + if *id == x { 1nat } else { 0nat });
                        } else {
                            assert(acc@ == before);
                        }
                    }
                },
                Selector::Tags(tags) => {
                    let ids = doc.fixture_ids();
                    let ghost base = acc@;
                    let ghost tv = tags@.map_values(|t: FixtureTag| t@);
                    let m = ids.len();
                    let mut j: usize = 0;
                    while j < m
                        invariant
                            m == ids@.len(),
                            j <= m,
                            tv == tags@.map_values(|t: FixtureTag| t@),
                            ids@.no_duplicates(),
                            forall|a: int| 0 <= a < ids@.len() ==> doc@.fixtures.contains_key(#[trigger] ids@[a]),
                            forall|x: FixtureId| occurrences(acc@, x) == occurrences(base, x) + (if exists|a: int| 0 <= a < j && #[trigger] ids@[a] == x && has_any_tag(doc@.fixtures[x], tv) { 1nat } else { 0nat }),
                        decreases m - j,
                    {
                        let fid = ids[j];
                        let ghost before = acc@;
                        let f = match doc.fixture(&fid) {
                            Some(f) => f,
                            None => vstd::pervasive::unreached(),
                        };
                        let hit = fixture_has_any_tag(f, tags);
                        if hit {
                            acc.push(fid);
                            assert(acc@.drop_last() =~= before);
                            assert(acc@.last() == fid);
                        }
                        assert(forall|x: FixtureId| occurrences(acc@, x) == occurrences(before, x) + if hit && x == fid { 1nat } else { 0nat });
                        assert forall|x: FixtureId| occurrences(acc@, x) == occurrences(base, x) + (if exists|a: int| 0 <= a < j + 1 && #[trigger] ids@[a] == x && has_any_tag(doc@.fixtures[x], tv) { 1nat } else { 0nat }) by {
                            if x == fid {
                                assert(ids@[j as int] == x);
                                assert(!exists|a: int| 0 <= a < j && #[trigger] ids@[a] == x);
                            } else {
                                if exists|a: int| 0 <= a < j + 1 && #[trigger] ids@[a] == x && has_any_tag(doc@.fixtures[x], tv) {
                                    let a = choose|a: int| 0 <= a < j + 1 && #[trigger] ids@[a] == x && has_any_tag(doc@.fixtures[x], tv);
                                    assert(a < j);
                                }
                            }
                        }
                        j = j + 1;
                    }
                    assert(sels[k as int] == SelectorView::Tags(tv));
                    assert forall|x: FixtureId| occurrences(acc@, x) == selected_count(doc@, x, sels.take(k + 1)) by {
                        assert(selected_count(doc@, x, sels.take(k + 1)) == selected_count(doc@, x, sels.take(k as int)) + if selects(doc@, x, SelectorView::Tags(tv)) { 1nat } else { 0nat });
                        if doc@.fixtures.contains_key(x) && has_any_tag(doc@.fixtures[x], tv) {
                            assert(ids@.contains(x));
                            let a = choose|a: int| 0 <= a < ids@.len() && ids@[a] == x;
                            assert(ids@[a] == x);
                        }
                    }
                },
            }
            k = k + 1;
        }
        assert(sels.take(n as int) =~= sels);
        acc
    }
}


/// `id` occurs in `s` exactly when it is counted there.
pub proof fn lemma_occurrences_contains(s: Seq<FixtureId>, id: FixtureId)
    ensures
        occurrences(s, id) > 0 <==> s.contains(id),
    decreases s.len(),
{
    if s.len() > 0 {
        lemma_occurrences_contains(s.drop_last(), id);
        if s.drop_last().contains(id) {
            let j = choose|j: int| 0 <= j < s.drop_last().len() && s.drop_last()[j] == id;
            assert(s[j] == id);
        }
        if s.contains(id) {
            let j = choose|j: int| 0 <= j < s.len() && s[j] == id;
            if j < s.len() - 1 {
                assert(s.drop_last()[j] == id);
            }
        }
        if s.last() == id {
            assert(s[s.len() - 1] == id);
        }
    }
}

/// A selected fixture is in the document.
pub proof fn lemma_selected_in_doc(v: DocView, id: FixtureId, sels: Seq<SelectorView>)
    ensures
        selected_count(v, id, sels) > 0 ==> v.fixtures.contains_key(id),
    decreases sels.len(),
{
    if sels.len() > 0 {
        lemma_selected_in_doc(v, id, sels.drop_last());
    }
}

impl Value {
    /// `other` holds the same: the same duration, level or color, or a query
    /// with the same text and selectors.
    pub open spec fn same(self, other: Value) -> bool {
        match (self, other) {
            (Value::Duration(a), Value::Duration(b)) => a == b,
            (Value::Dimmer(a), Value::Dimmer(b)) => a == b,
            (Value::Color(a), Value::Color(b)) => a == b,
            (Value::FixtureQuery(a), Value::FixtureQuery(b)) => a@ == b@,
            _ => false,
        }
    }

    /// A copy of this value.
    pub fn duplicate(&self) -> (r: Value)
        ensures
            r == *self,
    {
        match self {
            Value::Duration(d) => Value::Duration(*d),
            Value::Dimmer(d) => Value::Dimmer(*d),
            Value::Color(c) => Value::Color(*c),
            Value::FixtureQuery(q) => Value::FixtureQuery(q.duplicate()),
        }
    }
}

/// Where specs and templates are kept, for reading them in place.
pub trait EffectRegistry<Spec, Template> {
    fn with_spec<F, R>(&self, spec_id: EffectSpecId, f: F) -> R where F: FnOnce(&Spec) -> R;

    fn with_template<F, R>(&self, tmpl_id: EffectTemplateId, f: F) -> R where F: FnOnce(&Template) -> R;
}

} // verus!
