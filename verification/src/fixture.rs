use crate::fixture_def::FixtureDefId;
use crate::ids::FixtureId;
use crate::keyed::KeyEq;
use crate::universe::{DmxAddress, UniverseId};
use vstd::prelude::*;

verus! {

/// How a value written to a channel is merged with the value already there.
#[derive(Clone, Copy, PartialEq, Eq, Structural, Debug)]
pub enum MergeMode {
    /// Highest takes precedence.
    HTP,
    /// Latest takes precedence.
    LTP,
}

/// A tag that fixtures can be selected by.
#[derive(Clone, Debug)]
pub struct FixtureTag(String);

impl View for FixtureTag {
    type V = Seq<char>;

    closed spec fn view(&self) -> Seq<char> {
        self.0@
    }
}

impl KeyEq for FixtureTag {
    fn key_eq(&self, other: &Self) -> (r: bool) {
        self.0 == other.0
    }
}

/// A tag may hold any character but the selector punctuation `.`, `#`, `,`.
pub open spec fn valid_tag(s: Seq<char>) -> bool {
    forall|i: int| 0 <= i < s.len() ==> #[trigger] s[i] != '.' && s[i] != '#' && s[i] != ','
}

impl FixtureTag {
    /// The tag written in `s`, if it is a valid tag.
    pub fn new(s: &str) -> (r: Option<Self>)
        ensures
            r.is_some() == valid_tag(s@),
            r.is_some() ==> r.unwrap()@ == s@,
    {
        let n = s.unicode_len();
        let mut i: usize = 0;
        while i < n
            invariant
                n == s@.len(),
                i <= n,
                forall|j: int| 0 <= j < i ==> #[trigger] s@[j] != '.' && s@[j] != '#' && s@[j] != ',',
            decreases n - i,
        {
            let c = s.get_char(i);
            if c == '.' || c == '#' || c == ',' {
                return None;
            }
            i = i + 1;
        }
        Some(FixtureTag(s.to_string()))
    }

    /// A copy of this tag.
    pub fn copy_of(&self) -> (r: Self)
        ensures
            r@ == self@,
    {
        FixtureTag(self.0.clone())
    }

    /// The tag text.
    pub fn as_str(&self) -> (r: &str)
        ensures
            r@ == self@,
    {
        self.0.as_str()
    }
}

/// A fixture patched into a universe.
///
/// Its position on the 2D plan is kept as the bit patterns of two `f32`
/// coordinates (`f32::to_bits`); this library only stores them.
#[derive(Clone, Debug)]
pub struct Fixture {
    id: FixtureId,
    name: String,
    universe_id: UniverseId,
    address: DmxAddress,
    fixture_def_id: FixtureDefId,
    fixture_mode: String,
    x: u32,
    y: u32,
    tags: Vec<FixtureTag>,
}

/// A change of one property of a fixture.
#[derive(Clone, Debug)]
pub enum FixtureChange {
    Rename(String),
    Universe(UniverseId),
    Address(DmxAddress),
    Mode(String),
    /// New coordinates, as `f32` bit patterns.
    Position(u32, u32),
}

impl Fixture {
    pub closed spec fn id_spec(self) -> FixtureId {
        self.id
    }

    pub closed spec fn name_spec(self) -> String {
        self.name
    }

    pub closed spec fn universe_spec(self) -> UniverseId {
        self.universe_id
    }

    pub closed spec fn address_spec(self) -> DmxAddress {
        self.address
    }

    pub closed spec fn def_spec(self) -> FixtureDefId {
        self.fixture_def_id
    }

    pub closed spec fn mode_spec(self) -> String {
        self.fixture_mode
    }

    pub closed spec fn x_spec(self) -> u32 {
        self.x
    }

    pub closed spec fn y_spec(self) -> u32 {
        self.y
    }

    pub closed spec fn tags_spec(self) -> Seq<FixtureTag> {
        self.tags@
    }

    /// The fixture after `change`.
    pub closed spec fn changed(self, change: FixtureChange) -> Fixture {
        match change {
            FixtureChange::Rename(name) => Fixture { name, ..self },
            FixtureChange::Universe(u) => Fixture { universe_id: u, ..self },
            FixtureChange::Address(a) => Fixture { address: a, ..self },
            FixtureChange::Mode(m) => Fixture { fixture_mode: m, ..self },
            FixtureChange::Position(x, y) => Fixture { x, y, ..self },
        }
    }

    /// The fixture `id` as stored, with its tags.
    pub fn from_parts(
        id: FixtureId,
        name: String,
        universe_id: UniverseId,
        address: DmxAddress,
        fixture_def_id: FixtureDefId,
        fixture_mode: String,
        x: u32,
        y: u32,
        tags: Vec<FixtureTag>,
    ) -> (r: Self)
        ensures
            r.id_spec() == id,
            r.name_spec() == name,
            r.universe_spec() == universe_id,
            r.address_spec() == address,
            r.def_spec() == fixture_def_id,
            r.mode_spec() == fixture_mode,
            r.x_spec() == x,
            r.y_spec() == y,
            r.tags_spec() == tags@,
    {
        Fixture { id, name, universe_id, address, fixture_def_id, fixture_mode, x, y, tags }
    }

    /// A new fixture with a fresh id and no tags.
    pub fn new(
        name: String,
        universe_id: UniverseId,
        address: DmxAddress,
        fixture_def_id: FixtureDefId,
        fixture_mode: String,
        x: u32,
        y: u32,
    ) -> (r: Self)
        ensures
            r.name_spec() == name,
            r.universe_spec() == universe_id,
            r.address_spec() == address,
            r.def_spec() == fixture_def_id,
            r.mode_spec() == fixture_mode,
            r.x_spec() == x,
            r.y_spec() == y,
            r.tags_spec() == Seq::<FixtureTag>::empty(),
            r.id_spec().value() != 0,
    {
        Fixture {
            id: FixtureId::new(),
            name,
            universe_id,
            address,
            fixture_def_id,
            fixture_mode,
            x,
            y,
            tags: Vec::new(),
        }
    }

    pub fn id(&self) -> (r: FixtureId)
        ensures
            r == self.id_spec(),
    {
        self.id
    }

    pub fn name(&self) -> (r: &String)
        ensures
            *r == self.name_spec(),
    {
        &self.name
    }

    pub fn universe_id(&self) -> (r: UniverseId)
        ensures
            r == self.universe_spec(),
    {
        self.universe_id
    }

    pub fn address(&self) -> (r: DmxAddress)
        ensures
            r == self.address_spec(),
    {
        self.address
    }

    pub fn fixture_def(&self) -> (r: &FixtureDefId)
        ensures
            *r == self.def_spec(),
    {
        &self.fixture_def_id
    }

    pub fn fixture_mode(&self) -> (r: &String)
        ensures
            *r == self.mode_spec(),
    {
        &self.fixture_mode
    }

    /// The bit pattern of the x coordinate.
    pub fn x(&self) -> (r: u32)
        ensures
            r == self.x_spec(),
    {
        self.x
    }

    /// The bit pattern of the y coordinate.
    pub fn y(&self) -> (r: u32)
        ensures
            r == self.y_spec(),
    {
        self.y
    }

    /// The bit patterns of both coordinates.
    pub fn pos(&self) -> (r: (u32, u32))
        ensures
            r == (self.x_spec(), self.y_spec()),
    {
        (self.x, self.y)
    }

    pub fn tags(&self) -> (r: &Vec<FixtureTag>)
        ensures
            r@ == self.tags_spec(),
    {
        &self.tags
    }

    /// Applies `change` to this fixture.
    pub fn apply_change(&mut self, change: FixtureChange)
        ensures
            *final(self) == old(self).changed(change),
            final(self).id_spec() == old(self).id_spec(),
            final(self).def_spec() == old(self).def_spec(),
            change matches FixtureChange::Mode(m) ==> final(self).mode_spec() == m,
            !(change is Mode) ==> final(self).mode_spec() == old(self).mode_spec(),
            change matches FixtureChange::Universe(u) ==> final(self).universe_spec() == u,
            !(change is Universe) ==> final(self).universe_spec() == old(self).universe_spec(),
            change matches FixtureChange::Address(a) ==> final(self).address_spec() == a,
            !(change is Address) ==> final(self).address_spec() == old(self).address_spec(),
            change matches FixtureChange::Rename(n) ==> final(self).name_spec() == n,
    {
        match change {
            FixtureChange::Rename(name) => self.name = name,
            FixtureChange::Universe(uni) => self.universe_id = uni,
            FixtureChange::Address(adr) => self.address = adr,
            FixtureChange::Mode(mode) => self.fixture_mode = mode,
            FixtureChange::Position(x, y) => {
                self.x = x;
                self.y = y;
            },
        }
    }
}

impl FixtureChange {
    /// The change that puts back, on `fixture`, the property this change sets.
    pub closed spec fn inverse_spec(self, fixture: Fixture) -> FixtureChange {
        match self {
            FixtureChange::Rename(_) => FixtureChange::Rename(fixture.name),
            FixtureChange::Universe(_) => FixtureChange::Universe(fixture.universe_id),
            FixtureChange::Address(_) => FixtureChange::Address(fixture.address),
            FixtureChange::Mode(_) => FixtureChange::Mode(fixture.fixture_mode),
            FixtureChange::Position(_, _) => FixtureChange::Position(fixture.x, fixture.y),
        }
    }

    /// Builds the inverse operation: the change that gives back to `fixture`
    /// the property that this change sets.
    pub fn inverse_from(&self, fixture: &Fixture) -> (r: FixtureChange)
        ensures
            r == self.inverse_spec(*fixture),
    {
        match self {
            FixtureChange::Rename(_) => FixtureChange::Rename(fixture.name.clone()),
            FixtureChange::Universe(_) => FixtureChange::Universe(fixture.universe_id),
            FixtureChange::Address(_) => FixtureChange::Address(fixture.address),
            FixtureChange::Mode(_) => FixtureChange::Mode(fixture.fixture_mode.clone()),
            FixtureChange::Position(_, _) => FixtureChange::Position(fixture.x, fixture.y),
        }
    }
}

/// A change followed by its inverse gives the fixture back, and the inverse of
/// the inverse is the change itself.
pub proof fn lemma_change_inverse_roundtrip(f: Fixture, c: FixtureChange)
    ensures
        f.changed(c).changed(c.inverse_spec(f)) == f,
        c.inverse_spec(f).inverse_spec(f.changed(c)) == c,
        c.inverse_spec(f) is Rename == c is Rename,
        c.inverse_spec(f) is Universe == c is Universe,
        c.inverse_spec(f) is Address == c is Address,
        c.inverse_spec(f) is Mode == c is Mode,
        c.inverse_spec(f) is Position == c is Position,
        f.changed(c).id_spec() == f.id_spec(),
        f.changed(c).def_spec() == f.def_spec(),
{
}

/// What a change sets, and what it keeps.
pub proof fn lemma_changed(f: Fixture, c: FixtureChange)
    ensures
        f.changed(c).id_spec() == f.id_spec(),
        f.changed(c).def_spec() == f.def_spec(),
        f.changed(c).tags_spec() == f.tags_spec(),
        c matches FixtureChange::Rename(n) ==> f.changed(c).name_spec() == n,
        !(c is Rename) ==> f.changed(c).name_spec() == f.name_spec(),
        c matches FixtureChange::Universe(u) ==> f.changed(c).universe_spec() == u,
        !(c is Universe) ==> f.changed(c).universe_spec() == f.universe_spec(),
        c matches FixtureChange::Address(a) ==> f.changed(c).address_spec() == a,
        !(c is Address) ==> f.changed(c).address_spec() == f.address_spec(),
        c matches FixtureChange::Mode(m) ==> f.changed(c).mode_spec() == m,
        !(c is Mode) ==> f.changed(c).mode_spec() == f.mode_spec(),
        c matches FixtureChange::Position(x, y) ==> f.changed(c).x_spec() == x
            && f.changed(c).y_spec() == y,
        !(c is Position) ==> f.changed(c).x_spec() == f.x_spec() && f.changed(c).y_spec()
            == f.y_spec(),
{
}

} // verus!
