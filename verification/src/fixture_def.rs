use crate::fixture::MergeMode;
use crate::keyed::{KeyEq, KeyedVec};
use crate::universe::{DmxAddress, UniverseId};
use vstd::prelude::*;
use vstd::set_lib::{lemma_int_range, lemma_subset_equality, set_int_range};

verus! {

/// Identifier of a fixture definition: its manufacturer and model.
#[derive(Clone, Debug)]
pub struct FixtureDefId {
    manufacturer: String,
    model: String,
}

impl View for FixtureDefId {
    type V = (Seq<char>, Seq<char>);

    closed spec fn view(&self) -> (Seq<char>, Seq<char>) {
        (self.manufacturer@, self.model@)
    }
}

impl KeyEq for FixtureDefId {
    fn key_eq(&self, other: &Self) -> (r: bool) {
        self.manufacturer == other.manufacturer && self.model == other.model
    }
}

impl FixtureDefId {
    /// The id of the given manufacturer's model.
    pub fn new(manufacturer: String, model: String) -> (r: Self)
        ensures
            r@ == (manufacturer@, model@),
    {
        FixtureDefId { manufacturer, model }
    }

    /// An id that names no definition: empty manufacturer and model.
    pub fn new_invalid() -> (r: Self)
        ensures
            r@ == (Seq::<char>::empty(), Seq::<char>::empty()),
    {
        FixtureDefId { manufacturer: String::new(), model: String::new() }
    }

    /// The manufacturer.
    pub fn manufacturer(&self) -> (r: &String)
        ensures
            r@ == self@.0,
    {
        &self.manufacturer
    }

    /// The model.
    pub fn model(&self) -> (r: &String)
        ensures
            r@ == self@.1,
    {
        &self.model
    }

    /// A copy of this id.
    pub fn duplicate(&self) -> (r: Self)
        ensures
            r == *self,
            r@ == self@,
    {
        FixtureDefId { manufacturer: self.manufacturer.clone(), model: self.model.clone() }
    }
}

/// What a channel does.
#[derive(Clone, Copy, PartialEq, Eq, Structural, Debug)]
pub enum CapabilityKind {
    Intensity,
    Red,
    Green,
    Blue,
    White,
    Amber,
    UV,
    Custom,
}

/// The capability of a channel: one kind, or several over its value range.
#[derive(Clone, Debug)]
pub enum Capability {
    Single(CapabilityKind),
    Multiple(Vec<CapabilityKind>),
}

/// The template of a channel in a fixture definition.
#[derive(Clone, Debug)]
pub struct ChannelDef {
    merge_mode: MergeMode,
    capability: Capability,
}

impl ChannelDef {
    /// How values written to this channel are merged.
    pub closed spec fn merge_mode_spec(self) -> MergeMode {
        self.merge_mode
    }

    /// What this channel does.
    pub closed spec fn capability_spec(self) -> Capability {
        self.capability
    }

    /// A channel template.
    pub fn new(merge_mode: MergeMode, capability: Capability) -> (r: Self)
        ensures
            r.merge_mode_spec() == merge_mode,
            r.capability_spec() == capability,
    {
        ChannelDef { merge_mode, capability }
    }

    /// How values written to this channel are merged.
    pub fn merge_mode(&self) -> (r: MergeMode)
        ensures
            r == self.merge_mode_spec(),
    {
        self.merge_mode
    }

    /// What this channel does.
    pub fn capability(&self) -> (r: &Capability)
        ensures
            *r == self.capability_spec(),
    {
        &self.capability
    }

    /// `other` has the same merge mode and the same capability kinds.
    pub open spec fn same_as(self, other: ChannelDef) -> bool {
        &&& self.merge_mode_spec() == other.merge_mode_spec()
        &&& match (self.capability_spec(), other.capability_spec()) {
            (Capability::Single(a), Capability::Single(b)) => a == b,
            (Capability::Multiple(a), Capability::Multiple(b)) => a@ == b@,
            _ => false,
        }
    }

    /// A copy of this template.
    pub fn duplicate(&self) -> (r: Self)
        ensures
            r.same_as(*self),
    {
        let capability = match &self.capability {
            Capability::Single(k) => Capability::Single(*k),
            Capability::Multiple(ks) => {
                let mut out: Vec<CapabilityKind> = Vec::new();
                let mut i: usize = 0;
                while i < ks.len()
                    invariant
                        i <= ks@.len(),
                        out@ == ks@.take(i as int),
                    decreases ks@.len() - i,
                {
                    out.push(ks[i]);
                    assert(ks@.take(i + 1) =~= ks@.take(i as int).push(ks@[i as int]));
                    i = i + 1;
                }
                assert(ks@.take(ks@.len() as int) =~= ks@);
                Capability::Multiple(out)
            },
        };
        ChannelDef { merge_mode: self.merge_mode, capability }
    }

    /// This channel is exactly of the given kind.
    pub open spec fn is_single(self, kind: CapabilityKind) -> bool {
        self.capability_spec() matches Capability::Single(k) && k == kind
    }

    /// Whether this channel is exactly of the given kind.
    pub fn has_single(&self, kind: CapabilityKind) -> (r: bool)
        ensures
            r == self.is_single(kind),
    {
        match &self.capability {
            Capability::Single(k) => *k == kind,
            Capability::Multiple(_) => false,
        }
    }
}

/// The addresses that a footprint of `len` channels takes from `start` on,
/// cut at the end of the universe.
pub open spec fn occupied_spec(univ: UniverseId, start: DmxAddress, len: nat) -> Seq<
    (UniverseId, DmxAddress),
> {
    let n = if start.num() + len <= 513 {
        len
    } else if start.num() <= 513 {
        (513 - start.num()) as nat
    } else {
        0
    };
    Seq::new(n, |i: int| (univ, DmxAddress::of((start.num() + i) as nat)))
}

/// The offsets of `order` are pairwise distinct and all below its length.
pub open spec fn valid_order(order: Seq<(String, usize)>) -> bool {
    &&& forall|i: int| 0 <= i < order.len() ==> #[trigger] order[i].1 < order.len()
    &&& forall|i: int, j: int|
        0 <= i < order.len() && 0 <= j < order.len() && i != j ==> #[trigger] order[i].1
            != #[trigger] order[j].1
}

/// A mode of a fixture definition: the channels in DMX order.
#[derive(Clone, Debug)]
pub struct FixtureMode {
    channel_order: Vec<String>,
}

impl FixtureMode {
    /// The channel names, by offset.
    pub closed spec fn channels(self) -> Seq<String> {
        self.channel_order@
    }

    /// A mode from `(channel name, offset)` pairs; `None` unless the offsets
    /// are exactly `0..n` for `n` pairs.
    pub fn new(order: Vec<(String, usize)>) -> (r: Option<Self>)
        ensures
            r.is_some() == valid_order(order@),
            r.is_some() ==> r.unwrap().channels().len() == order@.len() && forall|i: int|
                0 <= i < order@.len() ==> r.unwrap().channels()[#[trigger] order@[i].1 as int]
                    == order@[i].0,
    {
        let n = order.len();
        let mut slots: Vec<Option<String>> = Vec::new();
        let mut k: usize = 0;
        while k < n
            invariant
                k <= n,
                slots@.len() == k,
                forall|j: int| 0 <= j < k ==> slots@[j].is_none(),
            decreases n - k,
        {
            slots.push(None);
            k = k + 1;
        }
        let mut i: usize = 0;
        while i < n
            invariant
                n == order@.len(),
                i <= n,
                slots@.len() == n,
                forall|a: int| 0 <= a < i ==> #[trigger] order@[a].1 < n,
                forall|a: int, b: int|
                    0 <= a < i && 0 <= b < i && a != b ==> #[trigger] order@[a].1
                        != #[trigger] order@[b].1,
                forall|a: int|
                    0 <= a < i ==> slots@[#[trigger] order@[a].1 as int] == Some(order@[a].0),
                forall|p: int|
                    0 <= p < n && slots@[p].is_some() ==> exists|a: int|
                        0 <= a < i && #[trigger] order@[a].1 == p,
            decreases n - i,
        {
            let off = order[i].1;
            if off >= n {
                return None;
            }
            if slots[off].is_some() {
                proof {
                    let a = choose|a: int| 0 <= a < i && #[trigger] order@[a].1 == off;
                    assert(order@[a].1 == order@[i as int].1);
                }
                return None;
            }
            let name = order[i].0.clone();
            slots.set(off, Some(name));
            i = i + 1;
        }
        proof {
            let offs = order@.map_values(|e: (String, usize)| e.1 as int);
            assert(offs.no_duplicates()) by {
                assert forall|a: int, b: int|
                    0 <= a < offs.len() && 0 <= b < offs.len() && a != b implies offs[a]
                    != offs[b] by {
                    assert(offs[a] == order@[a].1 && offs[b] == order@[b].1);
                }
            }
            offs.unique_seq_to_set();
            lemma_int_range(0, n as int);
            assert(offs.to_set().subset_of(set_int_range(0, n as int))) by {
                assert forall|p: int| offs.to_set().contains(p) implies set_int_range(
                    0,
                    n as int,
                ).contains(p) by {
                    let a = choose|a: int| 0 <= a < offs.len() && offs[a] == p;
                    assert(offs[a] == order@[a].1);
                }
            }
            offs.lemma_cardinality_of_set();
            lemma_subset_equality(offs.to_set(), set_int_range(0, n as int));
            assert forall|p: int| 0 <= p < n implies slots@[p].is_some() by {
                assert(set_int_range(0, n as int).contains(p));
                assert(offs.to_set().contains(p));
                let a = choose|a: int| 0 <= a < offs.len() && offs[a] == p;
                assert(offs[a] == order@[a].1);
            }
        }
        let mut channels: Vec<String> = Vec::new();
        let mut p: usize = 0;
        while p < n
            invariant
                n == order@.len(),
                p <= n,
                slots@.len() == n,
                channels@.len() == p,
                forall|q: int| 0 <= q < n ==> slots@[q].is_some(),
                forall|q: int| 0 <= q < p ==> Some(#[trigger] channels@[q]) == slots@[q],
            decreases n - p,
        {
            match &slots[p] {
                Some(s) => {
                    channels.push(s.clone());
                },
                None => {
                    return None;
                },
            }
            p = p + 1;
        }
        let r = FixtureMode { channel_order: channels };
        proof {
            assert forall|a: int| 0 <= a < order@.len() implies r.channels()[
                #[trigger] order@[a].1 as int
            ] == order@[a].0 by {
                let o = order@[a].1 as int;
                assert(slots@[o] == Some(order@[a].0));
                assert(Some(channels@[o]) == slots@[o]);
            }
        }
        Some(r)
    }

    /// The number of channels of the mode.
    pub fn footprint(&self) -> (r: usize)
        ensures
            r == self.channels().len(),
    {
        self.channel_order.len()
    }

    /// The offset of the first channel named `channel`.
    pub fn get_offset_by_channel(&self, channel: &String) -> (r: Option<usize>)
        ensures
            match r {
                Some(o) => o < self.channels().len() && self.channels()[o as int]@ == channel@
                    && forall|j: int| 0 <= j < o ==> #[trigger] self.channels()[j]@ != channel@,
                None => forall|j: int|
                    0 <= j < self.channels().len() ==> #[trigger] self.channels()[j]@
                        != channel@,
            },
    {
        let n = self.channel_order.len();
        let mut i: usize = 0;
        while i < n
            invariant
                n == self.channels().len(),
                i <= n,
                forall|j: int| 0 <= j < i ==> #[trigger] self.channels()[j]@ != channel@,
            decreases n - i,
        {
            if self.channel_order[i] == *channel {
                return Some(i);
            }
            i = i + 1;
        }
        None
    }

    /// The channel at `offset`.
    pub fn get_channel_by_offset(&self, offset: usize) -> (r: Option<&String>)
        ensures
            match r {
                Some(c) => offset < self.channels().len() && *c == self.channels()[offset as int],
                None => offset >= self.channels().len(),
            },
    {
        if offset < self.channel_order.len() {
            Some(&self.channel_order[offset])
        } else {
            None
        }
    }

    /// The addresses that this mode takes when patched at `start` of `univ`:
    /// one per channel, stopping at the end of the universe.
    pub fn occupied_addresses(&self, univ: UniverseId, start: DmxAddress) -> (r: Vec<
        (UniverseId, DmxAddress),
    >)
        ensures
            r@ == occupied_spec(univ, start, self.channels().len()),
    {
        let n = self.channel_order.len();
        let s = start.value();
        let mut v: Vec<(UniverseId, DmxAddress)> = Vec::new();
        let mut i: usize = 0;
        let ghost target = occupied_spec(univ, start, n as nat);
        while i < n && i <= 512 - s
            invariant
                n == self.channels().len(),
                1 <= s <= 512,
                s == start.num(),
                target == occupied_spec(univ, start, n as nat),
                i <= n,
                i <= 513 - s,
                v@.len() == i,
                forall|j: int| 0 <= j < i ==> v@[j] == #[trigger] target[j],
            decreases n - i,
        {
            match DmxAddress::new(s + i) {
                Some(a) => {
                    v.push((univ, a));
                },
                None => {
                    return v;
                },
            }
            i = i + 1;
        }
        assert(v@ =~= target);
        v
    }
}

/// A fixture definition: channel templates and the modes that order them.
#[derive(Debug)]
pub struct FixtureDef {
    id: FixtureDefId,
    channels: KeyedVec<String, ChannelDef>,
    modes: KeyedVec<String, FixtureMode>,
}

impl FixtureDef {
    /// The id of the definition.
    pub closed spec fn id_spec(self) -> FixtureDefId {
        self.id
    }

    /// The channel templates, by name.
    pub closed spec fn channel_map(self) -> Map<Seq<char>, ChannelDef> {
        self.channels@
    }

    /// The modes, by name.
    pub closed spec fn mode_map(self) -> Map<Seq<char>, FixtureMode> {
        self.modes@
    }

    /// The channel named `name` exists and is exactly of kind `kind`.
    pub open spec fn channel_is(self, name: Seq<char>, kind: CapabilityKind) -> bool {
        self.channel_map().contains_key(name) && self.channel_map()[name].is_single(kind)
    }

    /// The offset of the first channel of mode `mode` that is exactly of kind
    /// `kind`.
    #[verifier::opaque]
    pub open spec fn kind_offset(self, mode: Seq<char>, kind: CapabilityKind) -> Option<int> {
        if !self.mode_map().contains_key(mode) {
            None
        } else {
            let order = self.mode_map()[mode].channels();
            if exists|i: int| 0 <= i < order.len() && self.channel_is(#[trigger] order[i]@, kind) {
                Some(
                    choose|i: int|
                        0 <= i < order.len() && self.channel_is(#[trigger] order[i]@, kind) && forall|
                            j: int,
                        |
                            0 <= j < i ==> !self.channel_is(#[trigger] order[j]@, kind),
                )
            } else {
                None
            }
        }
    }

    /// The channel found for a kind is of that kind.
    #[verifier::spinoff_prover]
    pub proof fn lemma_kind_offset_is(self, mode: Seq<char>, k: CapabilityKind)
        requires
            self.kind_offset(mode, k) is Some,
        ensures
            self.mode_map().contains_key(mode),
            0 <= self.kind_offset(mode, k)->Some_0 < self.mode_map()[mode].channels().len(),
            self.channel_is(self.mode_map()[mode].channels()[self.kind_offset(mode, k)->Some_0]@, k),
    {
        reveal(FixtureDef::kind_offset);
        let order = self.mode_map()[mode].channels();
        let i0 = choose|i: int| 0 <= i < order.len() && self.channel_is(#[trigger] order[i]@, k);
        self.lemma_first_channel_of_kind(order, k, i0);
    }

    /// Where a channel of kind `k` occurs in `order`, a first one does.
    proof fn lemma_first_channel_of_kind(self, order: Seq<String>, k: CapabilityKind, i0: int)
        requires
            0 <= i0 < order.len(),
            self.channel_is(order[i0]@, k),
        ensures
            exists|i: int|
                0 <= i < order.len() && self.channel_is(#[trigger] order[i]@, k) && forall|j: int|
                    0 <= j < i ==> !self.channel_is(#[trigger] order[j]@, k),
        decreases i0,
    {
        if exists|j: int| 0 <= j < i0 && self.channel_is(#[trigger] order[j]@, k) {
            let j = choose|j: int| 0 <= j < i0 && self.channel_is(#[trigger] order[j]@, k);
            self.lemma_first_channel_of_kind(order, k, j);
        } else {
            assert(forall|j: int| 0 <= j < i0 ==> !self.channel_is(#[trigger] order[j]@, k));
        }
    }

    /// Channels found for two different kinds are different channels.
    #[verifier::spinoff_prover]
    pub proof fn lemma_kind_offsets_differ(self, mode: Seq<char>, k1: CapabilityKind, k2: CapabilityKind)
        requires
            k1 != k2,
            self.kind_offset(mode, k1) is Some,
            self.kind_offset(mode, k2) is Some,
        ensures
            self.kind_offset(mode, k1) != self.kind_offset(mode, k2),
    {
        self.lemma_kind_offset_is(mode, k1);
        self.lemma_kind_offset_is(mode, k2);
    }

    /// An empty definition of the given manufacturer's model.
    pub fn new(manufacturer: String, model: String) -> (r: Self)
        ensures
            r.id_spec()@ == (manufacturer@, model@),
            r.channel_map() == Map::<Seq<char>, ChannelDef>::empty(),
            r.mode_map() == Map::<Seq<char>, FixtureMode>::empty(),
    {
        FixtureDef {
            id: FixtureDefId::new(manufacturer, model),
            channels: KeyedVec::new(),
            modes: KeyedVec::new(),
        }
    }

    /// The id of the definition.
    pub fn id(&self) -> (r: &FixtureDefId)
        ensures
            *r == self.id_spec(),
    {
        &self.id
    }

    /// Adds or replaces a channel template.
    pub fn insert_channel(&mut self, name: String, channel: ChannelDef)
        ensures
            final(self).channel_map() == old(self).channel_map().insert(name@, channel),
            final(self).mode_map() == old(self).mode_map(),
            final(self).id_spec() == old(self).id_spec(),
    {
        let _ = self.channels.insert(name, channel);
    }

    /// Adds or replaces a mode.
    pub fn insert_mode(&mut self, name: String, mode: FixtureMode)
        ensures
            final(self).mode_map() == old(self).mode_map().insert(name@, mode),
            final(self).channel_map() == old(self).channel_map(),
            final(self).id_spec() == old(self).id_spec(),
    {
        let _ = self.modes.insert(name, mode);
    }

    /// The mode named `name`.
    pub fn mode(&self, name: &String) -> (r: Option<&FixtureMode>)
        ensures
            match r {
                Some(m) => self.mode_map().contains_key(name@) && *m == self.mode_map()[name@],
                None => !self.mode_map().contains_key(name@),
            },
    {
        self.modes.get(name)
    }

    /// The channel template named `name`.
    pub fn channel_template(&self, name: &String) -> (r: Option<&ChannelDef>)
        ensures
            match r {
                Some(c) => self.channel_map().contains_key(name@) && *c == self.channel_map()[name@],
                None => !self.channel_map().contains_key(name@),
            },
    {
        self.channels.get(name)
    }

    /// The offset, in mode `mode`, of its first channel exactly of kind `kind`.
    pub fn find_kind_in_mode(&self, mode: &String, kind: CapabilityKind) -> (r: Option<usize>)
        ensures
            match r {
                Some(o) => self.kind_offset(mode@, kind) == Some(o as int),
                None => self.kind_offset(mode@, kind).is_none(),
            },
    {
        let m = match self.modes.get(mode) {
            Some(m) => m,
            None => {
                proof {
                    reveal(FixtureDef::kind_offset);
                }
                return None;
            },
        };
        let ghost order = m.channels();
        let n = m.channel_order.len();
        let mut i: usize = 0;
        while i < n
            invariant
                order == m.channels(),
                n == order.len(),
                i <= n,
                self.mode_map().contains_key(mode@),
                *m == self.mode_map()[mode@],
                forall|j: int| 0 <= j < i ==> !self.channel_is(#[trigger] order[j]@, kind),
            decreases n - i,
        {
            let name = &m.channel_order[i];
            match self.channels.get(name) {
                Some(c) => {
                    if c.has_single(kind) {
                        proof {
                            assert(self.channel_is(order[i as int]@, kind));
                            reveal(FixtureDef::kind_offset);
                            let ord2 = self.mode_map()[mode@].channels();
                            assert(ord2 == order);
                            assert(self.channel_is(ord2[i as int]@, kind));
                            let k = self.kind_offset(mode@, kind);
                            assert(k.is_some());
                            let w = k.unwrap();
                            assert(0 <= w < order.len() && self.channel_is(order[w]@, kind));
                            if w < i {
                                assert(!self.channel_is(order[w]@, kind));
                            }
                            if w > i {
                                assert(!self.channel_is(order[i as int]@, kind));
                            }
                        }
                        return Some(i);
                    }
                },
                None => {},
            }
            i = i + 1;
        }
        proof {
            reveal(FixtureDef::kind_offset);
        }
        None
    }

    /// The offset of the dimmer (intensity) channel in mode `mode`.
    pub fn find_dimmer_channel_in_mode(&self, mode: &String) -> (r: Option<usize>)
        ensures
            match r {
                Some(o) => self.kind_offset(mode@, CapabilityKind::Intensity) == Some(o as int),
                None => self.kind_offset(mode@, CapabilityKind::Intensity).is_none(),
            },
    {
        self.find_kind_in_mode(mode, CapabilityKind::Intensity)
    }

    /// The offsets of the red, green and blue channels in mode `mode`, if it
    /// has all three.
    pub fn find_rgb_channel_in_mode(&self, mode: &String) -> (r: Option<[usize; 3]>)
        ensures
            match r {
                Some(a) => self.kind_offset(mode@, CapabilityKind::Red) == Some(a[0] as int)
                    && self.kind_offset(mode@, CapabilityKind::Green) == Some(a[1] as int)
                    && self.kind_offset(mode@, CapabilityKind::Blue) == Some(a[2] as int),
                None => self.kind_offset(mode@, CapabilityKind::Red).is_none() || self.kind_offset(
                    mode@,
                    CapabilityKind::Green,
                ).is_none() || self.kind_offset(mode@, CapabilityKind::Blue).is_none(),
            },
    {
        let r = match self.find_kind_in_mode(mode, CapabilityKind::Red) {
            Some(o) => o,
            None => {
                return None;
            },
        };
        let g = match self.find_kind_in_mode(mode, CapabilityKind::Green) {
            Some(o) => o,
            None => {
                return None;
            },
        };
        let b = match self.find_kind_in_mode(mode, CapabilityKind::Blue) {
            Some(o) => o,
            None => {
                return None;
            },
        };
        let a = [r, g, b];
        assert(a[0] == r && a[1] == g && a[2] == b);
        Some(a)
    }
}

/// Why a definition listed in the catalog could not be loaded.
#[derive(Clone, Debug)]
pub enum FixtureDefLoadError {
    /// The definition's file could not be read.
    FileNotFound(String),
    /// The file was not a valid definition document.
    JsonParseFailed(String),
    /// The document could not be turned into a [`FixtureDef`].
    FixtureDefConverseFailed(String),
}

impl FixtureDefLoadError {
    /// A copy of this error.
    pub fn duplicate(&self) -> (r: Self)
        ensures
            r == *self,
    {
        match self {
            FixtureDefLoadError::FileNotFound(m) => FixtureDefLoadError::FileNotFound(m.clone()),
            FixtureDefLoadError::JsonParseFailed(m) => FixtureDefLoadError::JsonParseFailed(m.clone()),
            FixtureDefLoadError::FixtureDefConverseFailed(m) => FixtureDefLoadError::FixtureDefConverseFailed(
                m.clone(),
            ),
        }
    }
}

/// Why a definition could not be looked up.
#[derive(Debug)]
pub enum FixtureDefLookupError {
    /// The catalog has no definition with this id.
    NotInCatalog(FixtureDefId),
    /// The catalog lists it, but loading it failed.
    LoadFailed(FixtureDefLoadError),
}

/// Manufacturer and model of a definition in the catalog.
#[derive(Debug)]
pub struct FixtureDefMetaData {
    pub id: FixtureDefId,
    pub manufacturer: String,
    pub model: String,
}

/// One definition of the catalog, loaded or not.
#[derive(Debug)]
pub struct FixtureDefCatalogItem {
    manufacturer: String,
    model: String,
    val: Result<FixtureDef, FixtureDefLoadError>,
}

/// The catalog of fixture definitions that a document resolves fixtures
/// against.
#[derive(Debug)]
pub struct FixtureDefRegistry {
    defs: KeyedVec<FixtureDefId, FixtureDefCatalogItem>,
}

/// The definition that a catalog view holds for `id`, where it loaded.
pub open spec fn lookup_def(
    catalog: Map<(Seq<char>, Seq<char>), Result<FixtureDef, FixtureDefLoadError>>,
    id: (Seq<char>, Seq<char>),
) -> Option<FixtureDef> {
    if catalog.contains_key(id) && catalog[id] is Ok {
        Some(catalog[id]->Ok_0)
    } else {
        None
    }
}

impl FixtureDefRegistry {
    /// The catalog: for each listed id, the loaded definition or why loading
    /// failed.
    pub closed spec fn catalog(self) -> Map<(Seq<char>, Seq<char>), Result<FixtureDef, FixtureDefLoadError>> {
        self.defs@.map_values(|item: FixtureDefCatalogItem| item.val)
    }

    /// The catalog entries in order: id, manufacturer, model.
    pub closed spec fn listing(self) -> Seq<(FixtureDefId, String, String)> {
        self.defs.entries().map_values(
            |e: (FixtureDefId, FixtureDefCatalogItem)| (e.0, e.1.manufacturer, e.1.model),
        )
    }

    /// An empty catalog.
    pub fn new() -> (r: Self)
        ensures
            r.catalog() == Map::<(Seq<char>, Seq<char>), Result<FixtureDef, FixtureDefLoadError>>::empty(),
            r.listing() == Seq::<(FixtureDefId, String, String)>::empty(),
    {
        let r = FixtureDefRegistry { defs: KeyedVec::new() };
        assert(r.catalog() =~= Map::<(Seq<char>, Seq<char>), Result<FixtureDef, FixtureDefLoadError>>::empty());
        assert(r.listing() =~= Seq::<(FixtureDefId, String, String)>::empty());
        r
    }

    /// Whether the catalog lists `id`.
    pub fn contains(&self, id: &FixtureDefId) -> (r: bool)
        ensures
            r == self.catalog().contains_key(id@),
    {
        self.defs.contains_key(id)
    }

    /// Adds or replaces a loaded definition, listed under `id` with the
    /// manufacturer and model that `id` names.
    pub fn insert(&mut self, id: FixtureDefId, def: FixtureDef)
        ensures
            final(self).catalog() == old(self).catalog().insert(id@, Ok(def)),
    {
        let item = FixtureDefCatalogItem {
            manufacturer: id.manufacturer.clone(),
            model: id.model.clone(),
            val: Ok(def),
        };
        let _ = self.defs.insert(id, item);
        assert(self.catalog() =~= old(self).catalog().insert(id@, Ok(def)));
    }

    /// Adds or replaces a catalog entry as it was loaded: the definition, or
    /// why loading it failed.
    pub fn insert_entry(
        &mut self,
        id: FixtureDefId,
        manufacturer: String,
        model: String,
        val: Result<FixtureDef, FixtureDefLoadError>,
    )
        ensures
            final(self).catalog() == old(self).catalog().insert(id@, val),
    {
        let ghost v = val;
        let item = FixtureDefCatalogItem { manufacturer, model, val };
        let _ = self.defs.insert(id, item);
        assert(self.catalog() =~= old(self).catalog().insert(id@, v));
    }

    /// The definition listed under `id`.
    pub fn get(&self, id: &FixtureDefId) -> (r: Result<&FixtureDef, FixtureDefLookupError>)
        ensures
            match r {
                Ok(d) => lookup_def(self.catalog(), id@) == Some(*d),
                Err(FixtureDefLookupError::NotInCatalog(e)) => !self.catalog().contains_key(id@)
                    && e == *id,
                Err(FixtureDefLookupError::LoadFailed(e)) => self.catalog().contains_key(id@)
                    && self.catalog()[id@] == Err::<FixtureDef, FixtureDefLoadError>(e),
            },
    {
        match self.defs.get(id) {
            Some(item) => match &item.val {
                Ok(d) => Ok(d),
                Err(e) => Err(FixtureDefLookupError::LoadFailed(e.duplicate())),
            },
            None => Err(FixtureDefLookupError::NotInCatalog(id.duplicate())),
        }
    }

    /// Id, manufacturer and model of every catalog entry, in catalog order.
    pub fn iter_metadata(&self) -> (r: Vec<FixtureDefMetaData>)
        ensures
            r@.len() == self.listing().len(),
            forall|i: int|
                0 <= i < r@.len() ==> #[trigger] r@[i].id == self.listing()[i].0
                    && r@[i].manufacturer == self.listing()[i].1 && r@[i].model
                    == self.listing()[i].2,
            forall|k: (Seq<char>, Seq<char>)|
                self.catalog().contains_key(k) <==> exists|i: int|
                    0 <= i < r@.len() && #[trigger] r@[i].id@ == k,
    {
        let n = self.defs.len();
        let mut out: Vec<FixtureDefMetaData> = Vec::new();
        let mut i: usize = 0;
        while i < n
            invariant
                n == self.defs.entries().len(),
                i <= n,
                out@.len() == i,
                forall|j: int|
                    0 <= j < i ==> #[trigger] out@[j].id == self.defs.entries()[j].0
                        && out@[j].manufacturer == self.defs.entries()[j].1.manufacturer
                        && out@[j].model == self.defs.entries()[j].1.model,
            decreases n - i,
        {
            let id = self.defs.key_at(i).duplicate();
            let item = self.defs.value_at(i);
            out.push(
                FixtureDefMetaData {
                    id,
                    manufacturer: item.manufacturer.clone(),
                    model: item.model.clone(),
                },
            );
            i = i + 1;
        }
        proof {
            assert forall|k: (Seq<char>, Seq<char>)|
                self.catalog().contains_key(k) implies exists|j: int|
                    0 <= j < out@.len() && #[trigger] out@[j].id@ == k by {
                let j = crate::keyed::seq_index_of(self.defs.entries(), k);
                assert(out@[j].id@ == k);
            }
            assert forall|k: (Seq<char>, Seq<char>)|
                (exists|j: int| 0 <= j < out@.len() && #[trigger] out@[j].id@ == k) implies self.catalog().contains_key(k) by {
                let j = choose|j: int| 0 <= j < out@.len() && #[trigger] out@[j].id@ == k;
                assert(self.defs.entries()[j].0@ == k);
            }
        }
        out
    }
}

/// A copy of `s`, made from a string literal.
fn owned(s: &str) -> (r: String)
    ensures
        r@ == s@,
{
    s.to_owned()
}

/// A four-channel definition (dimmer, red, green, blue, all HTP) with one
/// mode, `4 Channel`, that orders them so.
pub fn dummy_fixture_def() -> (r: FixtureDef)
    ensures
        r.mode_map().contains_key("4 Channel"@),
        r.mode_map()["4 Channel"@].channels().len() == 4,
        r.mode_map()["4 Channel"@].channels()[0]@ == "Dimmer"@,
        r.mode_map()["4 Channel"@].channels()[1]@ == "Red"@,
        r.mode_map()["4 Channel"@].channels()[2]@ == "Green"@,
        r.mode_map()["4 Channel"@].channels()[3]@ == "Blue"@,
        r.channel_is("Dimmer"@, CapabilityKind::Intensity),
        r.channel_is("Red"@, CapabilityKind::Red),
        r.channel_is("Green"@, CapabilityKind::Green),
        r.channel_is("Blue"@, CapabilityKind::Blue),
{
    let names: [&str; 4] = ["Dimmer", "Red", "Green", "Blue"];
    let kinds: [CapabilityKind; 4] = [
        CapabilityKind::Intensity,
        CapabilityKind::Red,
        CapabilityKind::Green,
        CapabilityKind::Blue,
    ];
    proof {
        reveal_strlit("Dimmer");
        reveal_strlit("Red");
        reveal_strlit("Green");
        reveal_strlit("Blue");
        assert(names@[0]@.len() == 6 && names@[1]@.len() == 3 && names@[2]@.len() == 5
            && names@[3]@.len() == 4);
    }
    build_def("Dummy Manufacturer", "Dummy Model", "4 Channel", &names, &kinds)
}

/// A definition of `model` by `manufacturer` whose only mode, `mode`, orders
/// the HTP channels `names` (of kinds `kinds`) as given.
fn build_def<const N: usize>(
    manufacturer: &str,
    model: &str,
    mode: &str,
    names: &[&str; N],
    kinds: &[CapabilityKind; N],
) -> (r: FixtureDef)
    requires
        forall|i: int, j: int| 0 <= i < N && 0 <= j < N && i != j ==> names@[i]@ != names@[j]@,
    ensures
        r.id_spec()@ == (manufacturer@, model@),
        r.mode_map().contains_key(mode@),
        r.mode_map()[mode@].channels().len() == N,
        forall|i: int| 0 <= i < N ==> (#[trigger] r.mode_map()[mode@].channels()[i])@ == names@[i]@,
        forall|i: int| 0 <= i < N ==> r.channel_is(#[trigger] names@[i]@, kinds@[i]),
        forall|i: int| 0 <= i < N ==> (#[trigger] r.channel_map()[names@[i]@]).merge_mode_spec() == MergeMode::HTP,
        forall|n: Seq<char>| #[trigger] r.channel_map().contains_key(n) <==> exists|i: int| 0 <= i < N && names@[i]@ == n,
        r.mode_map().dom() == set![mode@],
{
    let mut def = FixtureDef::new(owned(manufacturer), owned(model));
    let mut order: Vec<(String, usize)> = Vec::new();
    let mut i: usize = 0;
    while i < N
        invariant
            i <= N,
            order@.len() == i,
            def.id_spec()@ == (manufacturer@, model@),
            def.mode_map() == Map::<Seq<char>, FixtureMode>::empty(),
            forall|a: int, b: int| 0 <= a < N && 0 <= b < N && a != b ==> names@[a]@ != names@[b]@,
            forall|j: int| 0 <= j < i ==> #[trigger] order@[j].1 == j && order@[j].0@ == names@[j]@,
            forall|j: int| 0 <= j < i ==> def.channel_is(#[trigger] names@[j]@, kinds@[j]),
            forall|j: int| 0 <= j < i ==> (#[trigger] def.channel_map()[names@[j]@]).merge_mode_spec() == MergeMode::HTP,
            forall|n: Seq<char>| #[trigger] def.channel_map().contains_key(n) <==> exists|j: int| 0 <= j < i && names@[j]@ == n,
        decreases N - i,
    {
        let name = names[i];
        let ghost before = def.channel_map();
        def.insert_channel(owned(name), ChannelDef::new(MergeMode::HTP, Capability::Single(kinds[i])));
        proof {
            assert forall|j: int| 0 <= j <= i implies def.channel_is(#[trigger] names@[j]@, kinds@[j])
                && def.channel_map()[names@[j]@].merge_mode_spec() == MergeMode::HTP by {
                if j < i {
                    assert(names@[j]@ != names@[i as int]@);
                    assert(def.channel_map()[names@[j]@] == before[names@[j]@]);
                }
            }
            assert forall|n: Seq<char>| #[trigger] def.channel_map().contains_key(n) <==> exists|j: int|
                0 <= j < i + 1 && names@[j]@ == n by {
                if n == names@[i as int]@ {
                } else if before.contains_key(n) {
                    let j = choose|j: int| 0 <= j < i && names@[j]@ == n;
                }
            }
        }
        order.push((owned(name), i));
        i = i + 1;
    }
    assert(valid_order(order@));
    let m = match FixtureMode::new(order) {
        Some(m) => m,
        None => {
            return def;
        },
    };
    proof {
        assert forall|j: int| 0 <= j < N implies (#[trigger] m.channels()[j])@ == names@[j]@ by {
            assert(order@[j].1 == j);
        }
    }
    def.insert_mode(owned(mode), m);
    assert(def.mode_map().dom() =~= set![mode@]);
    def
}

/// A five-channel definition (dimmer, red, green, blue, white, all HTP) by
/// `Some Manufacturer`, with one mode, `5 Channel`, that orders them so.
pub fn make_fixture_def_2() -> (r: FixtureDef)
    ensures
        r.mode_map().contains_key("5 Channel"@),
        r.mode_map()["5 Channel"@].channels().len() == 5,
        r.mode_map().dom() == set!["5 Channel"@],
        r.id_spec()@ == ("Some Manufacturer"@, "Some Model"@),
        r.mode_map()["5 Channel"@].channels()[0]@ == "Dimmer"@,
        r.mode_map()["5 Channel"@].channels()[1]@ == "Red"@,
        r.mode_map()["5 Channel"@].channels()[2]@ == "Green"@,
        r.mode_map()["5 Channel"@].channels()[3]@ == "Blue"@,
        r.mode_map()["5 Channel"@].channels()[4]@ == "White"@,
        forall|n: Seq<char>| #[trigger] r.channel_map().contains_key(n) <==> (n == "Dimmer"@ || n == "Red"@
            || n == "Green"@ || n == "Blue"@ || n == "White"@),
        forall|n: Seq<char>| #[trigger] r.channel_map().contains_key(n) ==> r.channel_map()[n].merge_mode_spec()
            == MergeMode::HTP,
        r.channel_is("Dimmer"@, CapabilityKind::Intensity),
        r.channel_is("Red"@, CapabilityKind::Red),
        r.channel_is("Green"@, CapabilityKind::Green),
        r.channel_is("Blue"@, CapabilityKind::Blue),
        r.channel_is("White"@, CapabilityKind::White),
{
    let names: [&str; 5] = ["Dimmer", "Red", "Green", "Blue", "White"];
    let kinds: [CapabilityKind; 5] = [
        CapabilityKind::Intensity,
        CapabilityKind::Red,
        CapabilityKind::Green,
        CapabilityKind::Blue,
        CapabilityKind::White,
    ];
    proof {
        reveal_strlit("Dimmer");
        reveal_strlit("Red");
        reveal_strlit("Green");
        reveal_strlit("Blue");
        reveal_strlit("White");
        assert(names@[0]@.len() == 6 && names@[1]@.len() == 3 && names@[2]@.len() == 5
            && names@[3]@.len() == 4 && names@[4]@.len() == 5);
        assert(names@[2]@[0] != names@[4]@[0]);
    }
    let r = build_def("Some Manufacturer", "Some Model", "5 Channel", &names, &kinds);
    proof {
        assert(r.mode_map()["5 Channel"@].channels()[0]@ == names@[0]@);
        assert(r.mode_map()["5 Channel"@].channels()[1]@ == names@[1]@);
        assert(r.mode_map()["5 Channel"@].channels()[2]@ == names@[2]@);
        assert(r.mode_map()["5 Channel"@].channels()[3]@ == names@[3]@);
        assert(r.mode_map()["5 Channel"@].channels()[4]@ == names@[4]@);
        assert forall|n: Seq<char>| #[trigger] r.channel_map().contains_key(n) implies r.channel_map()[n].merge_mode_spec()
            == MergeMode::HTP by {
            let i = choose|i: int| 0 <= i < 5 && names@[i]@ == n;
            assert(r.channel_map()[names@[i]@].merge_mode_spec() == MergeMode::HTP);
        }
        assert forall|n: Seq<char>| #[trigger] r.channel_map().contains_key(n) <==> (n == "Dimmer"@ || n == "Red"@
            || n == "Green"@ || n == "Blue"@ || n == "White"@) by {
            if n == "Dimmer"@ { assert(names@[0]@ == n); }
            if n == "Red"@ { assert(names@[1]@ == n); }
            if n == "Green"@ { assert(names@[2]@ == n); }
            if n == "Blue"@ { assert(names@[3]@ == n); }
            if n == "White"@ { assert(names@[4]@ == n); }
        }
    }
    r
}

} // verus!
