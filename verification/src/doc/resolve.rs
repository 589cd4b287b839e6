//! Questions about a document: where a fixture channel sits, and how far a
//! universe is patched.
use super::errors::{FixtureNotFoundError, ResolveError};
use super::state::{occupancy, DocState, Slot};
use crate::fixture_def::{lookup_def, ChannelDef};
use crate::ids::FixtureId;
use crate::universe::{DmxAddress, UniverseId};
use vstd::prelude::*;

verus! {

/// Where a channel of a fixture sits, with its template.
#[derive(Debug)]
pub struct ResolvedAddress {
    pub channel_def: ChannelDef,
    pub universe: UniverseId,
    pub address: DmxAddress,
}

impl DocState {
    /// The slot and template of channel `channel` of fixture `fixture_id`:
    /// the first channel of that name in the fixture's mode.
    pub fn resolve_address(&self, fixture_id: FixtureId, channel: &String) -> (r: Result<
        ResolvedAddress,
        ResolveError,
    >)
        requires
            self@.consistent(),
            self@.fixtures.contains_key(fixture_id) ==> {
                let f = self@.fixtures[fixture_id];
                let def = lookup_def(self@.catalog, f.def_spec()@)->Some_0;
                let chans = def.mode_map()[f.mode_spec()@].channels();
                forall|i: int|
                    0 <= i < chans.len() && #[trigger] chans[i]@ == channel@ ==> def.channel_map().contains_key(
                        channel@,
                    ) && i < self@.occ(fixture_id).len()
            },
        ensures
            match r {
                Ok(ra) => {
                    let f = self@.fixtures[fixture_id];
                    let def = lookup_def(self@.catalog, f.def_spec()@)->Some_0;
                    let chans = def.mode_map()[f.mode_spec()@].channels();
                    &&& self@.fixtures.contains_key(fixture_id)
                    &&& exists|o: int|
                        0 <= o < chans.len() && #[trigger] chans[o]@ == channel@ && (forall|j: int|
                            0 <= j < o ==> #[trigger] chans[j]@ != channel@) && (ra.universe, ra.address)
                            == self@.occ(fixture_id)[o]
                    &&& ra.channel_def.same_as(def.channel_map()[channel@])
                },
                Err(ResolveError::FixtureNotFound(e)) => !self@.fixtures.contains_key(fixture_id) && e
                    == FixtureNotFoundError(fixture_id),
                Err(ResolveError::ChannelNotFound { fixture_def, mode, channel: c }) => {
                    let f = self@.fixtures[fixture_id];
                    let def = lookup_def(self@.catalog, f.def_spec()@)->Some_0;
                    let chans = def.mode_map()[f.mode_spec()@].channels();
                    &&& self@.fixtures.contains_key(fixture_id)
                    &&& forall|j: int| 0 <= j < chans.len() ==> #[trigger] chans[j]@ != channel@
                    &&& fixture_def == f.def_spec()
                    &&& mode == f.mode_spec()
                    &&& c == *channel
                },
                Err(ResolveError::ChannelWithOffsetNotFound { .. }) => false,
            },
    {
        let f = match self.fixture(&fixture_id) {
            Some(f) => f,
            None => {
                return Err(ResolveError::FixtureNotFound(FixtureNotFoundError(fixture_id)));
            },
        };
        let def = match self.fixture_defs().get(f.fixture_def()) {
            Ok(d) => d,
            Err(_) => vstd::pervasive::unreached(),
        };
        let mode = match def.mode(f.fixture_mode()) {
            Some(m) => m,
            None => vstd::pervasive::unreached(),
        };
        let offset = match mode.get_offset_by_channel(channel) {
            Some(o) => o,
            None => {
                return Err(
                    ResolveError::ChannelNotFound {
                        fixture_def: f.fixture_def().duplicate(),
                        mode: f.fixture_mode().clone(),
                        channel: channel.clone(),
                    },
                );
            },
        };
        let channel_def = match def.channel_template(channel) {
            Some(c) => c.duplicate(),
            None => vstd::pervasive::unreached(),
        };
        let slots = mode.occupied_addresses(f.universe_id(), f.address());
        let slot = slots[offset];
        Ok(ResolvedAddress { channel_def, universe: slot.0, address: slot.1 })
    }

    /// The slot and template of the channel at `offset` in the mode of
    /// fixture `fixture_id`. An offset past the channels of the mode, or past
    /// address 512, names no channel.
    pub fn resolve_address_with_offset(&self, fixture_id: FixtureId, offset: usize) -> (r: Result<
        ResolvedAddress,
        ResolveError,
    >)
        requires
            self@.consistent(),
            self@.fixtures.contains_key(fixture_id) ==> {
                let f = self@.fixtures[fixture_id];
                let def = lookup_def(self@.catalog, f.def_spec()@)->Some_0;
                let chans = def.mode_map()[f.mode_spec()@].channels();
                offset < chans.len() ==> def.channel_map().contains_key(chans[offset as int]@)
            },
        ensures
            match r {
                Ok(ra) => {
                    let f = self@.fixtures[fixture_id];
                    let def = lookup_def(self@.catalog, f.def_spec()@)->Some_0;
                    let chans = def.mode_map()[f.mode_spec()@].channels();
                    &&& self@.fixtures.contains_key(fixture_id)
                    &&& offset < self@.occ(fixture_id).len()
                    &&& (ra.universe, ra.address) == self@.occ(fixture_id)[offset as int]
                    &&& ra.channel_def.same_as(def.channel_map()[chans[offset as int]@])
                },
                Err(ResolveError::FixtureNotFound(e)) => !self@.fixtures.contains_key(fixture_id) && e
                    == FixtureNotFoundError(fixture_id),
                Err(ResolveError::ChannelWithOffsetNotFound { fixture_def, mode, offset: o }) => {
                    let f = self@.fixtures[fixture_id];
                    &&& self@.fixtures.contains_key(fixture_id)
                    &&& offset >= self@.occ(fixture_id).len()
                    &&& fixture_def == f.def_spec()
                    &&& mode == f.mode_spec()
                    &&& o == offset
                },
                Err(ResolveError::ChannelNotFound { .. }) => false,
            },
    {
        let f = match self.fixture(&fixture_id) {
            Some(f) => f,
            None => {
                return Err(ResolveError::FixtureNotFound(FixtureNotFoundError(fixture_id)));
            },
        };
        let def = match self.fixture_defs().get(f.fixture_def()) {
            Ok(d) => d,
            Err(_) => vstd::pervasive::unreached(),
        };
        let mode = match def.mode(f.fixture_mode()) {
            Some(m) => m,
            None => vstd::pervasive::unreached(),
        };
        let slots = mode.occupied_addresses(f.universe_id(), f.address());
        if offset >= slots.len() {
            return Err(
                ResolveError::ChannelWithOffsetNotFound {
                    fixture_def: f.fixture_def().duplicate(),
                    mode: f.fixture_mode().clone(),
                    offset,
                },
            );
        }
        let name = match mode.get_channel_by_offset(offset) {
            Some(n) => n,
            None => vstd::pervasive::unreached(),
        };
        let channel_def = match def.channel_template(name) {
            Some(c) => c.duplicate(),
            None => vstd::pervasive::unreached(),
        };
        let slot = slots[offset];
        Ok(ResolvedAddress { channel_def, universe: slot.0, address: slot.1 })
    }

    /// The highest address of `universe` that a fixture takes; `None` when no
    /// fixture is patched there.
    pub fn current_max_address(&self, universe: UniverseId) -> (r: Option<DmxAddress>)
        ensures
            match r {
                Some(a) => self@.index.contains_key((universe, a)) && forall|k: Slot|
                    #[trigger] self@.index.contains_key(k) && k.0 == universe ==> k.1.num() <= a.num(),
                None => forall|k: Slot| #[trigger] self@.index.contains_key(k) ==> k.0 != universe,
            },
    {
        let entries = self.address_index().iter();
        let n = entries.len();
        let mut best: Option<DmxAddress> = None;
        let mut i: usize = 0;
        while i < n
            invariant
                n == entries@.len(),
                i <= n,
                forall|j: int|
                    0 <= j < entries@.len() ==> self@.index.contains_key((#[trigger] entries@[j].0, entries@[j].1)),
                match best {
                    Some(a) => self@.index.contains_key((universe, a)) && forall|j: int|
                        0 <= j < i && #[trigger] entries@[j].0 == universe ==> entries@[j].1.num() <= a.num(),
                    None => forall|j: int| 0 <= j < i ==> #[trigger] entries@[j].0 != universe,
                },
            decreases n - i,
        {
            let (u, a, _, _) = entries[i];
            if u == universe {
                match best {
                    Some(b) => {
                        if a.value() > b.value() {
                            best = Some(a);
                        }
                    },
                    None => {
                        best = Some(a);
                    },
                }
            }
            i = i + 1;
        }
        proof {
            assert forall|k: Slot| #[trigger] self@.index.contains_key(k) && k.0 == universe implies (
            match best {
                Some(a) => k.1.num() <= a.num(),
                None => false,
            }) by {
                let j = choose|j: int| 0 <= j < entries@.len() && entries@[j].0 == k.0 && entries@[j].1 == k.1;
                assert(entries@[j].0 == universe);
            }
        }
        best
    }
}

} // verus!
