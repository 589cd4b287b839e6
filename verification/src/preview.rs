//! What a preview shows of a DMX frame: for each fixture, the level of each
//! of its color channels.
use crate::doc::state::{DocState, DocView};
use crate::engine::{channels_complete, mode_channels};
use crate::fixture_def::{lookup_def, Capability, CapabilityKind};
use crate::ids::FixtureId;
use crate::keyed::KeyedVec;
use crate::plugins::DmxFrame;
use crate::universe::{DmxAddress, UniverseId};
use vstd::prelude::*;

verus! {

broadcast use DmxAddress::lemma_of_num;

/// The levels of the color channels of one fixture.
#[derive(Clone, Copy, PartialEq, Eq, Structural, Debug)]
pub struct ColorInfo {
    pub dimmer: u8,
    pub red: u8,
    pub green: u8,
    pub blue: u8,
    pub white: u8,
    pub amber: u8,
    pub uv: u8,
}

/// Every level 0.
pub open spec fn black() -> ColorInfo {
    ColorInfo { dimmer: 0, red: 0, green: 0, blue: 0, white: 0, amber: 0, uv: 0 }
}

impl ColorInfo {
    /// Every level 0.
    pub fn new() -> (r: Self)
        ensures
            r == black(),
    {
        ColorInfo { dimmer: 0, red: 0, green: 0, blue: 0, white: 0, amber: 0, uv: 0 }
    }
}

/// `c` with the level of `kind` set to `value`; other kinds change nothing.
pub open spec fn color_set(c: ColorInfo, kind: CapabilityKind, value: u8) -> ColorInfo {
    match kind {
        CapabilityKind::Intensity => ColorInfo { dimmer: value, ..c },
        CapabilityKind::Red => ColorInfo { red: value, ..c },
        CapabilityKind::Green => ColorInfo { green: value, ..c },
        CapabilityKind::Blue => ColorInfo { blue: value, ..c },
        CapabilityKind::White => ColorInfo { white: value, ..c },
        CapabilityKind::Amber => ColorInfo { amber: value, ..c },
        CapabilityKind::UV => ColorInfo { uv: value, ..c },
        CapabilityKind::Custom => c,
    }
}

/// Writing `value` to a channel of kind `kind` sets exactly the level of
/// that kind: the dimmer for an intensity channel, the red, green, blue,
/// white, amber or UV level for a channel of that color; every other level
/// keeps its value, and a custom channel changes nothing.
pub proof fn lemma_color_set_levels(c: ColorInfo, kind: CapabilityKind, value: u8)
    ensures
        color_set(c, kind, value).dimmer == if kind == CapabilityKind::Intensity { value } else { c.dimmer },
        color_set(c, kind, value).red == if kind == CapabilityKind::Red { value } else { c.red },
        color_set(c, kind, value).green == if kind == CapabilityKind::Green { value } else { c.green },
        color_set(c, kind, value).blue == if kind == CapabilityKind::Blue { value } else { c.blue },
        color_set(c, kind, value).white == if kind == CapabilityKind::White { value } else { c.white },
        color_set(c, kind, value).amber == if kind == CapabilityKind::Amber { value } else { c.amber },
        color_set(c, kind, value).uv == if kind == CapabilityKind::UV { value } else { c.uv },
{
}

/// The color of `f` in `m`, black where it has none yet.
pub open spec fn color_or_black(m: Map<FixtureId, ColorInfo>, f: FixtureId) -> ColorInfo {
    if m.contains_key(f) {
        m[f]
    } else {
        black()
    }
}

/// Sets the level of `kind` of fixture `fxt_id` in `map` to `value`,
/// starting from black for a fixture not in `map`.
pub fn set_color(fxt_id: FixtureId, map: &mut KeyedVec<FixtureId, ColorInfo>, kind: CapabilityKind, value: u8)
    ensures
        final(map)@ == old(map)@.insert(fxt_id, color_set(color_or_black(old(map)@, fxt_id), kind, value)),
{
    let mut color = match map.get(&fxt_id) {
        Some(c) => *c,
        None => ColorInfo::new(),
    };
    match kind {
        CapabilityKind::Intensity => color.dimmer = value,
        CapabilityKind::Red => color.red = value,
        CapabilityKind::Green => color.green = value,
        CapabilityKind::Blue => color.blue = value,
        CapabilityKind::White => color.white = value,
        CapabilityKind::Amber => color.amber = value,
        CapabilityKind::UV => color.uv = value,
        CapabilityKind::Custom => {},
    }
    let _ = map.insert(fxt_id, color);
}

/// The fixture at `a` of `univ` and the kind of its channel there, where a
/// fixture takes that slot with a channel of a single kind.
pub open spec fn slot_capability(v: DocView, univ: UniverseId, a: DmxAddress) -> Option<(FixtureId, CapabilityKind)> {
    if v.index.contains_key((univ, a)) {
        let (f, o) = v.index[(univ, a)];
        let fx = v.fixtures[f];
        let def = lookup_def(v.catalog, fx.def_spec()@)->Some_0;
        match def.channel_map()[mode_channels(v, f)[o as int]@].capability_spec() {
            Capability::Single(k) => Some((f, k)),
            Capability::Multiple(_) => None,
        }
    } else {
        None
    }
}

/// The colors that the first `n` slots of `frame` give the fixtures of
/// `univ`.
pub open spec fn colors_upto(v: DocView, univ: UniverseId, frame: Seq<u8>, n: nat) -> Map<FixtureId, ColorInfo>
    decreases n,
{
    if n == 0 {
        Map::empty()
    } else {
        let m = colors_upto(v, univ, frame, (n - 1) as nat);
        match slot_capability(v, univ, DmxAddress::of(n)) {
            Some((f, k)) => m.insert(f, color_set(color_or_black(m, f), k, frame[n - 1])),
            None => m,
        }
    }
}

impl DocState {
    /// The fixture that takes `address` of `univ` and the kind of its
    /// channel there; `None` where no fixture takes the slot, or where the
    /// channel has several kinds.
    pub fn resolve_channel_capability(&self, univ: UniverseId, address: DmxAddress, value: u8) -> (r:
        Option<(FixtureId, CapabilityKind)>)
        requires
            self@.consistent(),
            channels_complete(self@),
        ensures
            r == slot_capability(self@, univ, address),
    {
        let (fxt_id, offset) = match self.address_index().get(univ, address) {
            Some(e) => *e,
            None => {
                return None;
            },
        };
        let fxt = match self.fixture(&fxt_id) {
            Some(f) => f,
            None => vstd::pervasive::unreached(),
        };
        let def = match self.fixture_defs().get(fxt.fixture_def()) {
            Ok(d) => d,
            Err(_) => vstd::pervasive::unreached(),
        };
        let mode = match def.mode(fxt.fixture_mode()) {
            Some(m) => m,
            None => vstd::pervasive::unreached(),
        };
        assert(mode.channels() == mode_channels(self@, fxt_id));
        assert(crate::engine::fixture_channels_complete(self@, fxt_id));
        let channel_name = match mode.get_channel_by_offset(offset) {
            Some(c) => c,
            None => vstd::pervasive::unreached(),
        };
        let channel = match def.channel_template(channel_name) {
            Some(c) => c,
            None => vstd::pervasive::unreached(),
        };
        match channel.capability() {
            Capability::Single(kind) => Some((fxt_id, *kind)),
            Capability::Multiple(_) => None,
        }
    }

    /// The colors that `frame`, sent to `univ`, gives the fixtures there:
    /// each slot that a fixture takes with a channel of one kind sets that
    /// level of that fixture, from address 1 up.
    pub fn frame_colors(&self, univ: UniverseId, frame: &DmxFrame) -> (r: KeyedVec<FixtureId, ColorInfo>)
        requires
            self@.consistent(),
            channels_complete(self@),
        ensures
            r@ == colors_upto(self@, univ, frame@, 512),
    {
        let slots = frame.iter();
        let mut acc: KeyedVec<FixtureId, ColorInfo> = KeyedVec::new();
        let mut i: usize = 0;
        while i < 512
            invariant
                i <= 512,
                slots@.len() == 512,
                forall|j: int| 0 <= j < 512 ==> (#[trigger] slots@[j]).0.num() == j + 1 && slots@[j].1 == frame@[j],
                self@.consistent(),
                channels_complete(self@),
                acc@ == colors_upto(self@, univ, frame@, i as nat),
            decreases 512 - i,
        {
            let (adr, val) = slots[i];
            proof {
                assert(adr.num() == i + 1);
                crate::universe::DmxAddress::lemma_num_injective(adr, DmxAddress::of((i + 1) as nat));
            }
            match self.resolve_channel_capability(univ, adr, val) {
                Some((fxt_id, cap)) => set_color(fxt_id, &mut acc, cap, val),
                None => {},
            }
            i = i + 1;
        }
        acc
    }
}

} // verus!
