//! What the editor's views show of a document: where each fixture lies in
//! the grid of a universe, the kind and name of effects, and fixture
//! positions.
use crate::doc::state::DocState;
use crate::app_state::AnyEffectId;
use crate::effects::{Effect, EffectBody, EffectSpec, EffectSpecBody, EffectTemplate, EffectTemplateBody};
use crate::fixture_def::lookup_def;
use crate::ids::FixtureId;
use crate::universe::{DmxAddress, UniverseId};
use vstd::prelude::*;

verus! {

/// One row's piece of a fixture in the grid of a universe.
#[derive(Debug)]
pub struct FixtureInfo {
    pub universe: UniverseId,
    pub row: usize,
    pub col: usize,
    pub length: usize,
    pub text: String,
}

/// The pieces, row by row, of `rem` channels from slot `pos` (counted from
/// 0) in a grid of `c` columns: each piece's row, column and length. Slot `p`
/// lies in row `p / c`, column `p % c`; address `a` is slot `a - 1`.
pub open spec fn segments(pos: int, rem: int, c: int) -> Seq<(int, int, int)>
    decreases rem,
{
    if c <= 0 || rem < 0 || pos < 0 {
        Seq::empty()
    } else {
        let col = pos % c;
        let len = if c - col < rem {
            c - col
        } else {
            rem
        };
        if len == rem {
            seq![(pos / c, col, len)]
        } else {
            seq![(pos / c, col, len)] + segments(pos + (c - col), rem - (c - col), c)
        }
    }
}

/// The sum of the lengths of `s`.
pub open spec fn total_length(s: Seq<(int, int, int)>) -> int
    decreases s.len(),
{
    if s.len() == 0 {
        0
    } else {
        total_length(s.drop_last()) + s.last().2
    }
}

proof fn lemma_total_length_prepend(x: (int, int, int), s: Seq<(int, int, int)>)
    ensures
        total_length(seq![x] + s) == x.2 + total_length(s),
    decreases s.len(),
{
    if s.len() > 0 {
        lemma_total_length_prepend(x, s.drop_last());
        assert((seq![x] + s).drop_last() =~= seq![x] + s.drop_last());
        assert((seq![x] + s).last() == s.last());
    } else {
        assert(seq![x] + s =~= seq![x]);
        assert(seq![x].drop_last() =~= Seq::<(int, int, int)>::empty());
        assert(seq![x].last() == x);
        assert(total_length(Seq::<(int, int, int)>::empty()) == 0);
        assert(total_length(seq![x]) == total_length(seq![x].drop_last()) + x.2);
    }
}

/// The pieces of a fixture cover its channels exactly, and each fits in
/// its row.
pub proof fn lemma_segments_cover(pos: int, rem: int, c: int)
    requires
        c > 0,
        rem >= 0,
        pos >= 0,
    ensures
        total_length(segments(pos, rem, c)) == rem,
        forall|i: int| #![trigger segments(pos, rem, c)[i]]
            0 <= i < segments(pos, rem, c).len() ==> 0 <= segments(pos, rem, c)[i].1 && segments(pos, rem, c)[i].1
                + segments(pos, rem, c)[i].2 <= c,
    decreases rem,
{
    let col = pos % c;
    let len = if c - col < rem {
        c - col
    } else {
        rem
    };
    let head = (pos / c, col, len);
    if len == rem {
        assert(segments(pos, rem, c) == seq![head]);
        assert(seq![head].drop_last() =~= Seq::<(int, int, int)>::empty());
        assert(seq![head].last() == head);
        assert(total_length(seq![head]) == total_length(seq![head].drop_last()) + head.2);
        assert(total_length(Seq::<(int, int, int)>::empty()) == 0);
    } else {
        let next = pos + (c - col);
        lemma_segments_cover(next, rem - (c - col), c);
        lemma_total_length_prepend(head, segments(next, rem - (c - col), c));
        let s = segments(pos, rem, c);
        let t = segments(next, rem - (c - col), c);
        assert(s =~= seq![head] + t);
        assert forall|i: int| #![trigger s[i]] 0 <= i < s.len() implies 0 <= s[i].1 && s[i].1 + s[i].2 <= c by {
            if i > 0 {
                assert(s[i] == t[i - 1]);
            }
        }
    }
}

/// The pieces of a fixture of `footprint` channels from `address` of
/// `universe` in a grid of `col_count` columns; the first piece carries the
/// fixture's name.
pub fn compute_fixture_info(universe: UniverseId, address: usize, footprint: usize, name: String, col_count: usize) -> (r:
    Vec<FixtureInfo>)
    requires
        col_count > 0,
        address >= 1,
        address + footprint <= usize::MAX,
    ensures
        r@.len() == segments(address - 1, footprint as int, col_count as int).len(),
        forall|i: int|
            0 <= i < r@.len() ==> {
                let s = segments(address - 1, footprint as int, col_count as int)[i];
                &&& (#[trigger] r@[i]).universe == universe
                &&& r@[i].row as int == s.0
                &&& r@[i].col as int == s.1
                &&& r@[i].length as int == s.2
                &&& r@[i].text@ == if i == 0 {
                    name@
                } else {
                    Seq::<char>::empty()
                }
            },
{
    let ghost all = segments(address - 1, footprint as int, col_count as int);
    let mut remaining_len = footprint;
    let mut infos: Vec<FixtureInfo> = Vec::new();
    loop
        invariant_except_break
            col_count > 0,
            address >= 1,
            address + footprint <= usize::MAX,
            remaining_len <= footprint,
            infos@.len() == 0 ==> remaining_len == footprint,
            all == segments(address - 1, footprint as int, col_count as int),
            all =~= infos@.map_values(
                |f: FixtureInfo| (f.row as int, f.col as int, f.length as int),
            ) + segments((address - 1 + footprint - remaining_len) as int, remaining_len as int, col_count as int),
            forall|i: int|
                0 <= i < infos@.len() ==> (#[trigger] infos@[i]).universe == universe && infos@[i].text@ == if i
                    == 0 {
                    name@
                } else {
                    Seq::<char>::empty()
                },
        ensures
            all =~= infos@.map_values(|f: FixtureInfo| (f.row as int, f.col as int, f.length as int)),
            forall|i: int|
                0 <= i < infos@.len() ==> (#[trigger] infos@[i]).universe == universe && infos@[i].text@ == if i
                    == 0 {
                    name@
                } else {
                    Seq::<char>::empty()
                },
        decreases remaining_len,
    {
        let pos = address - 1 + footprint - remaining_len;
        let row = pos / col_count;
        let col = pos % col_count;
        let length = if col_count - col < remaining_len {
            col_count - col
        } else {
            remaining_len
        };
        let text = if infos.len() == 0 {
            name.clone()
        } else {
            String::new()
        };
        let ghost before = infos@;
        let ghost rest = segments(pos as int, remaining_len as int, col_count as int);
        infos.push(FixtureInfo { universe, row, col, length, text });
        if length == remaining_len {
            proof {
                assert(rest =~= seq![(row as int, col as int, length as int)]);
                assert(infos@.map_values(|f: FixtureInfo| (f.row as int, f.col as int, f.length as int))
                    =~= before.map_values(|f: FixtureInfo| (f.row as int, f.col as int, f.length as int)) + rest);
            }
            break;
        } else {
            let next_rem = remaining_len - (col_count - col);
            proof {
                let next = (pos + (col_count - col)) as int;
                assert(rest =~= seq![(row as int, col as int, length as int)] + segments(
                    next,
                    next_rem as int,
                    col_count as int,
                ));
                assert(infos@.map_values(|f: FixtureInfo| (f.row as int, f.col as int, f.length as int))
                    =~= before.map_values(|f: FixtureInfo| (f.row as int, f.col as int, f.length as int))
                    + seq![(row as int, col as int, length as int)]);
            }
            remaining_len = next_rem;
        }
    }
    infos
}

/// What a tree view shows an effect, template or spec as.
#[derive(Clone, Copy, PartialEq, Eq, Structural, Debug)]
pub enum EffectKind {
    Simple,
    Sequence,
    Parallel,
    SimpleSpec,
    SequenceSpec,
    ParallelSpec,
    SimpleTemplate,
    SequenceTemplate,
    ParallelTemplate,
}

impl Effect {
    /// The kind of this effect's body.
    pub fn effect_kind(&self) -> (r: EffectKind)
        ensures
            r == match self.body_spec() {
                EffectBody::Simple(_) => EffectKind::Simple,
                EffectBody::Sequence(_) => EffectKind::Sequence,
                EffectBody::Parallel(_) => EffectKind::Parallel,
            },
    {
        match self.body() {
            EffectBody::Simple(_) => EffectKind::Simple,
            EffectBody::Sequence(_) => EffectKind::Sequence,
            EffectBody::Parallel(_) => EffectKind::Parallel,
        }
    }
}

impl EffectSpec {
    /// The kind of this spec's body.
    pub fn effect_kind(&self) -> (r: EffectKind)
        ensures
            r == match self.body_spec() {
                EffectSpecBody::Simple(_) => EffectKind::SimpleSpec,
                EffectSpecBody::Sequence(_) => EffectKind::SequenceSpec,
                EffectSpecBody::Parallel(_) => EffectKind::ParallelSpec,
            },
    {
        match self.body() {
            EffectSpecBody::Simple(_) => EffectKind::SimpleSpec,
            EffectSpecBody::Sequence(_) => EffectKind::SequenceSpec,
            EffectSpecBody::Parallel(_) => EffectKind::ParallelSpec,
        }
    }
}

impl EffectTemplate {
    /// The kind of this template's body.
    pub fn effect_kind(&self) -> (r: EffectKind)
        ensures
            r == match self.body_spec() {
                EffectTemplateBody::Simple(_) => EffectKind::SimpleTemplate,
                EffectTemplateBody::Sequence(_) => EffectKind::SequenceTemplate,
                EffectTemplateBody::Parallel(_) => EffectKind::ParallelTemplate,
            },
    {
        match self.body() {
            EffectTemplateBody::Simple(_) => EffectKind::SimpleTemplate,
            EffectTemplateBody::Sequence(_) => EffectKind::SequenceTemplate,
            EffectTemplateBody::Parallel(_) => EffectKind::ParallelTemplate,
        }
    }
}

impl DocState {
    /// The name of the stored effect, template or spec `id`.
    pub fn get_name(&self, id: AnyEffectId) -> (r: Option<String>)
        ensures
            match id {
                AnyEffectId::Effect(e) => match r {
                    Some(n) => self@.effects.contains_key(e) && n == self@.effects[e].name_spec(),
                    None => !self@.effects.contains_key(e),
                },
                AnyEffectId::Spec(s) => match r {
                    Some(n) => self@.effect_specs.contains_key(s) && n == self@.effect_specs[s].name_spec(),
                    None => !self@.effect_specs.contains_key(s),
                },
                AnyEffectId::Template(t) => match r {
                    Some(n) => self@.effect_templates.contains_key(t) && n
                        == self@.effect_templates[t].name_spec(),
                    None => !self@.effect_templates.contains_key(t),
                },
            },
    {
        match id {
            AnyEffectId::Effect(e) => match self.effect(&e) {
                Some(fx) => Some(fx.name().clone()),
                None => None,
            },
            AnyEffectId::Spec(s) => match self.effect_spec(&s) {
                Some(spec) => Some(spec.name().clone()),
                None => None,
            },
            AnyEffectId::Template(t) => match self.effect_template(&t) {
                Some(tmpl) => Some(tmpl.name().clone()),
                None => None,
            },
        }
    }

    /// The name of fixture `fxt_id`.
    pub fn get_fixture_name(&self, fxt_id: FixtureId) -> (r: Option<String>)
        ensures
            match r {
                Some(n) => self@.fixtures.contains_key(fxt_id) && n == self@.fixtures[fxt_id].name_spec(),
                None => !self@.fixtures.contains_key(fxt_id),
            },
    {
        match self.fixture(&fxt_id) {
            Some(f) => Some(f.name().clone()),
            None => None,
        }
    }

    /// The universe of fixture `fxt_id`.
    pub fn get_universe(&self, fxt_id: FixtureId) -> (r: Option<UniverseId>)
        ensures
            match r {
                Some(u) => self@.fixtures.contains_key(fxt_id) && u == self@.fixtures[fxt_id].universe_spec(),
                None => !self@.fixtures.contains_key(fxt_id),
            },
    {
        match self.fixture(&fxt_id) {
            Some(f) => Some(f.universe_id()),
            None => None,
        }
    }

    /// The start address of fixture `fxt_id`.
    pub fn get_address(&self, fxt_id: FixtureId) -> (r: Option<DmxAddress>)
        ensures
            match r {
                Some(a) => self@.fixtures.contains_key(fxt_id) && a == self@.fixtures[fxt_id].address_spec(),
                None => !self@.fixtures.contains_key(fxt_id),
            },
    {
        match self.fixture(&fxt_id) {
            Some(f) => Some(f.address()),
            None => None,
        }
    }

    /// The number of channels of the mode of fixture `fxt_id`.
    pub fn get_footprint(&self, fxt_id: FixtureId) -> (r: Option<usize>)
        requires
            self@.consistent(),
        ensures
            match r {
                Some(n) => {
                    let f = self@.fixtures[fxt_id];
                    &&& self@.fixtures.contains_key(fxt_id)
                    &&& n == lookup_def(self@.catalog, f.def_spec()@)->Some_0.mode_map()[f.mode_spec()@].channels().len()
                },
                None => !self@.fixtures.contains_key(fxt_id),
            },
    {
        let f = match self.fixture(&fxt_id) {
            Some(f) => f,
            None => {
                return None;
            },
        };
        let def = match self.fixture_defs().get(f.fixture_def()) {
            Ok(d) => d,
            Err(_) => vstd::pervasive::unreached(),
        };
        match def.mode(f.fixture_mode()) {
            Some(m) => Some(m.footprint()),
            None => vstd::pervasive::unreached(),
        }
    }

    /// The position of fixture `fxt_id` in the 2D view.
    pub fn get_position(&self, fxt_id: FixtureId) -> (r: Option<(u32, u32)>)
        ensures
            match r {
                Some(p) => self@.fixtures.contains_key(fxt_id) && p == (
                    self@.fixtures[fxt_id].x_spec(),
                    self@.fixtures[fxt_id].y_spec(),
                ),
                None => !self@.fixtures.contains_key(fxt_id),
            },
    {
        match self.fixture(&fxt_id) {
            Some(f) => Some(f.pos()),
            None => None,
        }
    }

    /// Every fixture with its position in the 2D view, each once.
    pub fn iter_fixtures_and_positions(&self) -> (r: Vec<(FixtureId, (u32, u32))>)
        ensures
            forall|i: int|
                0 <= i < r@.len() ==> self@.fixtures.contains_key((#[trigger] r@[i]).0) && r@[i].1 == (
                    self@.fixtures[r@[i].0].x_spec(),
                    self@.fixtures[r@[i].0].y_spec(),
                ),
            forall|id: FixtureId| #[trigger]
                self@.fixtures.contains_key(id) ==> exists|i: int| 0 <= i < r@.len() && r@[i].0 == id,
            forall|i: int, j: int| 0 <= i < j < r@.len() ==> r@[i].0 != r@[j].0,
    {
        let ids = self.fixture_ids();
        let n = ids.len();
        let mut out: Vec<(FixtureId, (u32, u32))> = Vec::new();
        let mut i: usize = 0;
        while i < n
            invariant
                n == ids@.len(),
                i <= n,
                out@.len() == i,
                forall|j: int| 0 <= j < ids@.len() ==> self@.fixtures.contains_key(#[trigger] ids@[j]),
                forall|j: int|
                    0 <= j < i ==> (#[trigger] out@[j]).0 == ids@[j] && out@[j].1 == (
                        self@.fixtures[ids@[j]].x_spec(),
                        self@.fixtures[ids@[j]].y_spec(),
                    ),
            decreases n - i,
        {
            let id = ids[i];
            let pos = match self.get_position(id) {
                Some(p) => p,
                None => vstd::pervasive::unreached(),
            };
            out.push((id, pos));
            i = i + 1;
        }
        proof {
            assert forall|id: FixtureId| #[trigger] self@.fixtures.contains_key(id) implies exists|i: int|
                0 <= i < out@.len() && out@[i].0 == id by {
                assert(ids@.contains(id));
                let j = choose|j: int| 0 <= j < ids@.len() && ids@[j] == id;
                assert(out@[j].0 == id);
            }
            assert forall|a: int, b: int| 0 <= a < b < out@.len() implies out@[a].0 != out@[b].0 by {
                assert(out@[a].0 == ids@[a]);
                assert(out@[b].0 == ids@[b]);
            }
        }
        out
    }
}

} // verus!
