//! What the engine sends to output plugins: DMX frames of a universe.
use crate::universe::DmxAddress;
use vstd::prelude::*;

verus! {

/// The values of the 512 channels of a universe, address 1 first.
#[derive(Clone, Copy, Debug)]
pub struct DmxFrame {
    pub data: [u8; 512],
}

impl View for DmxFrame {
    type V = Seq<u8>;

    open spec fn view(&self) -> Seq<u8> {
        self.data@
    }
}

impl DmxFrame {
    /// Each address with its value, from address 1 to 512.
    pub fn iter(&self) -> (r: Vec<(DmxAddress, u8)>)
        ensures
            r@.len() == 512,
            forall|i: int| 0 <= i < 512 ==> (#[trigger] r@[i]).0.num() == i + 1 && r@[i].1 == self@[i],
    {
        let mut out: Vec<(DmxAddress, u8)> = Vec::new();
        let mut idx: usize = 0;
        while idx < 512
            invariant
                idx <= 512,
                out@.len() == idx,
                self.data@.len() == 512,
                forall|i: int| 0 <= i < idx ==> (#[trigger] out@[i]).0.num() == i + 1 && out@[i].1 == self@[i],
            decreases 512 - idx,
        {
            let adr = match DmxAddress::new(idx + 1) {
                Some(a) => a,
                None => vstd::pervasive::unreached(),
            };
            out.push((adr, self.data[idx]));
            idx = idx + 1;
        }
        out
    }

    /// The values by index: address `a` is at index `a - 1`.
    pub fn as_slice(&self) -> (r: &[u8; 512])
        ensures
            r@ == self@,
    {
        &self.data
    }

    /// A frame of zeros.
    pub fn zeros() -> (r: Self)
        ensures
            r@ == Seq::new(512, |i: int| 0u8),
    {
        let r = DmxFrame { data: [0u8; 512] };
        assert(r@ =~= Seq::new(512, |i: int| 0u8));
        r
    }

    /// The frame holding `value`.
    pub fn from_values(value: [u8; 512]) -> (r: Self)
        ensures
            r@ == value@,
    {
        DmxFrame { data: value }
    }
}

/// A message to a running output plugin.
#[derive(Clone, Copy, Debug)]
pub enum PluginMessage {
    DmxFrame(DmxFrame),
    Stop,
}

} // verus!
