use crate::keyed::KeyEq;
use vstd::prelude::*;

verus! {

/// Number of channels in one DMX universe.
pub const UNIVERSE_SIZE: usize = 512;

/// Identifier of a DMX universe.
#[derive(Clone, Copy, PartialEq, Eq, Structural, Hash, Debug)]
pub struct UniverseId(u8);

impl View for UniverseId {
    type V = UniverseId;

    open spec fn view(&self) -> UniverseId {
        *self
    }
}

impl KeyEq for UniverseId {
    fn key_eq(&self, other: &Self) -> (r: bool) {
        *self == *other
    }
}

impl UniverseId {
    /// The first universe (number 0).
    pub fn first() -> (r: Self)
        ensures
            r.num() == 0,
    {
        UniverseId(0)
    }

    /// The number of the universe.
    pub closed spec fn num(self) -> u8 {
        self.0
    }

    /// Two universes are the same exactly when their numbers are.
    pub broadcast proof fn lemma_num_injective(a: Self, b: Self)
        ensures
            #[trigger] a.num() == #[trigger] b.num() <==> a == b,
    {
    }

    /// The universe with the given number, in specifications.
    pub closed spec fn of(n: u8) -> UniverseId {
        UniverseId(n)
    }

    /// [`UniverseId::of`] keeps the number.
    pub broadcast proof fn lemma_of_num(n: u8)
        ensures
            #[trigger] UniverseId::of(n).num() == n,
    {
    }

    /// The universe with the given number.
    pub fn new(value: u8) -> (r: Self)
        ensures
            r.num() == value,
            r == UniverseId::of(value),
    {
        UniverseId(value)
    }

    /// The number of the universe.
    pub fn value(&self) -> (r: u8)
        ensures
            r == self.num(),
    {
        self.0
    }

    /// The number of the universe, widened.
    pub fn as_usize(&self) -> (r: usize)
        ensures
            r == self.num(),
    {
        self.0 as usize
    }
}

/// A DMX channel address inside a universe, from 1 to 512.
#[derive(Clone, Copy, PartialEq, Eq, Structural, Hash, Debug)]
pub struct DmxAddress(u16);

impl View for DmxAddress {
    type V = DmxAddress;

    open spec fn view(&self) -> DmxAddress {
        *self
    }
}

impl KeyEq for DmxAddress {
    fn key_eq(&self, other: &Self) -> (r: bool) {
        *self == *other
    }
}

impl DmxAddress {
    /// The lowest address, 1.
    pub fn first() -> (r: Self)
        ensures
            r.num() == 1,
            r.valid(),
    {
        DmxAddress(1)
    }

    /// The highest address, 512.
    pub fn last() -> (r: Self)
        ensures
            r.num() == 512,
            r.valid(),
    {
        DmxAddress(512)
    }

    /// The address as a number.
    pub closed spec fn num(self) -> nat {
        self.0 as nat
    }

    /// An address is between 1 and 512.
    pub open spec fn valid(self) -> bool {
        1 <= self.num() <= 512
    }

    /// The address with the given number; spec counterpart of [`DmxAddress::new`].
    pub closed spec fn of(n: nat) -> DmxAddress {
        DmxAddress(n as u16)
    }

    /// Two addresses are the same exactly when their numbers are.
    pub broadcast proof fn lemma_num_injective(a: Self, b: Self)
        ensures
            #[trigger] a.num() == #[trigger] b.num() <==> a == b,
    {
    }

    /// [`DmxAddress::of`] keeps numbers that fit.
    pub broadcast proof fn lemma_of_num(n: nat)
        requires
            n < 0x10000,
        ensures
            #[trigger] DmxAddress::of(n).num() == n,
    {
    }

    /// The address with the given number, if it is between 1 and 512.
    pub fn new(value: usize) -> (r: Option<Self>)
        ensures
            (1 <= value <= 512) == r.is_some(),
            r.is_some() ==> r.unwrap().num() == value && r.unwrap().valid() && r.unwrap()
                == DmxAddress::of(value as nat),
    {
        if 1 <= value && value <= 512 {
            Some(DmxAddress(value as u16))
        } else {
            None
        }
    }

    #[verifier::type_invariant]
    closed spec fn inv(self) -> bool {
        1 <= self.0 <= 512
    }

    /// The address as a number; always between 1 and 512.
    pub fn value(&self) -> (r: usize)
        ensures
            r == self.num(),
            1 <= r <= 512,
            self.valid(),
    {
        proof {
            use_type_invariant(self);
        }
        self.0 as usize
    }
}

} // verus!
