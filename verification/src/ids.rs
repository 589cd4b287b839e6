use crate::keyed::KeyEq;
use vstd::prelude::*;

verus! {

/// Bits that `uuid::Uuid::new_v4` fixes: the version nibble and the two
/// variant bits.
pub open spec fn v4_mask() -> u128 {
    0x0000_0000_0000_f000_c000_0000_0000_0000u128
}

/// The values of the bits under [`v4_mask`] in every version-4 UUID.
pub open spec fn v4_bits() -> u128 {
    0x0000_0000_0000_4000_8000_0000_0000_0000u128
}

/// Calls `uuid::Uuid::new_v4()` and returns the UUID as a big-endian 128-bit
/// integer (`as_u128`). The value is random; the crate sets its version
/// nibble to 4 and its variant bits to `10`, which is all this contract says.
#[verifier::external_body]
fn random_uuid() -> (r: u128)
    ensures
        r & v4_mask() == v4_bits(),
{
    uuid::Uuid::new_v4().as_u128()
}

/// What `uuid::Uuid::parse_str` makes of a string, as a 128-bit integer, or
/// `None` where it reports an error. The accepted formats (simple,
/// hyphenated, braced, URN) are the crate's and are not restated here.
pub uninterp spec fn uuid_parse(s: Seq<char>) -> Option<u128>;

/// Calls `uuid::Uuid::parse_str` and keeps the value as an integer; the
/// result is what [`uuid_parse`] names for the string.
#[verifier::external_body]
fn parse_uuid(s: &str) -> (r: Option<u128>)
    ensures
        r == uuid_parse(s@),
{
    match uuid::Uuid::parse_str(s) {
        Ok(u) => Some(u.as_u128()),
        Err(_) => None,
    }
}

/// The lowercase hexadecimal digit of `n`, for `0 <= n < 16`.
pub open spec fn hex_digit(n: int) -> char {
    if n < 10 {
        (48 + n) as char
    } else {
        (87 + n) as char
    }
}

/// The hyphenated text of the UUID `v`: its 32 lowercase hexadecimal
/// digits, most significant first, with a `-` after the 8th, 12th, 16th and
/// 20th.
pub open spec fn uuid_text(v: u128) -> Seq<char> {
    let d = Seq::new(32, |i: int| hex_digit((v as int / vstd::arithmetic::power::pow(16, (31 - i) as nat)) % 16));
    d.subrange(0, 8) + seq!['-'] + d.subrange(8, 12) + seq!['-'] + d.subrange(12, 16) + seq!['-'] + d.subrange(
        16,
        20,
    ) + seq!['-'] + d.subrange(20, 32)
}

/// Calls `uuid::Uuid::from_u128` and formats the UUID with `{:?}`, which the
/// crate writes as the hyphenated lowercase text [`uuid_text`].
#[verifier::external_body]
pub(crate) fn uuid_debug_text(v: u128) -> (r: String)
    ensures
        r@ == uuid_text(v),
{
    format!("{:?}", uuid::Uuid::from_u128(v))
}

/// A random 128-bit identifier of a fresh version-4 UUID; never the nil UUID.
pub fn fresh_uuid() -> (r: u128)
    ensures
        r & v4_mask() == v4_bits(),
        r != 0,
{
    let r = random_uuid();
    assert(r & v4_mask() == v4_bits() ==> r != 0) by (bit_vector);
    r
}

/// The UUID written in `s`, if `s` is one.
pub fn uuid_from_str(s: &str) -> (r: Option<u128>)
    ensures
        r == uuid_parse(s@),
{
    parse_uuid(s)
}

/// Identifier of a fixture.
#[derive(Clone, Copy, PartialEq, Eq, Structural, Hash, Debug)]
pub struct FixtureId(u128);

impl View for FixtureId {
    type V = FixtureId;

    open spec fn view(&self) -> FixtureId {
        *self
    }
}

impl KeyEq for FixtureId {
    fn key_eq(&self, other: &Self) -> (r: bool) {
        *self == *other
    }
}

impl FixtureId {
    /// Two ids are the same exactly when their UUIDs are.
    pub broadcast proof fn lemma_value_injective(a: Self, b: Self)
        ensures
            #[trigger] a.value() == #[trigger] b.value() <==> a == b,
    {
    }

    /// The UUID as a 128-bit integer.
    pub closed spec fn value(self) -> u128 {
        self.0
    }

    /// The id of a UUID value, in specifications.
    pub closed spec fn from_u128_spec(v: u128) -> Self {
        Self(v)
    }

    /// [`Self::from_u128_spec`] keeps the value.
    pub broadcast proof fn lemma_from_u128_spec(v: u128)
        ensures
            #[trigger] Self::from_u128_spec(v).value() == v,
    {
    }

    /// A fresh random id.
    pub fn new() -> (r: Self)
        ensures
            r.value() & v4_mask() == v4_bits(),
            r.value() != 0,
    {
        FixtureId(fresh_uuid())
    }

    /// The id of the given UUID value.
    pub fn from_u128(v: u128) -> (r: Self)
        ensures
            r.value() == v,
    {
        FixtureId(v)
    }

    /// The UUID value of this id.
    pub fn as_u128(&self) -> (r: u128)
        ensures
            r == self.value(),
    {
        self.0
    }

    /// Parses an id written as a UUID string.
    pub fn from_str(s: &str) -> (r: Option<Self>)
        ensures
            match uuid_parse(s@) {
                Some(v) => r == Some(Self::from_u128_spec(v)),
                None => r.is_none(),
            },
    {
        match uuid_from_str(s) {
            Some(v) => Some(FixtureId(v)),
            None => None,
        }
    }
}

impl Default for FixtureId {
    /// The nil id.
    fn default() -> (r: Self)
        ensures
            r.value() == 0,
    {
        FixtureId(0)
    }
}

/// Identifier of an effect spec.
#[derive(Clone, Copy, PartialEq, Eq, Structural, Hash, Debug)]
pub struct EffectSpecId(u128);

impl View for EffectSpecId {
    type V = EffectSpecId;

    open spec fn view(&self) -> EffectSpecId {
        *self
    }
}

impl KeyEq for EffectSpecId {
    fn key_eq(&self, other: &Self) -> (r: bool) {
        *self == *other
    }
}

impl EffectSpecId {
    /// Two ids are the same exactly when their UUIDs are.
    pub broadcast proof fn lemma_value_injective(a: Self, b: Self)
        ensures
            #[trigger] a.value() == #[trigger] b.value() <==> a == b,
    {
    }

    /// The UUID as a 128-bit integer.
    pub closed spec fn value(self) -> u128 {
        self.0
    }

    /// The id of a UUID value, in specifications.
    pub closed spec fn from_u128_spec(v: u128) -> Self {
        Self(v)
    }

    /// [`Self::from_u128_spec`] keeps the value.
    pub broadcast proof fn lemma_from_u128_spec(v: u128)
        ensures
            #[trigger] Self::from_u128_spec(v).value() == v,
    {
    }

    /// A fresh random id.
    pub fn new() -> (r: Self)
        ensures
            r.value() & v4_mask() == v4_bits(),
            r.value() != 0,
    {
        EffectSpecId(fresh_uuid())
    }

    /// The id of the given UUID value.
    pub fn from_u128(v: u128) -> (r: Self)
        ensures
            r.value() == v,
    {
        EffectSpecId(v)
    }

    /// The UUID value of this id.
    pub fn as_u128(&self) -> (r: u128)
        ensures
            r == self.value(),
    {
        self.0
    }

    /// Parses an id written as a UUID string.
    pub fn from_str(s: &str) -> (r: Option<Self>)
        ensures
            match uuid_parse(s@) {
                Some(v) => r == Some(Self::from_u128_spec(v)),
                None => r.is_none(),
            },
    {
        match uuid_from_str(s) {
            Some(v) => Some(EffectSpecId(v)),
            None => None,
        }
    }
}

impl Default for EffectSpecId {
    /// The nil id.
    fn default() -> (r: Self)
        ensures
            r.value() == 0,
    {
        EffectSpecId(0)
    }
}

/// Identifier of an effect template.
#[derive(Clone, Copy, PartialEq, Eq, Structural, Hash, Debug)]
pub struct EffectTemplateId(u128);

impl View for EffectTemplateId {
    type V = EffectTemplateId;

    open spec fn view(&self) -> EffectTemplateId {
        *self
    }
}

impl KeyEq for EffectTemplateId {
    fn key_eq(&self, other: &Self) -> (r: bool) {
        *self == *other
    }
}

impl EffectTemplateId {
    /// Two ids are the same exactly when their UUIDs are.
    pub broadcast proof fn lemma_value_injective(a: Self, b: Self)
        ensures
            #[trigger] a.value() == #[trigger] b.value() <==> a == b,
    {
    }

    /// The UUID as a 128-bit integer.
    pub closed spec fn value(self) -> u128 {
        self.0
    }

    /// The id of a UUID value, in specifications.
    pub closed spec fn from_u128_spec(v: u128) -> Self {
        Self(v)
    }

    /// [`Self::from_u128_spec`] keeps the value.
    pub broadcast proof fn lemma_from_u128_spec(v: u128)
        ensures
            #[trigger] Self::from_u128_spec(v).value() == v,
    {
    }

    /// A fresh random id.
    pub fn new() -> (r: Self)
        ensures
            r.value() & v4_mask() == v4_bits(),
            r.value() != 0,
    {
        EffectTemplateId(fresh_uuid())
    }

    /// The id of the given UUID value.
    pub fn from_u128(v: u128) -> (r: Self)
        ensures
            r.value() == v,
    {
        EffectTemplateId(v)
    }

    /// The UUID value of this id.
    pub fn as_u128(&self) -> (r: u128)
        ensures
            r == self.value(),
    {
        self.0
    }

    /// Parses an id written as a UUID string.
    pub fn from_str(s: &str) -> (r: Option<Self>)
        ensures
            match uuid_parse(s@) {
                Some(v) => r == Some(Self::from_u128_spec(v)),
                None => r.is_none(),
            },
    {
        match uuid_from_str(s) {
            Some(v) => Some(EffectTemplateId(v)),
            None => None,
        }
    }
}

impl Default for EffectTemplateId {
    /// The nil id.
    fn default() -> (r: Self)
        ensures
            r.value() == 0,
    {
        EffectTemplateId(0)
    }
}

/// Identifier of an effect.
#[derive(Clone, Copy, PartialEq, Eq, Structural, Hash, Debug)]
pub struct EffectId(u128);

impl View for EffectId {
    type V = EffectId;

    open spec fn view(&self) -> EffectId {
        *self
    }
}

impl KeyEq for EffectId {
    fn key_eq(&self, other: &Self) -> (r: bool) {
        *self == *other
    }
}

impl EffectId {
    /// Two ids are the same exactly when their UUIDs are.
    pub broadcast proof fn lemma_value_injective(a: Self, b: Self)
        ensures
            #[trigger] a.value() == #[trigger] b.value() <==> a == b,
    {
    }

    /// The UUID as a 128-bit integer.
    pub closed spec fn value(self) -> u128 {
        self.0
    }

    /// The id of a UUID value, in specifications.
    pub closed spec fn from_u128_spec(v: u128) -> Self {
        Self(v)
    }

    /// [`Self::from_u128_spec`] keeps the value.
    pub broadcast proof fn lemma_from_u128_spec(v: u128)
        ensures
            #[trigger] Self::from_u128_spec(v).value() == v,
    {
    }

    /// A fresh random id.
    pub fn new() -> (r: Self)
        ensures
            r.value() & v4_mask() == v4_bits(),
            r.value() != 0,
    {
        EffectId(fresh_uuid())
    }

    /// The id of the given UUID value.
    pub fn from_u128(v: u128) -> (r: Self)
        ensures
            r.value() == v,
    {
        EffectId(v)
    }

    /// The UUID value of this id.
    pub fn as_u128(&self) -> (r: u128)
        ensures
            r == self.value(),
    {
        self.0
    }

    /// Parses an id written as a UUID string.
    pub fn from_str(s: &str) -> (r: Option<Self>)
        ensures
            match uuid_parse(s@) {
                Some(v) => r == Some(Self::from_u128_spec(v)),
                None => r.is_none(),
            },
    {
        match uuid_from_str(s) {
            Some(v) => Some(EffectId(v)),
            None => None,
        }
    }
}

impl Default for EffectId {
    /// The nil id.
    fn default() -> (r: Self)
        ensures
            r.value() == 0,
    {
        EffectId(0)
    }
}

/// Identifier of an output plugin instance.
#[derive(Clone, Copy, PartialEq, Eq, Structural, Hash, Debug)]
pub struct OutputPluginId(u128);

impl View for OutputPluginId {
    type V = OutputPluginId;

    open spec fn view(&self) -> OutputPluginId {
        *self
    }
}

impl KeyEq for OutputPluginId {
    fn key_eq(&self, other: &Self) -> (r: bool) {
        *self == *other
    }
}

impl OutputPluginId {
    /// Two ids are the same exactly when their UUIDs are.
    pub broadcast proof fn lemma_value_injective(a: Self, b: Self)
        ensures
            #[trigger] a.value() == #[trigger] b.value() <==> a == b,
    {
    }

    /// The UUID as a 128-bit integer.
    pub closed spec fn value(self) -> u128 {
        self.0
    }

    /// The id of a UUID value, in specifications.
    pub closed spec fn from_u128_spec(v: u128) -> Self {
        Self(v)
    }

    /// [`Self::from_u128_spec`] keeps the value.
    pub broadcast proof fn lemma_from_u128_spec(v: u128)
        ensures
            #[trigger] Self::from_u128_spec(v).value() == v,
    {
    }

    /// A fresh random id.
    pub fn new() -> (r: Self)
        ensures
            r.value() & v4_mask() == v4_bits(),
            r.value() != 0,
    {
        OutputPluginId(fresh_uuid())
    }

    /// The id of the given UUID value.
    pub fn from_u128(v: u128) -> (r: Self)
        ensures
            r.value() == v,
    {
        OutputPluginId(v)
    }

    /// The UUID value of this id.
    pub fn as_u128(&self) -> (r: u128)
        ensures
            r == self.value(),
    {
        self.0
    }

    /// Parses an id written as a UUID string.
    pub fn from_str(s: &str) -> (r: Option<Self>)
        ensures
            match uuid_parse(s@) {
                Some(v) => r == Some(Self::from_u128_spec(v)),
                None => r.is_none(),
            },
    {
        match uuid_from_str(s) {
            Some(v) => Some(OutputPluginId(v)),
            None => None,
        }
    }
}

impl Default for OutputPluginId {
    /// The nil id.
    fn default() -> (r: Self)
        ensures
            r.value() == 0,
    {
        OutputPluginId(0)
    }
}

/// Identifier of a function prototype.
#[derive(Clone, Copy, PartialEq, Eq, Structural, Hash, Debug)]
pub struct FunctionPrototypeId(u128);

impl View for FunctionPrototypeId {
    type V = FunctionPrototypeId;

    open spec fn view(&self) -> FunctionPrototypeId {
        *self
    }
}

impl KeyEq for FunctionPrototypeId {
    fn key_eq(&self, other: &Self) -> (r: bool) {
        *self == *other
    }
}

impl FunctionPrototypeId {
    /// Two ids are the same exactly when their UUIDs are.
    pub broadcast proof fn lemma_value_injective(a: Self, b: Self)
        ensures
            #[trigger] a.value() == #[trigger] b.value() <==> a == b,
    {
    }

    /// The UUID as a 128-bit integer.
    pub closed spec fn value(self) -> u128 {
        self.0
    }

    /// The id of a UUID value, in specifications.
    pub closed spec fn from_u128_spec(v: u128) -> Self {
        Self(v)
    }

    /// [`Self::from_u128_spec`] keeps the value.
    pub broadcast proof fn lemma_from_u128_spec(v: u128)
        ensures
            #[trigger] Self::from_u128_spec(v).value() == v,
    {
    }

    /// A fresh random id.
    pub fn new() -> (r: Self)
        ensures
            r.value() & v4_mask() == v4_bits(),
            r.value() != 0,
    {
        FunctionPrototypeId(fresh_uuid())
    }

    /// The id of the given UUID value.
    pub fn from_u128(v: u128) -> (r: Self)
        ensures
            r.value() == v,
    {
        FunctionPrototypeId(v)
    }

    /// The UUID value of this id.
    pub fn as_u128(&self) -> (r: u128)
        ensures
            r == self.value(),
    {
        self.0
    }

    /// Parses an id written as a UUID string.
    pub fn from_str(s: &str) -> (r: Option<Self>)
        ensures
            match uuid_parse(s@) {
                Some(v) => r == Some(Self::from_u128_spec(v)),
                None => r.is_none(),
            },
    {
        match uuid_from_str(s) {
            Some(v) => Some(FunctionPrototypeId(v)),
            None => None,
        }
    }
}

impl Default for FunctionPrototypeId {
    /// The nil id.
    fn default() -> (r: Self)
        ensures
            r.value() == 0,
    {
        FunctionPrototypeId(0)
    }
}

/// Identifier of a function bound to fixtures.
#[derive(Clone, Copy, PartialEq, Eq, Structural, Hash, Debug)]
pub struct AppliedFunctionId(u128);

impl View for AppliedFunctionId {
    type V = AppliedFunctionId;

    open spec fn view(&self) -> AppliedFunctionId {
        *self
    }
}

impl KeyEq for AppliedFunctionId {
    fn key_eq(&self, other: &Self) -> (r: bool) {
        *self == *other
    }
}

impl AppliedFunctionId {
    /// Two ids are the same exactly when their UUIDs are.
    pub broadcast proof fn lemma_value_injective(a: Self, b: Self)
        ensures
            #[trigger] a.value() == #[trigger] b.value() <==> a == b,
    {
    }

    /// The UUID as a 128-bit integer.
    pub closed spec fn value(self) -> u128 {
        self.0
    }

    /// The id of a UUID value, in specifications.
    pub closed spec fn from_u128_spec(v: u128) -> Self {
        Self(v)
    }

    /// [`Self::from_u128_spec`] keeps the value.
    pub broadcast proof fn lemma_from_u128_spec(v: u128)
        ensures
            #[trigger] Self::from_u128_spec(v).value() == v,
    {
    }

    /// A fresh random id.
    pub fn new() -> (r: Self)
        ensures
            r.value() & v4_mask() == v4_bits(),
            r.value() != 0,
    {
        AppliedFunctionId(fresh_uuid())
    }

    /// The id of the given UUID value.
    pub fn from_u128(v: u128) -> (r: Self)
        ensures
            r.value() == v,
    {
        AppliedFunctionId(v)
    }

    /// The UUID value of this id.
    pub fn as_u128(&self) -> (r: u128)
        ensures
            r == self.value(),
    {
        self.0
    }

    /// Parses an id written as a UUID string.
    pub fn from_str(s: &str) -> (r: Option<Self>)
        ensures
            match uuid_parse(s@) {
                Some(v) => r == Some(Self::from_u128_spec(v)),
                None => r.is_none(),
            },
    {
        match uuid_from_str(s) {
            Some(v) => Some(AppliedFunctionId(v)),
            None => None,
        }
    }
}

impl Default for AppliedFunctionId {
    /// The nil id.
    fn default() -> (r: Self)
        ensures
            r.value() == 0,
    {
        AppliedFunctionId(0)
    }
}

} // verus!
