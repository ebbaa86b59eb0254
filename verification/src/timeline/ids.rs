//! Identifiers for clips, tracks and projects: random version-4 UUIDs held
//! as their 128-bit value.

use vstd::prelude::*;

verus! {

/// The lower-case hexadecimal digit of a value below sixteen.
pub open spec fn hex_digit(d: nat) -> char {
    if d < 10 {
        ((48 + d) as u8) as char
    } else {
        ((87 + d) as u8) as char
    }
}

/// The `count` lowest hexadecimal digits of `v`, most significant first.
pub open spec fn hex_digits(v: nat, count: nat) -> Seq<char>
    decreases count,
{
    if count == 0 {
        Seq::empty()
    } else {
        hex_digits(v / 16, (count - 1) as nat).push(hex_digit(v % 16))
    }
}

/// The hyphenated lower-case form of the UUID with this 128-bit value: its
/// 32 hexadecimal digits, most significant first, in groups of 8, 4, 4, 4
/// and 12 separated by `-`.
pub open spec fn uuid_text(value: u128) -> Seq<char> {
    let h = hex_digits(value as nat, 32);
    h.subrange(0, 8) + seq!['-'] + h.subrange(8, 12) + seq!['-'] + h.subrange(12, 16) + seq!['-'] + h.subrange(
        16,
        20,
    ) + seq!['-'] + h.subrange(20, 32)
}

/// Draws a fresh random version-4 UUID through `uuid::Uuid::new_v4` and
/// returns its 128-bit value. The value is random; what the contract claims
/// is only what the crate's source fixes: the version nibble is 4 and the
/// two variant bits are `10`.
#[verifier::external_body]
pub(crate) fn fresh_uuid() -> (value: u128)
    ensures
        (value >> 76u128) & 0xfu128 == 4,
        (value >> 62u128) & 0x3u128 == 2,
{
    uuid::Uuid::new_v4().as_u128()
}

/// Renders a UUID value through `uuid::Uuid::from_u128` and its `Display`,
/// which prints the hyphenated lower-case form ([`uuid_text`]).
#[verifier::external_body]
pub(crate) fn uuid_to_string(value: u128) -> (text: String)
    ensures
        text@ == uuid_text(value),
{
    uuid::Uuid::from_u128(value).to_string()
}

/// Identifier of a clip.
#[derive(Debug, Clone, Copy, PartialEq, Eq, Hash, Structural)]
pub struct ClipId(pub u128);

/// Identifier of a track.
#[derive(Debug, Clone, Copy, PartialEq, Eq, Hash, Structural)]
pub struct TrackId(pub u128);

/// Identifier of a project.
#[derive(Debug, Clone, Copy, PartialEq, Eq, Hash, Structural)]
pub struct ProjectId(pub u128);

impl ClipId {
    /// A fresh random identifier.
    pub fn new() -> (id: ClipId)
        ensures
            (id.0 >> 76u128) & 0xfu128 == 4,
    {
        ClipId(fresh_uuid())
    }

    /// The identifier's text, as the `uuid` crate prints it.
    pub fn to_text(&self) -> (text: String)
        ensures
            text@ == uuid_text(self.0),
    {
        uuid_to_string(self.0)
    }
}

impl TrackId {
    /// A fresh random identifier.
    pub fn new() -> (id: TrackId)
        ensures
            (id.0 >> 76u128) & 0xfu128 == 4,
    {
        TrackId(fresh_uuid())
    }

    /// The identifier's text, as the `uuid` crate prints it.
    pub fn to_text(&self) -> (text: String)
        ensures
            text@ == uuid_text(self.0),
    {
        uuid_to_string(self.0)
    }
}

impl ProjectId {
    /// A fresh random identifier.
    pub fn new() -> (id: ProjectId)
        ensures
            (id.0 >> 76u128) & 0xfu128 == 4,
    {
        ProjectId(fresh_uuid())
    }

    /// The identifier's text, as the `uuid` crate prints it.
    pub fn to_text(&self) -> (text: String)
        ensures
            text@ == uuid_text(self.0),
    {
        uuid_to_string(self.0)
    }
}

} // verus!
