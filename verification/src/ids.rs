//! UUIDs, as the 128 bits that they are.

use crate::competition::Uuid;
use crate::encoding::digit_of;
use vstd::arithmetic::power::pow;
use vstd::prelude::*;

verus! {

/// The `index`th of an id's 32 hexadecimal digits, the highest first.
pub open spec fn uuid_digit(id: Uuid, index: int) -> char {
    digit_of((id as int / pow(16, (31 - index) as nat)) % 16)
}

/// The text of an id: its digits, in groups of 8, 4, 4, 4 and 12 with hyphens between.
pub open spec fn uuid_chars(id: Uuid) -> Seq<char> {
    Seq::new(
        36,
        |i: int|
            if i == 8 || i == 13 || i == 18 || i == 23 {
                '-'
            } else if i < 8 {
                uuid_digit(id, i)
            } else if i < 13 {
                uuid_digit(id, i - 1)
            } else if i < 18 {
                uuid_digit(id, i - 2)
            } else if i < 23 {
                uuid_digit(id, i - 3)
            } else {
                uuid_digit(id, i - 4)
            },
    )
}

/// The text of an id, from the `Display` of `uuid::Uuid`, which writes it in lower case with
/// hyphens.
#[verifier::external_body]
pub(crate) fn uuid_to_string(id: Uuid) -> (text: String)
    ensures
        text@ == uuid_chars(id),
{
    uuid::Uuid::from_u128(id).to_string()
}

/// The bits of an id below its version.
pub const BELOW_VERSION: u128 = 75_557_863_725_914_323_419_136;

/// The version that an id says it is made by: its four bits above the lowest 76.
pub open spec fn version(id: Uuid) -> int {
    (id as int / (BELOW_VERSION as int)) % 16
}

/// The version that an id says it is made by. Those of version 7 begin with the time.
pub fn uuid_version(id: Uuid) -> (number: u8)
    ensures
        number == version(id),
{
    ((id / BELOW_VERSION) % 16) as u8
}

/// Where new ids are drawn from. It remembers the last one, and holds no other than it drew.
#[derive(Debug)]
pub struct IdSource {
    last: Option<Uuid>,
}

impl IdSource {
    /// The id that was drawn last, if one was.
    pub closed spec fn last(self) -> Option<Uuid> {
        self.last
    }

    /// A source that nothing was drawn from yet.
    pub(crate) fn new() -> (source: Self)
        ensures
            source.last() is None,
    {
        IdSource { last: None }
    }

    /// A new id that begins with the time, from `uuid::Uuid::now_v7`. Which one it is rests on the
    /// time and on chance. What is claimed of it is its version, and that it comes after the one
    /// that was drawn before: those that a process draws are ordered by when it draws them.
    #[verifier::external_body]
    pub(crate) fn draw(&mut self) -> (id: Uuid)
        ensures
            version(id) == 7,
            final(self).last() == Some(id),
            old(self).last() matches Some(earlier) ==> earlier < id,
    {
        let id = uuid::Uuid::now_v7().as_u128();
        self.last = Some(id);
        id
    }
}

} // verus!
