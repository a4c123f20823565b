//! Discord snowflake identifiers.

use vstd::prelude::*;

verus! {

/// The ID of a Discord user.
#[derive(Clone, Copy, Debug, PartialEq, Eq, Hash, Structural)]
pub struct UserId(pub u64);

/// The ID of a Discord channel.
#[derive(Clone, Copy, Debug, PartialEq, Eq, Hash, Structural)]
pub struct ChannelId(pub u64);

/// The ID of a Discord server (guild).
#[derive(Clone, Copy, Debug, PartialEq, Eq, Hash, Structural)]
pub struct GuildId(pub u64);

/// The ID of a Discord message.
#[derive(Clone, Copy, Debug, PartialEq, Eq, Hash, Structural)]
pub struct MessageId(pub u64);

/// An ID that fits in the database's signed 64-bit integer column.
pub open spec fn fits_db(id: u64) -> bool {
    id <= i64::MAX
}

/// Converts an ID to its stored form. IDs above `i64::MAX` cannot be stored.
pub fn id_into_db(id: u64) -> (r: i64)
    requires
        fits_db(id),
    ensures
        r == id,
{
    id as i64
}

/// Converts a stored ID back. Negative values are not IDs.
pub fn id_from_db(x: i64) -> (r: u64)
    requires
        x >= 0,
    ensures
        r == x,
{
    x as u64
}

impl UserId {
    pub fn into_db(self) -> (r: i64)
        requires
            fits_db(self.0),
        ensures
            r == self.0,
    {
        id_into_db(self.0)
    }

    pub fn from_db(x: i64) -> (r: Self)
        requires
            x >= 0,
        ensures
            r.0 == x,
    {
        UserId(id_from_db(x))
    }
}

impl ChannelId {
    pub fn into_db(self) -> (r: i64)
        requires
            fits_db(self.0),
        ensures
            r == self.0,
    {
        id_into_db(self.0)
    }

    pub fn from_db(x: i64) -> (r: Self)
        requires
            x >= 0,
        ensures
            r.0 == x,
    {
        ChannelId(id_from_db(x))
    }
}

impl GuildId {
    pub fn into_db(self) -> (r: i64)
        requires
            fits_db(self.0),
        ensures
            r == self.0,
    {
        id_into_db(self.0)
    }

    pub fn from_db(x: i64) -> (r: Self)
        requires
            x >= 0,
        ensures
            r.0 == x,
    {
        GuildId(id_from_db(x))
    }
}

impl MessageId {
    pub fn into_db(self) -> (r: i64)
        requires
            fits_db(self.0),
        ensures
            r == self.0,
    {
        id_into_db(self.0)
    }

    pub fn from_db(x: i64) -> (r: Self)
        requires
            x >= 0,
        ensures
            r.0 == x,
    {
        MessageId(id_from_db(x))
    }
}

} // verus!
