//! Ignored phrases.

use vstd::prelude::*;
use crate::ids::{fits_db, GuildId, UserId};

verus! {

/// A row of the `guild_ignores` table.
#[derive(Clone, Debug)]
pub struct Model {
    pub phrase: String,
    pub user_id: i64,
    pub guild_id: i64,
}

/// Relations of the `guild_ignores` table to other tables: it has none,
/// which the single variant stands for.
#[derive(Clone, Copy, Debug, PartialEq, Eq, Structural)]
pub enum Relation {
    Unrelated,
}

/// A phrase a user ignores in a server: messages containing it are not
/// highlighted for them.
#[derive(Clone, Debug)]
pub struct Ignore {
    /// The phrase that should be ignored.
    pub phrase: String,
    /// The user that ignored this phrase.
    pub user_id: UserId,
    /// The server in which the user ignored the phrase.
    pub guild_id: GuildId,
}

pub open spec fn ignore_fits_db(i: Ignore) -> bool {
    fits_db(i.user_id.0) && fits_db(i.guild_id.0)
}

pub open spec fn model_valid(m: Model) -> bool {
    m.user_id >= 0 && m.guild_id >= 0
}

impl Ignore {
    /// Reads an ignored phrase from its row.
    pub fn from_model(model: Model) -> (r: Ignore)
        requires
            model_valid(model),
        ensures
            r.phrase@ == model.phrase@,
            r.user_id.0 == model.user_id,
            r.guild_id.0 == model.guild_id,
    {
        Ignore {
            phrase: model.phrase,
            user_id: UserId::from_db(model.user_id),
            guild_id: GuildId::from_db(model.guild_id),
        }
    }
}

impl Model {
    /// The row that stores an ignored phrase.
    pub fn from_ignore(ignore: Ignore) -> (r: Model)
        requires
            ignore_fits_db(ignore),
        ensures
            r.phrase@ == ignore.phrase@,
            r.user_id == ignore.user_id.0,
            r.guild_id == ignore.guild_id.0,
    {
        Model {
            phrase: ignore.phrase,
            user_id: ignore.user_id.into_db(),
            guild_id: ignore.guild_id.into_db(),
        }
    }
}

} // verus!
