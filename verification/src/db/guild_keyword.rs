//! Server-wide keywords.

use vstd::prelude::*;

verus! {

/// A row of the `guild_keywords` table.
#[derive(Clone, Debug)]
pub struct Model {
    pub keyword: String,
    pub user_id: i64,
    pub guild_id: i64,
}

/// Relations of the `guild_keywords` table to other tables: it has none,
/// which the single variant stands for.
#[derive(Clone, Copy, Debug, PartialEq, Eq, Structural)]
pub enum Relation {
    Unrelated,
}

} // verus!
