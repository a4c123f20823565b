//! Blocked users.

use vstd::prelude::*;
use crate::ids::{fits_db, UserId};

verus! {

/// A row of the `blocks` table.
#[derive(Clone, Copy, Debug, PartialEq, Eq, Structural)]
pub struct Model {
    pub user_id: i64,
    pub blocked_id: i64,
}

/// Relations of the `blocks` table to other tables: it has none, which
/// the single variant stands for.
#[derive(Clone, Copy, Debug, PartialEq, Eq, Structural)]
pub enum Relation {
    Unrelated,
}

/// A user blocked by another user.
#[derive(Clone, Copy, Debug, PartialEq, Eq, Structural)]
pub struct Block {
    /// The user who blocked them.
    pub user_id: UserId,
    /// The user who was blocked.
    pub blocked_id: UserId,
}

/// Both IDs of the block can be stored.
pub open spec fn block_fits_db(b: Block) -> bool {
    fits_db(b.user_id.0) && fits_db(b.blocked_id.0)
}

/// Both IDs of the row are non-negative.
pub open spec fn model_valid(m: Model) -> bool {
    m.user_id >= 0 && m.blocked_id >= 0
}

pub open spec fn spec_model_of(b: Block) -> Model {
    Model { user_id: b.user_id.0 as i64, blocked_id: b.blocked_id.0 as i64 }
}

pub open spec fn spec_block_of(m: Model) -> Block {
    Block { user_id: UserId(m.user_id as u64), blocked_id: UserId(m.blocked_id as u64) }
}

impl Block {
    /// Reads a block from its row.
    pub fn from_model(model: Model) -> (r: Block)
        requires
            model_valid(model),
        ensures
            r == spec_block_of(model),
    {
        Block { user_id: UserId::from_db(model.user_id), blocked_id: UserId::from_db(model.blocked_id) }
    }
}

impl Model {
    /// The row that stores a block.
    pub fn from_block(block: Block) -> (r: Model)
        requires
            block_fits_db(block),
        ensures
            r == spec_model_of(block),
    {
        Model { user_id: block.user_id.into_db(), blocked_id: block.blocked_id.into_db() }
    }
}

/// Storing a block and reading it back gives the same block.
pub proof fn lemma_block_round_trip(b: Block)
    requires
        block_fits_db(b),
    ensures
        model_valid(spec_model_of(b)),
        spec_block_of(spec_model_of(b)) == b,
{
}

} // verus!
