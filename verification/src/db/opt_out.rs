//! Users who opted out of highlighting.

use vstd::prelude::*;
use crate::ids::{fits_db, UserId};

verus! {

/// A row of the `opt_outs` table.
#[derive(Clone, Copy, Debug, PartialEq, Eq, Structural)]
pub struct Model {
    pub user_id: i64,
}

/// Relations of the `opt_outs` table to other tables: it has none, which
/// the single variant stands for.
#[derive(Clone, Copy, Debug, PartialEq, Eq, Structural)]
pub enum Relation {
    Unrelated,
}

/// An opt-out made by a user: their messages are no longer highlighted.
#[derive(Clone, Copy, Debug, PartialEq, Eq, Structural)]
pub struct OptOut {
    /// The user that opted out.
    pub user_id: UserId,
}

impl OptOut {
    /// Reads an opt-out from its row.
    pub fn from_model(model: Model) -> (r: OptOut)
        requires
            model.user_id >= 0,
        ensures
            r.user_id.0 == model.user_id,
    {
        OptOut { user_id: UserId::from_db(model.user_id) }
    }
}

impl Model {
    /// The row that stores an opt-out.
    pub fn from_opt_out(opt_out: OptOut) -> (r: Model)
        requires
            fits_db(opt_out.user_id.0),
        ensures
            r.user_id == opt_out.user_id.0,
    {
        Model { user_id: opt_out.user_id.into_db() }
    }
}

} // verus!
