//! Per-user state: whether the last notification DM could be delivered.

use vstd::prelude::*;
use crate::ids::{fits_db, UserId};

verus! {

/// A row of the `user_states` table.
#[derive(Clone, Copy, Debug, PartialEq, Eq, Structural)]
pub struct Model {
    pub user_id: i64,
    pub state: u8,
}

/// Relations of the `user_states` table to other tables: it has none,
/// which the single variant stands for.
#[derive(Clone, Copy, Debug, PartialEq, Eq, Structural)]
pub enum Relation {
    Unrelated,
}

/// What is recorded about a user.
#[derive(Clone, Copy, Debug, PartialEq, Eq, Structural)]
pub enum UserStateKind {
    /// The last DM sent to notify this user failed.
    CannotDm,
}

/// The recorded state of a user.
#[derive(Clone, Copy, Debug, PartialEq, Eq, Structural)]
pub struct UserState {
    pub user_id: UserId,
    pub state: UserStateKind,
}

/// The stored code of a state.
pub open spec fn state_code(kind: UserStateKind) -> u8 {
    match kind {
        UserStateKind::CannotDm => 0,
    }
}

/// Why a stored row is not a valid user state.
#[derive(Clone, Copy, Debug, PartialEq, Eq, Structural)]
pub enum UserStateError {
    /// The row holds a state code that no state has.
    UnknownState(u8),
}

/// The user state a row holds: `CannotDm` for code 0, an error otherwise.
pub open spec fn spec_user_state_of(m: Model) -> Result<UserState, UserStateError> {
    if m.state == 0 {
        Ok(UserState { user_id: UserId(m.user_id as u64), state: UserStateKind::CannotDm })
    } else {
        Err(UserStateError::UnknownState(m.state))
    }
}

/// The row that stores a user state.
pub open spec fn spec_model_of(s: UserState) -> Model {
    Model { user_id: s.user_id.0 as i64, state: state_code(s.state) }
}

impl UserState {
    /// Reads a user state from its row.
    ///
    /// Fails with the unknown code when the row's state is not `CannotDm`'s.
    pub fn try_from_model(model: Model) -> (r: Result<UserState, UserStateError>)
        requires
            model.user_id >= 0,
        ensures
            r == spec_user_state_of(model),
    {
        let user_id = UserId::from_db(model.user_id);
        if model.state == 0 {
            Ok(UserState { user_id, state: UserStateKind::CannotDm })
        } else {
            Err(UserStateError::UnknownState(model.state))
        }
    }
}

impl Model {
    /// The row that stores a user state.
    pub fn from_user_state(state: UserState) -> (r: Model)
        requires
            fits_db(state.user_id.0),
        ensures
            r == spec_model_of(state),
    {
        let code = match state.state {
            UserStateKind::CannotDm => 0u8,
        };
        Model { user_id: state.user_id.into_db(), state: code }
    }
}

/// Storing a user state and reading it back gives the same state.
pub proof fn lemma_user_state_round_trip(s: UserState)
    requires
        fits_db(s.user_id.0),
    ensures
        spec_model_of(s).user_id >= 0,
        spec_user_state_of(spec_model_of(s)) == Ok::<UserState, UserStateError>(s),
{
}

} // verus!
