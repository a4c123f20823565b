//! Muted channels.

use vstd::prelude::*;
use crate::ids::{fits_db, ChannelId, UserId};

verus! {

/// A row of the `mutes` table.
#[derive(Clone, Copy, Debug, PartialEq, Eq, Structural)]
pub struct Model {
    pub user_id: i64,
    pub channel_id: i64,
}

/// Relations of the `mutes` table to other tables: it has none, which the
/// single variant stands for.
#[derive(Clone, Copy, Debug, PartialEq, Eq, Structural)]
pub enum Relation {
    Unrelated,
}

/// A channel muted by a user.
#[derive(Clone, Copy, Debug, PartialEq, Eq, Structural)]
pub struct Mute {
    /// The user who muted the channel.
    pub user_id: UserId,
    /// The channel that was muted.
    pub channel_id: ChannelId,
}

pub open spec fn mute_fits_db(m: Mute) -> bool {
    fits_db(m.user_id.0) && fits_db(m.channel_id.0)
}

pub open spec fn model_valid(m: Model) -> bool {
    m.user_id >= 0 && m.channel_id >= 0
}

pub open spec fn spec_model_of(m: Mute) -> Model {
    Model { user_id: m.user_id.0 as i64, channel_id: m.channel_id.0 as i64 }
}

pub open spec fn spec_mute_of(m: Model) -> Mute {
    Mute { user_id: UserId(m.user_id as u64), channel_id: ChannelId(m.channel_id as u64) }
}

impl Mute {
    /// Reads a mute from its row.
    pub fn from_model(model: Model) -> (r: Mute)
        requires
            model_valid(model),
        ensures
            r == spec_mute_of(model),
    {
        Mute { user_id: UserId::from_db(model.user_id), channel_id: ChannelId::from_db(model.channel_id) }
    }
}

impl Model {
    /// The row that stores a mute.
    pub fn from_mute(mute: Mute) -> (r: Model)
        requires
            mute_fits_db(mute),
        ensures
            r == spec_model_of(mute),
    {
        Model { user_id: mute.user_id.into_db(), channel_id: mute.channel_id.into_db() }
    }
}

/// Storing a mute and reading it back gives the same mute.
pub proof fn lemma_mute_round_trip(m: Mute)
    requires
        mute_fits_db(m),
    ensures
        model_valid(spec_model_of(m)),
        spec_mute_of(spec_model_of(m)) == m,
{
}

} // verus!
