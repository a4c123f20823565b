//! The bot's stored records and their conversion to and from table rows.

pub mod block;
pub mod channel_keyword;
pub mod guild_keyword;
pub mod ignore;
pub mod keyword;
pub mod mute;
pub mod notification;
pub mod opt_out;
pub mod user_state;
