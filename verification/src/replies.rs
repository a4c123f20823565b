//! The replies of the commands that act on one channel or one user.

use vstd::prelude::*;
use vstd::string::*;
use crate::ids::{ChannelId, UserId};
use crate::notifications::{cannot_dm_text, RequestError};
use crate::commands::chars_eq;
use crate::strings::{decimal, decimal_string};
use crate::text::{get_range, substring};
use vstd::utf8::*;

verus! {

/// A channel mention, `<#id>`, between two texts.
fn around_channel(before: &str, channel: ChannelId, after: &str) -> (r: String)
    ensures
        r@ == before@ + "<#"@ + decimal(channel.0 as nat) + ">"@ + after@,
{
    let mut r = before.to_owned();
    r.append("<#");
    r.append(decimal_string(channel.0).as_str());
    r.append(">");
    r.append(after);
    r
}

/// A user mention, `<@id>`, between two texts.
fn around_user(before: &str, user: UserId, after: &str) -> (r: String)
    ensures
        r@ == before@ + "<@"@ + decimal(user.0 as nat) + ">"@ + after@,
{
    let mut r = before.to_owned();
    r.append("<@");
    r.append(decimal_string(user.0).as_str());
    r.append(">");
    r.append(after);
    r
}

/// The reply when the bot cannot read the channel a command names.
pub fn cannot_read_reply(channel: ChannelId) -> (r: String)
    ensures
        r@ == "❌ I can't read "@ + "<#"@ + decimal(channel.0 as nat) + ">"@ + "!"@,
{
    around_channel("❌ I can't read ", channel, "!")
}

/// The reply to `/mute`: muted now, or muted already.
pub fn mute_reply(channel: ChannelId, already_muted: bool) -> (r: String)
    ensures
        already_muted ==> r@ == "❌ You've already muted "@ + "<#"@ + decimal(channel.0 as nat) + ">"@ + "!"@,
        !already_muted ==> r@ == "✅ Muted "@ + "<#"@ + decimal(channel.0 as nat) + ">"@,
{
    if already_muted {
        around_channel("❌ You've already muted ", channel, "!")
    } else {
        let r = around_channel("✅ Muted ", channel, "");
        proof {
            reveal_strlit("");
        }
        assert(r@ =~= "✅ Muted "@ + "<#"@ + decimal(channel.0 as nat) + ">"@);
        r
    }
}

/// The reply to `/unmute`: unmuted, or it was not muted.
pub fn unmute_reply(channel: ChannelId, was_muted: bool) -> (r: String)
    ensures
        was_muted ==> r@ == "✅ Unmuted "@ + "<#"@ + decimal(channel.0 as nat) + ">"@,
        !was_muted ==> r@ == "❌ You haven't muted "@ + "<#"@ + decimal(channel.0 as nat) + ">"@ + "!"@,
{
    if was_muted {
        let r = around_channel("✅ Unmuted ", channel, "");
        proof {
            reveal_strlit("");
        }
        assert(r@ =~= "✅ Unmuted "@ + "<#"@ + decimal(channel.0 as nat) + ">"@);
        r
    } else {
        around_channel("❌ You haven't muted ", channel, "!")
    }
}

/// The reply to `/block`: blocked now, or blocked already.
pub fn block_reply(user: UserId, already_blocked: bool) -> (r: String)
    ensures
        already_blocked ==> r@ == "❌ You already blocked "@ + "<@"@ + decimal(user.0 as nat) + ">"@ + "!"@,
        !already_blocked ==> r@ == "✅ Blocked "@ + "<@"@ + decimal(user.0 as nat) + ">"@,
{
    if already_blocked {
        around_user("❌ You already blocked ", user, "!")
    } else {
        let r = around_user("✅ Blocked ", user, "");
        proof {
            reveal_strlit("");
        }
        assert(r@ =~= "✅ Blocked "@ + "<@"@ + decimal(user.0 as nat) + ">"@);
        r
    }
}

/// The reply to `/unblock`: unblocked, or it was not blocked.
pub fn unblock_reply(user: UserId, was_blocked: bool) -> (r: String)
    ensures
        was_blocked ==> r@ == "✅ Unblocked "@ + "<@"@ + decimal(user.0 as nat) + ">"@,
        !was_blocked ==> r@ == "❌ You haven't blocked "@ + "<@"@ + decimal(user.0 as nat) + ">"@ + "!"@,
{
    if was_blocked {
        let r = around_user("✅ Unblocked ", user, "");
        proof {
            reveal_strlit("");
        }
        assert(r@ =~= "✅ Unblocked "@ + "<@"@ + decimal(user.0 as nat) + ">"@);
        r
    } else {
        around_user("❌ You haven't blocked ", user, "!")
    }
}

/// What follows the test message sent after a user's first keyword.
#[derive(Clone, Copy, Debug, PartialEq, Eq, Structural)]
pub enum TestMessage {
    /// It was delivered.
    Delivered,
    /// The user does not accept direct messages: warn them.
    WarnCannotDm,
    /// It failed in another way: report the error.
    Fail,
}

/// Reads the outcome of the test message: Discord's refusal to deliver
/// direct messages calls for a warning, other failures are errors.
pub fn after_test_message(outcome: &Result<(), RequestError>) -> (r: TestMessage)
    ensures
        match outcome {
            Ok(_) => r == TestMessage::Delivered,
            Err(RequestError::Http { message, .. }) => if message@ == cannot_dm_text() {
                r == TestMessage::WarnCannotDm
            } else {
                r == TestMessage::Fail
            },
            Err(RequestError::Other { .. }) => r == TestMessage::Fail,
        },
{
    match outcome {
        Ok(_) => TestMessage::Delivered,
        Err(RequestError::Http { message, .. }) => if chars_eq(
            message.as_str(),
            "Cannot send messages to this user",
            false,
        ) {
            TestMessage::WarnCannotDm
        } else {
            TestMessage::Fail
        },
        Err(RequestError::Other { .. }) => TestMessage::Fail,
    }
}

/// The unit in which `/ping` shows the gateway latency.
#[derive(Clone, Copy, Debug, PartialEq, Eq, Structural)]
pub enum LatencyUnit {
    Seconds,
    Milliseconds,
    Microseconds,
}

/// Seconds above ten seconds, milliseconds above ten microseconds, and
/// microseconds below.
pub fn latency_unit(micros: u128) -> (r: LatencyUnit)
    ensures
        micros > 10_000_000 ==> r == LatencyUnit::Seconds,
        10 < micros <= 10_000_000 ==> r == LatencyUnit::Milliseconds,
        micros <= 10 ==> r == LatencyUnit::Microseconds,
{
    if micros > 10_000_000 {
        LatencyUnit::Seconds
    } else if micros > 10 {
        LatencyUnit::Milliseconds
    } else {
        LatencyUnit::Microseconds
    }
}

/// The most bytes of an error shown to a user.
pub open spec fn error_limit() -> int {
    2000
}

/// An error as shown to a user: cut to its first 2000 bytes, followed by
/// `...`, when it is longer.
pub open spec fn error_description_text(text: Seq<char>) -> Seq<char> {
    if encode_utf8(text).len() > error_limit() {
        get_range(text, 0, error_limit())->0 + "..."@
    } else {
        text
    }
}

/// Shortens an error for the reply to a failed command. A longer error must
/// have a character boundary at byte 2000, where it is cut.
pub fn error_description(text: &str) -> (r: String)
    requires
        encode_utf8(text@).len() > error_limit() ==> get_range(text@, 0, error_limit()) is Some,
    ensures
        r@ == error_description_text(text@),
{
    if text.as_bytes().len() > 2000 {
        let mut r = match substring(text, 0, 2000) {
            Some(head) => head.to_owned(),
            None => String::new(),
        };
        r.append("...");
        r
    } else {
        text.to_owned()
    }
}

} // verus!
