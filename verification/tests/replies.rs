use highlights::ids::{ChannelId, UserId};
use highlights::notifications::RequestError;
use highlights::replies::{
    after_test_message, block_reply, error_description, cannot_read_reply, latency_unit, mute_reply, unblock_reply,
    unmute_reply, LatencyUnit, TestMessage,
};

#[test]
fn channel_replies() {
    assert_eq!(cannot_read_reply(ChannelId(5)), "❌ I can't read <#5>!");
    assert_eq!(mute_reply(ChannelId(5), false), "✅ Muted <#5>");
    assert_eq!(mute_reply(ChannelId(5), true), "❌ You've already muted <#5>!");
    assert_eq!(unmute_reply(ChannelId(5), true), "✅ Unmuted <#5>");
    assert_eq!(unmute_reply(ChannelId(5), false), "❌ You haven't muted <#5>!");
}

#[test]
fn user_replies() {
    assert_eq!(block_reply(UserId(8), false), "✅ Blocked <@8>");
    assert_eq!(block_reply(UserId(8), true), "❌ You already blocked <@8>!");
    assert_eq!(unblock_reply(UserId(8), true), "✅ Unblocked <@8>");
    assert_eq!(unblock_reply(UserId(8), false), "❌ You haven't blocked <@8>!");
}

#[test]
fn test_message_outcomes() {
    assert_eq!(after_test_message(&Ok(())), TestMessage::Delivered);
    let refused = Err(RequestError::Http {
        status: 403,
        message: "Cannot send messages to this user".to_owned(),
    });
    assert_eq!(after_test_message(&refused), TestMessage::WarnCannotDm);
    let other = Err(RequestError::Http { status: 500, message: "oops".to_owned() });
    assert_eq!(after_test_message(&other), TestMessage::Fail);
    let broken = Err(RequestError::Other { description: "closed".to_owned() });
    assert_eq!(after_test_message(&broken), TestMessage::Fail);
}

#[test]
fn latency_units() {
    assert_eq!(latency_unit(10_000_001), LatencyUnit::Seconds);
    assert_eq!(latency_unit(10_000_000), LatencyUnit::Milliseconds);
    assert_eq!(latency_unit(11), LatencyUnit::Milliseconds);
    assert_eq!(latency_unit(10), LatencyUnit::Microseconds);
}

#[test]
fn long_errors_are_cut() {
    assert_eq!(error_description("short"), "short");
    let long = "a".repeat(2005);
    let shown = error_description(&long);
    assert_eq!(shown.len(), 2003);
    assert!(shown.ends_with("aaa..."));
    let exact = "b".repeat(2000);
    assert_eq!(error_description(&exact), exact);
}
