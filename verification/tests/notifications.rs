use highlights::db::ignore::Ignore;
use highlights::db::keyword::{Keyword, KeywordKind};
use highlights::db::notification::Notification;
use highlights::ids::{ChannelId, GuildId, MessageId, UserId};
use highlights::keyword_match::KeywordMatcher;
use highlights::notifications::{
    after_send_attempt, channel_mention, group_by_notification_message, group_keywords_by_user,
    message_link, notification_title, notifications_for, optional_result, permission_allows,
    plan_notification_updates, should_notify_keyword, AfterSend, NotificationUpdate, RequestError,
    SentNotification, EMBED_COLOR, ERROR_COLOR, NOTIFICATION_RETRIES,
};

fn keyword(text: &str, user: u64) -> Keyword {
    Keyword { keyword: text.to_owned(), user_id: UserId(user), kind: KeywordKind::Guild(GuildId(9)) }
}

fn ignore(phrase: &str, user: u64) -> Ignore {
    Ignore { phrase: phrase.to_owned(), user_id: UserId(user), guild_id: GuildId(9) }
}

fn record(original: u64, sent: u64, text: &str, user: u64) -> Notification {
    Notification {
        original_message: MessageId(original),
        notification_message: MessageId(sent),
        keyword: text.to_owned(),
        user_id: UserId(user),
    }
}

#[test]
fn keyword_in_message_is_notified() {
    let matcher = KeywordMatcher::new().unwrap();
    assert!(should_notify_keyword(&matcher, &[], "foo bar baz", &keyword("bar", 1), &[]));
    assert!(!should_notify_keyword(&matcher, &[], "foo baz", &keyword("bar", 1), &[]));
}

#[test]
fn mentioned_owner_is_not_notified() {
    let matcher = KeywordMatcher::new().unwrap();
    let mentions = [UserId(2), UserId(1)];
    assert!(!should_notify_keyword(&matcher, &mentions, "foo bar", &keyword("bar", 1), &[]));
    assert!(should_notify_keyword(&matcher, &[UserId(2)], "foo bar", &keyword("bar", 1), &[]));
}

#[test]
fn ignored_phrase_prevents_notification() {
    let matcher = KeywordMatcher::new().unwrap();
    let ignores = [ignore("qux", 1), ignore("foo", 1)];
    assert!(!should_notify_keyword(&matcher, &[], "foo bar", &keyword("bar", 1), &ignores));
    assert!(should_notify_keyword(&matcher, &[], "baz bar", &keyword("bar", 1), &ignores));
}

#[test]
fn permission_must_be_known_and_granted() {
    assert!(permission_allows(Some(true)));
    assert!(!permission_allows(Some(false)));
    assert!(!permission_allows(None));
}

#[test]
fn title_names_one_keyword() {
    let title = notification_title(&vec!["bar".to_owned()], "general", "My Server");
    assert_eq!(title, "Keyword \"bar\" seen in #general (My Server)");
}

#[test]
fn title_names_several_keywords() {
    let title = notification_title(&vec!["bar".to_owned(), "baz".to_owned()], "general", "S");
    assert_eq!(title, "Keywords \"bar\", \"baz\" seen in #general (S)");
}

#[test]
fn links_and_mentions() {
    assert_eq!(
        message_link(GuildId(1), ChannelId(22), MessageId(333)),
        "[(Link)](https://discord.com/channels/1/22/333)"
    );
    assert_eq!(channel_mention(ChannelId(45)), "<#45>");
}

#[test]
fn colors_and_retries() {
    assert_eq!(EMBED_COLOR, 0xefff47);
    assert_eq!(ERROR_COLOR, 0xff4747);
    assert_eq!(NOTIFICATION_RETRIES, 5);
}

#[test]
fn not_found_answer_is_no_value() {
    let missing: Result<u8, RequestError> =
        Err(RequestError::Http { status: 404, message: "Unknown Member".to_owned() });
    assert!(matches!(optional_result(missing), Ok(None)));
    assert!(matches!(optional_result(Ok::<u8, RequestError>(3)), Ok(Some(3))));
    let forbidden: Result<u8, RequestError> =
        Err(RequestError::Http { status: 403, message: "Missing Access".to_owned() });
    assert!(matches!(optional_result(forbidden), Err(RequestError::Http { status: 403, .. })));
    let other: Result<u8, RequestError> = Err(RequestError::Other { description: "io".to_owned() });
    assert!(matches!(optional_result(other), Err(RequestError::Other { .. })));
}

#[test]
fn delivered_notification_is_recorded() {
    assert_eq!(after_send_attempt(1, &Ok(MessageId(77))), AfterSend::Delivered(MessageId(77)));
}

#[test]
fn server_errors_are_retried_five_times() {
    let error = Err(RequestError::Http { status: 502, message: "Bad Gateway".to_owned() });
    for attempt in 1..=5 {
        assert_eq!(after_send_attempt(attempt, &error), AfterSend::RetryAfterPause);
    }
    assert_eq!(after_send_attempt(6, &error), AfterSend::GiveUpAfterPause);
}

#[test]
fn closed_direct_messages_are_remembered() {
    let error = Err(RequestError::Http {
        status: 403,
        message: "Cannot send messages to this user".to_owned(),
    });
    assert_eq!(after_send_attempt(1, &error), AfterSend::CannotDm);
}

#[test]
fn other_send_errors_fail() {
    let error = Err(RequestError::Http { status: 400, message: "Invalid Form Body".to_owned() });
    assert_eq!(after_send_attempt(2, &error), AfterSend::Fail);
    let other = Err(RequestError::Other { description: "timeout".to_owned() });
    assert_eq!(after_send_attempt(1, &other), AfterSend::Fail);
}

#[test]
fn one_record_per_keyword() {
    let records = notifications_for(
        MessageId(1),
        MessageId(2),
        UserId(3),
        vec!["a".to_owned(), "b".to_owned()],
    );
    assert_eq!(records.len(), 2);
    assert_eq!(records[0].keyword, "a");
    assert_eq!(records[1].keyword, "b");
    assert_eq!(records[1].original_message, MessageId(1));
    assert_eq!(records[1].notification_message, MessageId(2));
    assert_eq!(records[0].user_id, UserId(3));
}

#[test]
fn keywords_are_grouped_by_owner_in_order() {
    let groups = group_keywords_by_user(vec![
        keyword("a", 1),
        keyword("b", 2),
        keyword("c", 1),
        keyword("d", 3),
    ]);
    assert_eq!(groups.len(), 3);
    assert_eq!(groups[0].user_id, UserId(1));
    let first: Vec<&str> = groups[0].keywords.iter().map(|k| k.keyword.as_str()).collect();
    assert_eq!(first, vec!["a", "c"]);
    assert_eq!(groups[1].user_id, UserId(2));
    assert_eq!(groups[2].user_id, UserId(3));
    assert_eq!(groups[2].keywords.len(), 1);
}

#[test]
fn records_are_grouped_by_notification_message() {
    let groups = group_by_notification_message(vec![
        record(1, 10, "a", 5),
        record(1, 11, "b", 6),
        record(1, 10, "c", 5),
    ]);
    assert_eq!(groups.len(), 2);
    assert_eq!(groups[0].notification_message, MessageId(10));
    assert_eq!(groups[0].user_id, UserId(5));
    assert_eq!(groups[0].keywords, vec!["a".to_owned(), "c".to_owned()]);
    assert_eq!(groups[1].notification_message, MessageId(11));
    assert_eq!(groups[1].keywords, vec!["b".to_owned()]);
}

#[test]
fn edited_message_keeps_or_deletes_notifications() {
    let matcher = KeywordMatcher::new().unwrap();
    let sent = vec![
        SentNotification {
            notification_message: MessageId(10),
            user_id: UserId(5),
            keywords: vec!["foo".to_owned(), "bar".to_owned()],
        },
        SentNotification {
            notification_message: MessageId(11),
            user_id: UserId(6),
            keywords: vec!["qux".to_owned()],
        },
    ];
    let updates = plan_notification_updates(&matcher, sent, "FOO and baz");
    assert_eq!(updates.len(), 2);
    match &updates[0] {
        NotificationUpdate::Edit { notification_message, user_id, keywords } => {
            assert_eq!(*notification_message, MessageId(10));
            assert_eq!(*user_id, UserId(5));
            assert_eq!(keywords, &vec!["foo".to_owned()]);
        }
        NotificationUpdate::Delete { .. } => panic!("the notification should be edited"),
    }
    match &updates[1] {
        NotificationUpdate::Delete { user_id, notification_message } => {
            assert_eq!(*user_id, UserId(6));
            assert_eq!(*notification_message, MessageId(11));
        }
        NotificationUpdate::Edit { .. } => panic!("the notification should be deleted"),
    }
}
