use highlights::db::ignore::Ignore;
use highlights::db::keyword::{Keyword, KeywordKind};
use highlights::db::notification::Notification;
use highlights::highlighting::{
    emphasized_content, plan_highlight_updates, should_notify_keyword, HighlightUpdate,
    MarkdownEscaper,
};
use highlights::ids::{GuildId, MessageId, UserId};

fn keyword(text: &str) -> Keyword {
    Keyword { keyword: text.to_owned(), user_id: UserId(1), kind: KeywordKind::Guild(GuildId(2)) }
}

#[test]
fn markdown_symbols_are_escaped() {
    let escaper = MarkdownEscaper::new().unwrap();
    assert_eq!(escaper.escape("a_b*c(d)[e]~f`g"), "a\\_b\\*c\\(d\\)\\[e\\]\\~f\\`g");
    assert_eq!(escaper.escape("plain"), "plain");
}

#[test]
fn found_keyword_is_emphasized() {
    let escaper = MarkdownEscaper::new().unwrap();
    assert_eq!(emphasized_content(&escaper, "foo bar_baz", 4, 7), "foo __**bar**__\\_baz");
    assert_eq!(emphasized_content(&escaper, "bar", 0, 3), "__**bar**__");
}

#[test]
fn keyword_range_is_reported() {
    assert_eq!(should_notify_keyword(&keyword("bar"), &[], "foo bar baz"), Some(4..7));
    assert_eq!(should_notify_keyword(&keyword("bar"), &[], "foo baz"), None);
}

#[test]
fn ignored_phrase_hides_keyword_range() {
    let ignores =
        [Ignore { phrase: "foo".to_owned(), user_id: UserId(1), guild_id: GuildId(2) }];
    assert_eq!(should_notify_keyword(&keyword("bar"), &ignores, "foo bar"), None);
    assert_eq!(should_notify_keyword(&keyword("bar"), &ignores, "qux bar"), Some(4..7));
}

#[test]
fn edited_message_updates_by_range() {
    let records = vec![
        Notification {
            original_message: MessageId(1),
            notification_message: MessageId(2),
            keyword: "bar".to_owned(),
            user_id: UserId(3),
        },
        Notification {
            original_message: MessageId(1),
            notification_message: MessageId(4),
            keyword: "qux".to_owned(),
            user_id: UserId(5),
        },
    ];
    let updates = plan_highlight_updates(records, "a bar");
    assert_eq!(updates.len(), 2);
    match &updates[0] {
        HighlightUpdate::Edit { notification, range } => {
            assert_eq!(notification.notification_message, MessageId(2));
            assert_eq!(range.clone(), 2..5);
        }
        HighlightUpdate::Delete(_) => panic!("the keyword is still there"),
    }
    match &updates[1] {
        HighlightUpdate::Delete(notification) => assert_eq!(notification.user_id, UserId(5)),
        HighlightUpdate::Edit { .. } => panic!("the keyword is gone"),
    }
}
