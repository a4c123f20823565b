//! Deciding which keywords to notify of, how to retry a notification, and
//! what a notification says.

use vstd::prelude::*;
use crate::commands::chars_eq;
use crate::db::ignore::Ignore;
use crate::db::keyword::Keyword;
use crate::db::notification::Notification;
use crate::ids::{ChannelId, GuildId, MessageId, UserId};
use crate::keyword_match::{spec_keyword_matches, KeywordMatcher};
use crate::strings::{decimal, decimal_string, join, joined, lowercased, to_lowercase, views};

verus! {

/// How many times sending a notification is retried when Discord answers
/// with a server error: the first attempt and up to this many more.
pub const NOTIFICATION_RETRIES: u8 = 5;

/// Color of normal embeds: help and notifications.
pub const EMBED_COLOR: u32 = 0xefff47;

/// Color of embeds that report a failure, such as a deleted message.
pub const ERROR_COLOR: u32 = 0xff4747;

/// `user` is among the users a message mentions.
pub open spec fn mentioned(mentions: Seq<UserId>, user: UserId) -> bool {
    exists|i: int| 0 <= i < mentions.len() && #[trigger] mentions[i] == user
}

/// One of the ignored phrases appears in `content`.
pub open spec fn ignored(ignores: Seq<Ignore>, content: Seq<char>) -> bool {
    exists|i: int| 0 <= i < ignores.len() && spec_keyword_matches(#[trigger] ignores[i].phrase@, content)
}

/// The text of a message calls for notifying the owner of `keyword`: the
/// owner is not mentioned in it, none of the owner's ignored phrases
/// appears in it, and the keyword does.
pub open spec fn text_calls_for_notification(
    mentions: Seq<UserId>,
    keyword: Keyword,
    ignores: Seq<Ignore>,
    content: Seq<char>,
) -> bool {
    &&& !mentioned(mentions, keyword.user_id)
    &&& !ignored(ignores, content)
    &&& spec_keyword_matches(keyword.keyword@, content)
}

/// Checks the text of a message for a keyword: a message that mentions the
/// keyword's owner, or holds one of the owner's ignored phrases, is not
/// highlighted; otherwise it is when the keyword appears in it.
///
/// Whether the owner may read the channel is checked afterwards, with
/// [`permission_allows`].
pub fn should_notify_keyword(
    matcher: &KeywordMatcher,
    mentions: &[UserId],
    content: &str,
    keyword: &Keyword,
    ignores: &[Ignore],
) -> (r: bool)
    ensures
        r == text_calls_for_notification(mentions@, *keyword, ignores@, content@),
{
    let mut i: usize = 0;
    while i < mentions.len()
        invariant
            i <= mentions@.len(),
            forall|j: int| 0 <= j < i ==> #[trigger] mentions@[j] != keyword.user_id,
        decreases mentions.len() - i,
    {
        if mentions[i].0 == keyword.user_id.0 {
            assert(mentions@[i as int] == keyword.user_id);
            return false;
        }
        i = i + 1;
    }
    let mut k: usize = 0;
    while k < ignores.len()
        invariant
            k <= ignores@.len(),
            forall|j: int| 0 <= j < k ==> !spec_keyword_matches(#[trigger] ignores@[j].phrase@, content@),
        decreases ignores.len() - k,
    {
        if matcher.matches(ignores[k].phrase.as_str(), content) {
            assert(spec_keyword_matches(ignores@[k as int].phrase@, content@));
            return false;
        }
        k = k + 1;
    }
    matcher.matches(keyword.keyword.as_str(), content)
}

/// A permission check lets a notification go out only when it found that
/// the recipient can read the channel; an unknown member cannot.
pub fn permission_allows(can_read: Option<bool>) -> (r: bool)
    ensures
        r == (can_read == Some(true)),
{
    match can_read {
        Some(b) => b,
        None => false,
    }
}

/// The title of a notification about `keywords` seen in a channel of a
/// server.
pub open spec fn title_text(keywords: Seq<Seq<char>>, channel: Seq<char>, guild: Seq<char>) -> Seq<char> {
    (if keywords.len() == 1 {
        "Keyword \""@
    } else {
        "Keywords \""@
    }) + joined(keywords, "\", \""@) + "\" seen in #"@ + channel + " ("@ + guild + ")"@
}

/// The title of a notification: `Keyword "k" seen in #channel (server)`,
/// or for several keywords `Keywords "a", "b" seen in #channel (server)`.
pub fn notification_title(keywords: &Vec<String>, channel_name: &str, guild_name: &str) -> (r: String)
    requires
        keywords.len() >= 1,
    ensures
        r@ == title_text(views(keywords@), channel_name@, guild_name@),
{
    let mut title = if keywords.len() == 1 {
        "Keyword \"".to_owned()
    } else {
        "Keywords \"".to_owned()
    };
    let list = join(keywords, "\", \"");
    title.append(list.as_str());
    title.append("\" seen in #");
    title.append(channel_name);
    title.append(" (");
    title.append(guild_name);
    title.append(")");
    title
}

/// The markdown link to a message.
pub open spec fn message_link_text(guild: GuildId, channel: ChannelId, message: MessageId) -> Seq<char> {
    "[(Link)](https://discord.com/channels/"@ + decimal(guild.0 as nat) + "/"@ + decimal(
        channel.0 as nat,
    ) + "/"@ + decimal(message.0 as nat) + ")"@
}

/// A markdown link to a message, shown in its notification.
pub fn message_link(guild: GuildId, channel: ChannelId, message: MessageId) -> (r: String)
    ensures
        r@ == message_link_text(guild, channel, message),
{
    let mut link = "[(Link)](https://discord.com/channels/".to_owned();
    link.append(decimal_string(guild.0).as_str());
    link.append("/");
    link.append(decimal_string(channel.0).as_str());
    link.append("/");
    link.append(decimal_string(message.0).as_str());
    link.append(")");
    link
}

/// The mention of a channel: `<#id>`.
pub fn channel_mention(channel: ChannelId) -> (r: String)
    ensures
        r@ == "<#"@ + decimal(channel.0 as nat) + ">"@,
{
    let mut mention = "<#".to_owned();
    mention.append(decimal_string(channel.0).as_str());
    mention.append(">");
    mention
}

/// How a request to Discord failed.
#[derive(Debug)]
pub enum RequestError {
    /// Discord answered with an unsuccessful HTTP status and an error
    /// message.
    Http { status: u16, message: String },
    /// The request failed in another way; `description` says how.
    Other { description: String },
}

/// The error message with which Discord refuses to deliver a direct
/// message.
pub open spec fn cannot_dm_text() -> Seq<char> {
    "Cannot send messages to this user"@
}

/// The result of a request, with a "not found" answer read as no value.
pub open spec fn spec_optional_result<T>(res: Result<T, RequestError>) -> Result<Option<T>, RequestError> {
    match res {
        Ok(x) => Ok(Some(x)),
        Err(RequestError::Http { status, message }) => if status == 404 {
            Ok(None)
        } else {
            Err(RequestError::Http { status, message })
        },
        Err(e) => Err(e),
    }
}

/// Makes the result of a request optional: a 404 answer becomes
/// `Ok(None)`, a success `Ok(Some(..))`, and any other error stays.
pub fn optional_result<T>(res: Result<T, RequestError>) -> (r: Result<Option<T>, RequestError>)
    ensures
        r == spec_optional_result(res),
{
    match res {
        Ok(x) => Ok(Some(x)),
        Err(RequestError::Http { status, message }) => if status == 404 {
            Ok(None)
        } else {
            Err(RequestError::Http { status, message })
        },
        Err(e) => Err(e),
    }
}

/// What to do after an attempt to send a notification.
#[derive(Clone, Copy, Debug, PartialEq, Eq, Structural)]
pub enum AfterSend {
    /// The notification was delivered as the given message: clear the
    /// recipient's state and record the notification.
    Delivered(MessageId),
    /// The recipient does not accept direct messages: remember that, and
    /// stop without an error.
    CannotDm,
    /// Discord had a server error: wait two seconds and try again.
    RetryAfterPause,
    /// Discord had a server error on the last attempt: wait two seconds and
    /// report that error.
    GiveUpAfterPause,
    /// The attempt failed in another way: report the error at once.
    Fail,
}

/// The step after attempt number `attempt` (counted from 1) ended with
/// `outcome`.
pub open spec fn spec_after_send(attempt: u8, outcome: Result<MessageId, RequestError>) -> AfterSend {
    match outcome {
        Ok(sent) => AfterSend::Delivered(sent),
        Err(RequestError::Http { status, message }) => if 500 <= status <= 599 {
            if attempt <= NOTIFICATION_RETRIES {
                AfterSend::RetryAfterPause
            } else {
                AfterSend::GiveUpAfterPause
            }
        } else if message@ == cannot_dm_text() {
            AfterSend::CannotDm
        } else {
            AfterSend::Fail
        },
        Err(RequestError::Other { .. }) => AfterSend::Fail,
    }
}

/// Decides what follows an attempt to send a notification. After a server
/// error the send is retried up to [`NOTIFICATION_RETRIES`] times, so the
/// last attempt is number `NOTIFICATION_RETRIES + 1`; a refusal to deliver
/// direct messages is remembered; other errors are reported.
pub fn after_send_attempt(attempt: u8, outcome: &Result<MessageId, RequestError>) -> (r: AfterSend)
    requires
        1 <= attempt <= NOTIFICATION_RETRIES + 1,
    ensures
        r == spec_after_send(attempt, *outcome),
{
    match outcome {
        Ok(sent) => AfterSend::Delivered(*sent),
        Err(RequestError::Http { status, message }) => if 500 <= *status && *status <= 599 {
            if attempt <= NOTIFICATION_RETRIES {
                AfterSend::RetryAfterPause
            } else {
                AfterSend::GiveUpAfterPause
            }
        } else if chars_eq(message.as_str(), "Cannot send messages to this user", false) {
            AfterSend::CannotDm
        } else {
            AfterSend::Fail
        },
        Err(RequestError::Other { .. }) => AfterSend::Fail,
    }
}

/// How a send attempt ends, for every attempt and outcome: a delivered
/// notification is recorded as the message it was delivered as; any server
/// error (status 500 to 599) is retried after attempts 1 to
/// `NOTIFICATION_RETRIES` and given up after the last attempt, whatever
/// its message; Discord's refusal to deliver direct messages, with any
/// other status, is remembered; every other failure is reported at once.
pub proof fn lemma_send_attempt_outcomes(attempt: u8, outcome: Result<MessageId, RequestError>)
    requires
        1 <= attempt <= NOTIFICATION_RETRIES + 1,
    ensures
        outcome matches Ok(sent) ==> spec_after_send(attempt, outcome) == AfterSend::Delivered(sent),
        outcome matches Err(RequestError::Http { status, .. }) && 500 <= status <= 599 && attempt <= 5
            ==> spec_after_send(attempt, outcome) == AfterSend::RetryAfterPause,
        outcome matches Err(RequestError::Http { status, .. }) && 500 <= status <= 599 && attempt == 6
            ==> spec_after_send(attempt, outcome) == AfterSend::GiveUpAfterPause,
        outcome matches Err(RequestError::Http { status, message }) && !(500 <= status <= 599)
            && message@ == "Cannot send messages to this user"@ ==> spec_after_send(attempt, outcome)
            == AfterSend::CannotDm,
        outcome matches Err(RequestError::Http { status, message }) && !(500 <= status <= 599)
            && message@ != "Cannot send messages to this user"@ ==> spec_after_send(attempt, outcome)
            == AfterSend::Fail,
        outcome matches Err(RequestError::Other { .. }) ==> spec_after_send(attempt, outcome) == AfterSend::Fail,
{
}

/// The records of a delivered notification: one for each keyword it
/// reports, in order.
pub fn notifications_for(
    original_message: MessageId,
    notification_message: MessageId,
    user_id: UserId,
    keywords: Vec<String>,
) -> (r: Vec<Notification>)
    ensures
        r@.len() == keywords@.len(),
        forall|i: int|
            0 <= i < r@.len() ==> {
                &&& (#[trigger] r@[i]).original_message == original_message
                &&& r@[i].notification_message == notification_message
                &&& r@[i].user_id == user_id
                &&& r@[i].keyword == keywords@[i]
            },
{
    let mut rest = keywords;
    let mut r: Vec<Notification> = Vec::new();
    let ghost all = rest@;
    while rest.len() > 0
        invariant
            r@.len() + rest@.len() == all.len(),
            rest@ == all.skip(r@.len() as int),
            forall|i: int|
                0 <= i < r@.len() ==> {
                    &&& (#[trigger] r@[i]).original_message == original_message
                    &&& r@[i].notification_message == notification_message
                    &&& r@[i].user_id == user_id
                    &&& r@[i].keyword == all[i]
                },
        decreases rest.len(),
    {
        let keyword = rest.remove(0);
        assert(keyword == all[r@.len() as int]);
        r.push(Notification { original_message, notification_message, keyword, user_id });
        assert(rest@ =~= all.skip(r@.len() as int));
    }
    r
}

/// The distinct values of `keys`, in the order of their first appearance.
pub open spec fn first_appearances<K>(keys: Seq<K>) -> Seq<K>
    decreases keys.len(),
{
    if keys.len() == 0 {
        Seq::empty()
    } else {
        let before = first_appearances(keys.drop_last());
        if before.contains(keys.last()) {
            before
        } else {
            before.push(keys.last())
        }
    }
}

/// The owners of the keywords, in order.
pub open spec fn owners(keywords: Seq<Keyword>) -> Seq<UserId> {
    keywords.map_values(|k: Keyword| k.user_id)
}

/// The keywords of one user.
pub struct UserKeywords {
    pub user_id: UserId,
    pub keywords: Vec<Keyword>,
}

/// Groups keywords by their owner. There is one group for each owner, in
/// the order in which owners first appear, and each group holds that
/// owner's keywords in their order.
pub fn group_keywords_by_user(keywords: Vec<Keyword>) -> (r: Vec<UserKeywords>)
    ensures
        r@.len() == first_appearances(owners(keywords@)).len(),
        forall|j: int|
            0 <= j < r@.len() ==> {
                &&& (#[trigger] r@[j]).user_id == first_appearances(owners(keywords@))[j]
                &&& r@[j].keywords@ == keywords@.filter(|k: Keyword| k.user_id == r@[j].user_id)
            },
{
    let ghost all = keywords@;
    let total = keywords.len();
    let mut rest = keywords;
    let mut groups: Vec<UserKeywords> = Vec::new();
    let mut done: usize = 0;
    while rest.len() > 0
        invariant
            done + rest@.len() == all.len(),
            all.len() == total,
            rest@ == all.skip(done as int),
            groups@.len() == first_appearances(owners(all.take(done as int))).len(),
            forall|j: int|
                0 <= j < groups@.len() ==> {
                    &&& (#[trigger] groups@[j]).user_id == first_appearances(owners(all.take(done as int)))[j]
                    &&& groups@[j].keywords@ == all.take(done as int).filter(
                        |k: Keyword| k.user_id == groups@[j].user_id,
                    )
                },
        decreases rest.len(),
    {
        let keyword = rest.remove(0);
        let ghost prefix = all.take(done as int);
        let ghost next = all.take(done + 1);
        assert(keyword == all[done as int]);
        assert(next.drop_last() =~= prefix);
        assert(owners(next).drop_last() =~= owners(prefix));
        assert(owners(next).last() == keyword.user_id);
        let mut j: usize = 0;
        while j < groups.len() && groups[j].user_id.0 != keyword.user_id.0
            invariant
                j <= groups@.len(),
                forall|l: int| 0 <= l < j ==> (#[trigger] groups@[l]).user_id != keyword.user_id,
            decreases groups.len() - j,
        {
            j = j + 1;
        }
        proof {
            reveal(Seq::filter);
        }
        if j < groups.len() {
            assert(first_appearances(owners(prefix))[j as int] == keyword.user_id);
            assert(first_appearances(owners(prefix)).contains(keyword.user_id));
            let ghost before = groups@;
            groups[j].keywords.push(keyword);
            assert forall|l: int| 0 <= l < groups@.len() implies (#[trigger] groups@[l]).keywords@ == next.filter(
                |k: Keyword| k.user_id == groups@[l].user_id,
            ) by {
                let p = |k: Keyword| k.user_id == groups@[l].user_id;
                assert(groups@[l].user_id == before[l].user_id);
                assert(next.len() > 0);
                assert(next.last() == keyword);
                lemma_first_appearances_distinct(owners(prefix));
                if l == j {
                    assert(p(keyword));
                    assert(next.filter(p) == prefix.filter(p).push(keyword));
                } else {
                    assert(!p(keyword));
                    assert(next.filter(p) == prefix.filter(p));
                }
            }
        } else {
            assert forall|l: int| 0 <= l < first_appearances(owners(prefix)).len() implies #[trigger] first_appearances(
                owners(prefix),
            )[l] != keyword.user_id by {
                assert(groups@[l].user_id == first_appearances(owners(prefix))[l]);
            }
            assert(!first_appearances(owners(prefix)).contains(keyword.user_id));
            proof {
                assert forall|l: int| 0 <= l < groups@.len() implies next.filter(
                    |k: Keyword| k.user_id == (#[trigger] groups@[l]).user_id,
                ) == prefix.filter(|k: Keyword| k.user_id == groups@[l].user_id) by {
                    assert(groups@[l].user_id != keyword.user_id);
                }
                assert(prefix.filter(|k: Keyword| k.user_id == keyword.user_id) =~= Seq::empty()) by {
                    assert forall|l: int| 0 <= l < prefix.len() implies (#[trigger] prefix[l]).user_id != keyword.user_id by {
                        assert(owners(prefix)[l] == prefix[l].user_id);
                        lemma_first_appearances_contains(owners(prefix), l);
                    }
                    lemma_filter_none(prefix, |k: Keyword| k.user_id == keyword.user_id);
                }
            }
            let user_id = keyword.user_id;
            let mut own: Vec<Keyword> = Vec::new();
            own.push(keyword);
            groups.push(UserKeywords { user_id, keywords: own });
        }
        done = done + 1;
        assert(rest@ =~= all.skip(done as int));
    }
    assert(all.take(done as int) =~= all);
    groups
}

/// The notification messages of the records, in order.
pub open spec fn notification_messages(notifications: Seq<Notification>) -> Seq<MessageId> {
    notifications.map_values(|n: Notification| n.notification_message)
}

/// The records of one notification message.
pub open spec fn records_of(notifications: Seq<Notification>, message: MessageId) -> Seq<Notification> {
    notifications.filter(|n: Notification| n.notification_message == message)
}

/// The keywords of the records, in order.
pub open spec fn keywords_of(notifications: Seq<Notification>) -> Seq<String> {
    notifications.map_values(|n: Notification| n.keyword)
}

/// A sent notification message, with the keywords it reports.
pub struct SentNotification {
    pub notification_message: MessageId,
    pub user_id: UserId,
    pub keywords: Vec<String>,
}

/// Groups notification records by the message that was sent. There is one
/// group for each notification message, in the order in which they first
/// appear; it holds the keywords of that message's records in order, and
/// the recipient named by the first of them.
pub fn group_by_notification_message(notifications: Vec<Notification>) -> (r: Vec<SentNotification>)
    ensures
        r@.len() == first_appearances(notification_messages(notifications@)).len(),
        forall|j: int|
            0 <= j < r@.len() ==> {
                &&& (#[trigger] r@[j]).notification_message == first_appearances(
                    notification_messages(notifications@),
                )[j]
                &&& r@[j].keywords@ == keywords_of(records_of(notifications@, r@[j].notification_message))
                &&& r@[j].user_id == records_of(notifications@, r@[j].notification_message)[0].user_id
            },
{
    let ghost all = notifications@;
    let total = notifications.len();
    let mut rest = notifications;
    let mut groups: Vec<SentNotification> = Vec::new();
    let mut done: usize = 0;
    while rest.len() > 0
        invariant
            done + rest@.len() == all.len(),
            all.len() == total,
            rest@ == all.skip(done as int),
            groups@.len() == first_appearances(notification_messages(all.take(done as int))).len(),
            forall|j: int|
                0 <= j < groups@.len() ==> {
                    &&& (#[trigger] groups@[j]).notification_message == first_appearances(
                        notification_messages(all.take(done as int)),
                    )[j]
                    &&& groups@[j].keywords@ == keywords_of(
                        records_of(all.take(done as int), groups@[j].notification_message),
                    )
                    &&& records_of(all.take(done as int), groups@[j].notification_message).len() > 0
                    &&& groups@[j].user_id == records_of(
                        all.take(done as int),
                        groups@[j].notification_message,
                    )[0].user_id
                },
        decreases rest.len(),
    {
        let record = rest.remove(0);
        let ghost prefix = all.take(done as int);
        let ghost next = all.take(done + 1);
        assert(record == all[done as int]);
        assert(next.drop_last() =~= prefix);
        assert(notification_messages(next).drop_last() =~= notification_messages(prefix));
        assert(notification_messages(next).last() == record.notification_message);
        let mut j: usize = 0;
        while j < groups.len() && groups[j].notification_message.0 != record.notification_message.0
            invariant
                j <= groups@.len(),
                forall|l: int|
                    0 <= l < j ==> (#[trigger] groups@[l]).notification_message != record.notification_message,
            decreases groups.len() - j,
        {
            j = j + 1;
        }
        proof {
            reveal(Seq::filter);
            lemma_first_appearances_distinct(notification_messages(prefix));
        }
        if j < groups.len() {
            assert(first_appearances(notification_messages(prefix))[j as int] == record.notification_message);
            assert(first_appearances(notification_messages(prefix)).contains(record.notification_message));
            let ghost before = groups@;
            groups[j].keywords.push(record.keyword);
            assert forall|l: int| 0 <= l < groups@.len() implies {
                &&& (#[trigger] groups@[l]).keywords@ == keywords_of(
                    records_of(next, groups@[l].notification_message),
                )
                &&& records_of(next, groups@[l].notification_message).len() > 0
                &&& groups@[l].user_id == records_of(next, groups@[l].notification_message)[0].user_id
            } by {
                let m = groups@[l].notification_message;
                assert(m == before[l].notification_message);
                assert(next.len() > 0);
                assert(next.last() == record);
                if l == j {
                    assert(records_of(next, m) == records_of(prefix, m).push(record));
                    assert(keywords_of(records_of(next, m)) =~= keywords_of(records_of(prefix, m)).push(
                        record.keyword,
                    ));
                } else {
                    assert(records_of(next, m) == records_of(prefix, m));
                }
            }
        } else {
            assert forall|l: int|
                0 <= l < first_appearances(notification_messages(prefix)).len() implies #[trigger] first_appearances(
                notification_messages(prefix),
            )[l] != record.notification_message by {
                assert(groups@[l].notification_message == first_appearances(notification_messages(prefix))[l]);
            }
            assert(!first_appearances(notification_messages(prefix)).contains(record.notification_message));
            proof {
                assert forall|l: int| 0 <= l < groups@.len() implies records_of(
                    next,
                    (#[trigger] groups@[l]).notification_message,
                ) == records_of(prefix, groups@[l].notification_message) by {
                    assert(groups@[l].notification_message != record.notification_message);
                }
                assert(records_of(prefix, record.notification_message) =~= Seq::empty()) by {
                    assert forall|l: int| 0 <= l < prefix.len() implies (#[trigger] prefix[l]).notification_message
                        != record.notification_message by {
                        assert(notification_messages(prefix)[l] == prefix[l].notification_message);
                        lemma_first_appearances_contains(notification_messages(prefix), l);
                    }
                    lemma_filter_none(prefix, |n: Notification| n.notification_message == record.notification_message);
                }
                assert(records_of(next, record.notification_message) == seq![record]);
                assert(keywords_of(seq![record]) =~= seq![record.keyword]);
            }
            let message = record.notification_message;
            let user_id = record.user_id;
            let mut own: Vec<String> = Vec::new();
            own.push(record.keyword);
            groups.push(SentNotification { notification_message: message, user_id, keywords: own });
        }
        done = done + 1;
        assert(rest@ =~= all.skip(done as int));
    }
    assert(all.take(done as int) =~= all);
    groups
}

/// The keywords that still appear in `content`, in order.
pub open spec fn still_seen(keywords: Seq<String>, content: Seq<char>) -> Seq<String> {
    keywords.filter(|k: String| spec_keyword_matches(k@, content))
}

/// What becomes of a sent notification when its message is edited.
pub enum NotificationUpdate {
    /// Some of its keywords still appear: edit it to report just these.
    Edit { notification_message: MessageId, user_id: UserId, keywords: Vec<String> },
    /// None of its keywords appears any more: mark it as deleted and forget
    /// its records.
    Delete { user_id: UserId, notification_message: MessageId },
}

/// The keywords that still appear in the (lower-cased) content.
fn keep_seen(matcher: &KeywordMatcher, keywords: Vec<String>, content: &str) -> (r: Vec<String>)
    ensures
        r@ == still_seen(keywords@, content@),
{
    let ghost all = keywords@;
    let total = keywords.len();
    let mut rest = keywords;
    let mut kept: Vec<String> = Vec::new();
    let mut done: usize = 0;
    while rest.len() > 0
        invariant
            done + rest@.len() == all.len(),
            all.len() == total,
            rest@ == all.skip(done as int),
            kept@ == still_seen(all.take(done as int), content@),
        decreases rest.len(),
    {
        let keyword = rest.remove(0);
        assert(keyword == all[done as int]);
        assert(all.take(done + 1).drop_last() =~= all.take(done as int));
        proof {
            reveal(Seq::filter);
        }
        if matcher.matches(keyword.as_str(), content) {
            kept.push(keyword);
        }
        done = done + 1;
        assert(rest@ =~= all.skip(done as int));
    }
    assert(all.take(done as int) =~= all);
    kept
}

/// Plans the updates of the notifications of an edited message: each
/// notification keeps the keywords that still appear in the new content,
/// compared in lower case, and is deleted when none does. The updates come
/// in the order of the notifications.
pub fn plan_notification_updates(
    matcher: &KeywordMatcher,
    sent: Vec<SentNotification>,
    content: &str,
) -> (r: Vec<NotificationUpdate>)
    ensures
        r@.len() == sent@.len(),
        forall|j: int|
            0 <= j < r@.len() ==> {
                let kept = still_seen((#[trigger] sent@[j]).keywords@, lowercased(content@));
                if kept.len() == 0 {
                    r@[j] == (NotificationUpdate::Delete {
                        user_id: sent@[j].user_id,
                        notification_message: sent@[j].notification_message,
                    })
                } else {
                    r@[j] matches NotificationUpdate::Edit { notification_message, user_id, keywords }
                        && notification_message == sent@[j].notification_message && user_id
                        == sent@[j].user_id && keywords@ == kept
                }
            },
{
    let lowercase_content = to_lowercase(content);
    let ghost all = sent@;
    let mut rest = sent;
    let mut updates: Vec<NotificationUpdate> = Vec::new();
    while rest.len() > 0
        invariant
            updates@.len() + rest@.len() == all.len(),
            rest@ == all.skip(updates@.len() as int),
            lowercase_content@ == lowercased(content@),
            forall|j: int|
                0 <= j < updates@.len() ==> {
                    let kept = still_seen((#[trigger] all[j]).keywords@, lowercased(content@));
                    if kept.len() == 0 {
                        updates@[j] == (NotificationUpdate::Delete {
                            user_id: all[j].user_id,
                            notification_message: all[j].notification_message,
                        })
                    } else {
                        updates@[j] matches NotificationUpdate::Edit {
                            notification_message,
                            user_id,
                            keywords,
                        } && notification_message == all[j].notification_message && user_id
                            == all[j].user_id && keywords@ == kept
                    }
                },
        decreases rest.len(),
    {
        let item = rest.remove(0);
        assert(item == all[updates@.len() as int]);
        let message = item.notification_message;
        let user_id = item.user_id;
        let kept = keep_seen(matcher, item.keywords, lowercase_content.as_str());
        if kept.len() == 0 {
            updates.push(NotificationUpdate::Delete { user_id, notification_message: message });
        } else {
            updates.push(NotificationUpdate::Edit { notification_message: message, user_id, keywords: kept });
        }
        assert(rest@ =~= all.skip(updates@.len() as int));
    }
    updates
}

/// Every value of `keys` is among its first appearances.
pub proof fn lemma_first_appearances_contains<K>(keys: Seq<K>, i: int)
    requires
        0 <= i < keys.len(),
    ensures
        first_appearances(keys).contains(keys[i]),
    decreases keys.len(),
{
    let before = first_appearances(keys.drop_last());
    if i < keys.len() - 1 {
        lemma_first_appearances_contains(keys.drop_last(), i);
        assert(keys.drop_last()[i] == keys[i]);
        if !before.contains(keys.last()) {
            let idx = choose|idx: int| 0 <= idx < before.len() && before[idx] == keys[i];
            assert(before.push(keys.last())[idx] == keys[i]);
        }
    } else if !before.contains(keys.last()) {
        assert(before.push(keys.last())[before.len() as int] == keys.last());
    }
}

/// No value appears twice among the first appearances.
pub proof fn lemma_first_appearances_distinct<K>(keys: Seq<K>)
    ensures
        forall|a: int, b: int|
            0 <= a < b < first_appearances(keys).len() ==> first_appearances(keys)[a] != first_appearances(
                keys,
            )[b],
    decreases keys.len(),
{
    if keys.len() > 0 {
        lemma_first_appearances_distinct(keys.drop_last());
        let before = first_appearances(keys.drop_last());
        if !before.contains(keys.last()) {
            let after = before.push(keys.last());
            assert forall|a: int, b: int| 0 <= a < b < after.len() implies after[a] != after[b] by {
                if b == before.len() {
                    if before[a] == keys.last() {
                        assert(before.contains(keys.last()));
                    }
                }
            }
        }
    }
}

/// Filtering keeps nothing when nothing passes.
proof fn lemma_filter_none<A>(s: Seq<A>, pred: spec_fn(A) -> bool)
    requires
        forall|l: int| 0 <= l < s.len() ==> !pred(#[trigger] s[l]),
    ensures
        s.filter(pred) == Seq::<A>::empty(),
    decreases s.len(),
{
    reveal(Seq::filter);
    if s.len() > 0 {
        lemma_filter_none(s.drop_last(), pred);
        assert(!pred(s[s.len() - 1]));
    }
}

} // verus!
