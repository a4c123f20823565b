//! Sent notification messages.

use vstd::prelude::*;
use crate::ids::{fits_db, MessageId, UserId};

verus! {

/// A row of the `sent_notifications` table.
#[derive(Clone, Debug)]
pub struct Model {
    pub user_id: i64,
    pub original_message: i64,
    pub notification_message: i64,
    pub keyword: String,
}

/// Relations of the `sent_notifications` table to other tables: it has
/// none, which the single variant stands for.
#[derive(Clone, Copy, Debug, PartialEq, Eq, Structural)]
pub enum Relation {
    Unrelated,
}

/// A notification message sent to a user about a keyword in a message.
#[derive(Clone, Debug)]
pub struct Notification {
    /// The message that caused the notification to be sent.
    pub original_message: MessageId,
    /// The sent notification message.
    pub notification_message: MessageId,
    /// The keyword in the original message that caused the notification.
    pub keyword: String,
    /// The user that the notification was sent to.
    pub user_id: UserId,
}

pub open spec fn notification_fits_db(n: Notification) -> bool {
    fits_db(n.user_id.0) && fits_db(n.original_message.0) && fits_db(n.notification_message.0)
}

pub open spec fn model_valid(m: Model) -> bool {
    m.user_id >= 0 && m.original_message >= 0 && m.notification_message >= 0
}

impl Notification {
    /// Reads a notification from its row.
    pub fn from_model(model: Model) -> (r: Notification)
        requires
            model_valid(model),
        ensures
            r.user_id.0 == model.user_id,
            r.original_message.0 == model.original_message,
            r.notification_message.0 == model.notification_message,
            r.keyword@ == model.keyword@,
    {
        Notification {
            user_id: UserId::from_db(model.user_id),
            original_message: MessageId::from_db(model.original_message),
            notification_message: MessageId::from_db(model.notification_message),
            keyword: model.keyword,
        }
    }
}

impl Model {
    /// The row that stores a notification.
    pub fn from_notification(notification: Notification) -> (r: Model)
        requires
            notification_fits_db(notification),
        ensures
            r.user_id == notification.user_id.0,
            r.original_message == notification.original_message.0,
            r.notification_message == notification.notification_message.0,
            r.keyword@ == notification.keyword@,
    {
        Model {
            user_id: notification.user_id.into_db(),
            original_message: notification.original_message.into_db(),
            notification_message: notification.notification_message.into_db(),
            keyword: notification.keyword,
        }
    }
}

} // verus!
