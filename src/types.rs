//! Types for the notification API.

use vstd::prelude::*;

verus! {

/// A notification.
#[derive(Debug, Clone, PartialEq, Eq)]
pub struct Notification {
    /// The notification ID.
    pub id: usize,
    /// The message to show.
    pub message: String,
    /// Has the notification been acknowledged?
    pub ack: bool,
}

/// What a notification holds, as a mathematical value.
pub struct NotificationView {
    pub id: nat,
    pub message: Seq<char>,
    pub ack: bool,
}

impl View for Notification {
    type V = NotificationView;

    open spec fn view(&self) -> NotificationView {
        NotificationView { id: self.id as nat, message: self.message@, ack: self.ack }
    }
}

impl Notification {
    /// A copy of this notification, field by field.
    pub fn duplicate(&self) -> (r: Notification)
        ensures
            r@ == self@,
    {
        Notification { id: self.id, message: self.message.clone(), ack: self.ack }
    }
}

/// The request payload for `POST /notifications`.
#[derive(Debug, Clone, PartialEq, Eq)]
pub struct CreateNotificationPayload {
    /// The message to show.
    pub message: String,
}

/// The reply payload for `POST /notifications`.
#[derive(Debug, PartialEq, Eq)]
pub enum CreateNotificationResult {
    /// The created notification.
    Notification(Notification),
    /// An error has occurred.
    Error(CreateNotificationError),
}

/// Errors that can occur when creating a notification.
#[derive(Debug, Clone, PartialEq, Eq)]
pub enum CreateNotificationError {
    /// The payload is invalid.
    PayloadError(String),
}

impl CreateNotificationError {
    /// The human-readable description of this error.
    pub fn describe(&self) -> (r: String)
        ensures
            match self {
                CreateNotificationError::PayloadError(detail) => r@ == seq![
                    'i', 'n', 'v', 'a', 'l', 'i', 'd', ' ', 'p', 'a', 'y', 'l', 'o', 'a', 'd', ':', ' ',
                ] + detail@,
            },
    {
        match self {
            CreateNotificationError::PayloadError(detail) => {
                let r = String::from_str("invalid payload: ");
                proof {
                    reveal_strlit("invalid payload: ");
                }
                r.concat(detail.as_str())
            },
        }
    }
}

impl CreateNotificationError {
    /// The HTTP status that answers this error: 400 (bad request).
    pub fn status_code(&self) -> (r: u16)
        ensures
            match self {
                CreateNotificationError::PayloadError(_) => r == 400,
            },
    {
        match self {
            CreateNotificationError::PayloadError(_) => 400,
        }
    }
}

/// The reply payload for `* /notifications/{id}`.
#[derive(Debug, Clone, PartialEq, Eq)]
pub enum NotificationResult {
    /// The notification in case of success.
    Notification(Notification),
    /// An error has occurred.
    Error(ResourceError),
}

/// Errors that can occur when operating on a given resource.
#[derive(Debug, Clone, Copy, PartialEq, Eq)]
pub enum ResourceError {
    /// The resource has not been found.
    NotFound {
        /// The ID of the missing resource.
        id: usize,
    },
}

impl ResourceError {
    /// The HTTP status that answers this error: 404 (not found).
    pub fn status_code(&self) -> (r: u16)
        ensures
            match self {
                ResourceError::NotFound { .. } => r == 404,
            },
    {
        match self {
            ResourceError::NotFound { .. } => 404,
        }
    }
}

} // verus!
