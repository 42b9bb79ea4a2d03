//! Notification service: the in-memory notification store, the API types it
//! exchanges, and the client-side interpretation of the service's replies.

pub mod types;
pub mod store;
pub mod laws;
pub mod client;
pub mod helpers;

pub use client::{
    creation_outcome, notification_outcome, ApiError, CreateError, DeserialisationError, ErrorSource,
    ListError, ResourceAccessError,
};
pub use helpers::{replace_first_char, uncapitalise};
pub use laws::Operation;
pub use store::{AppState, StoreView};
pub use types::{
    CreateNotificationError, CreateNotificationPayload, CreateNotificationResult, Notification,
    NotificationResult, NotificationView, ResourceError,
};
