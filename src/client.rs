//! The client side of the notification API: its errors, and how a reply of
//! the service turns into a result.

use vstd::prelude::*;

use crate::types::{
    CreateNotificationError, CreateNotificationResult, Notification, NotificationResult,
    ResourceError,
};

verus! {

/// A failure to turn a reply body into the expected type.
#[derive(Debug, Clone, PartialEq, Eq)]
pub struct DeserialisationError {
    /// The name of the type that the body should have been.
    pub target_type: String,
    /// What the decoder reported.
    pub detail: String,
}

/// What caused an API error.
#[derive(Debug, Clone, PartialEq, Eq)]
pub enum ErrorSource {
    /// The service could not be reached, or its reply could not be read;
    /// holds the transport's own description.
    Transport(String),
    /// The service rejected the request payload.
    Payload(CreateNotificationError),
    /// The reply body does not have the expected shape.
    Deserialisation(DeserialisationError),
}

/// Errors that can occur when making API calls.
#[derive(Debug, Clone, PartialEq, Eq)]
pub enum ApiError {
    /// An error occurred during the API request.
    RequestError(ErrorSource),
    /// The response from the server is invalid.
    ResponseError(ErrorSource),
}

/// Errors that can occur when listing notifications.
#[derive(Debug, Clone, PartialEq, Eq)]
pub enum ListError {
    /// An error occurred during the API request.
    ApiError(ApiError),
}

/// Errors that can occur when creating notifications.
#[derive(Debug, Clone, PartialEq, Eq)]
pub enum CreateError {
    /// An error occurred during the API request.
    ApiError(ApiError),
}

/// Errors that can occur when accessing a resource.
#[derive(Debug, Clone, PartialEq, Eq)]
pub enum ResourceAccessError {
    /// An error occurred during the API request.
    ApiError(ApiError),
    /// The resource has not been found.
    NotFound {
        /// The ID of the missing resource.
        id: usize,
    },
}

impl ListError {
    /// Builds a [`ListError::ApiError`] from a [`DeserialisationError`].
    pub fn deserialisation_error(error: DeserialisationError) -> (r: Self)
        ensures
            r == ListError::ApiError(ApiError::ResponseError(ErrorSource::Deserialisation(error))),
    {
        ListError::ApiError(ApiError::ResponseError(ErrorSource::Deserialisation(error)))
    }
}

impl CreateError {
    /// Builds a [`CreateError::ApiError`] from a [`CreateNotificationError`].
    pub fn payload_error(error: CreateNotificationError) -> (r: Self)
        ensures
            r == CreateError::ApiError(ApiError::RequestError(ErrorSource::Payload(error))),
    {
        CreateError::ApiError(ApiError::RequestError(ErrorSource::Payload(error)))
    }

    /// Builds a [`CreateError::ApiError`] from a [`DeserialisationError`].
    pub fn deserialisation_error(error: DeserialisationError) -> (r: Self)
        ensures
            r == CreateError::ApiError(
                ApiError::ResponseError(ErrorSource::Deserialisation(error)),
            ),
    {
        CreateError::ApiError(ApiError::ResponseError(ErrorSource::Deserialisation(error)))
    }
}

impl ResourceAccessError {
    /// Builds a [`ResourceAccessError::ApiError`] from a [`DeserialisationError`].
    pub fn deserialisation_error(error: DeserialisationError) -> (r: Self)
        ensures
            r == ResourceAccessError::ApiError(
                ApiError::ResponseError(ErrorSource::Deserialisation(error)),
            ),
    {
        ResourceAccessError::ApiError(ApiError::ResponseError(ErrorSource::Deserialisation(error)))
    }
}

/// The result that a reply to `* /notifications/{id}` stands for: the
/// notification, or the id that was not found.
pub fn notification_outcome(response: NotificationResult) -> (r: Result<
    Notification,
    ResourceAccessError,
>)
    ensures
        match response {
            NotificationResult::Notification(n) => r == Ok::<Notification, ResourceAccessError>(n),
            NotificationResult::Error(ResourceError::NotFound { id }) => r == Err::<
                Notification,
                ResourceAccessError,
            >(ResourceAccessError::NotFound { id }),
        },
{
    match response {
        NotificationResult::Notification(notification) => Ok(notification),
        NotificationResult::Error(error) => match error {
            ResourceError::NotFound { id } => Err(ResourceAccessError::NotFound { id }),
        },
    }
}

/// The result that a reply to `POST /notifications` stands for: the created
/// notification, or the service's rejection of the payload.
pub fn creation_outcome(response: CreateNotificationResult) -> (r: Result<
    Notification,
    CreateError,
>)
    ensures
        match response {
            CreateNotificationResult::Notification(n) => r == Ok::<Notification, CreateError>(n),
            CreateNotificationResult::Error(e) => r == Err::<Notification, CreateError>(
                CreateError::ApiError(ApiError::RequestError(ErrorSource::Payload(e))),
            ),
        },
{
    match response {
        CreateNotificationResult::Notification(notification) => Ok(notification),
        CreateNotificationResult::Error(error) => Err(CreateError::payload_error(error)),
    }
}

} // verus!
