use ntf::{
    creation_outcome, notification_outcome, ApiError, CreateError, CreateNotificationError,
    CreateNotificationResult, DeserialisationError, ErrorSource, ListError, Notification,
    NotificationResult, ResourceAccessError, ResourceError,
};

fn sample() -> Notification {
    Notification { id: 7, message: "m".to_owned(), ack: true }
}

fn decode_error() -> DeserialisationError {
    DeserialisationError { target_type: "Vec<Notification>".to_owned(), detail: "eof".to_owned() }
}

#[test]
fn notification_reply_maps_to_ok() {
    assert_eq!(notification_outcome(NotificationResult::Notification(sample())), Ok(sample()));
}

#[test]
fn not_found_reply_maps_to_not_found() {
    assert_eq!(
        notification_outcome(NotificationResult::Error(ResourceError::NotFound { id: 3 })),
        Err(ResourceAccessError::NotFound { id: 3 })
    );
}

#[test]
fn creation_reply_maps_to_ok() {
    assert_eq!(creation_outcome(CreateNotificationResult::Notification(sample())), Ok(sample()));
}

#[test]
fn creation_error_reply_maps_to_payload_error() {
    let error = CreateNotificationError::PayloadError("missing field".to_owned());
    assert_eq!(
        creation_outcome(CreateNotificationResult::Error(error.clone())),
        Err(CreateError::ApiError(ApiError::RequestError(ErrorSource::Payload(error))))
    );
}

#[test]
fn deserialisation_errors_are_response_errors() {
    let expected = ApiError::ResponseError(ErrorSource::Deserialisation(decode_error()));
    assert_eq!(
        ListError::deserialisation_error(decode_error()),
        ListError::ApiError(expected.clone())
    );
    assert_eq!(
        CreateError::deserialisation_error(decode_error()),
        CreateError::ApiError(expected.clone())
    );
    assert_eq!(
        ResourceAccessError::deserialisation_error(decode_error()),
        ResourceAccessError::ApiError(expected)
    );
}

#[test]
fn payload_error_is_a_request_error() {
    let error = CreateNotificationError::PayloadError("bad".to_owned());
    assert_eq!(
        CreateError::payload_error(error.clone()),
        CreateError::ApiError(ApiError::RequestError(ErrorSource::Payload(error)))
    );
}

#[test]
fn status_codes() {
    assert_eq!(CreateNotificationError::PayloadError(String::new()).status_code(), 400);
    assert_eq!(ResourceError::NotFound { id: 1 }.status_code(), 404);
}

#[test]
fn payload_error_description() {
    assert_eq!(
        CreateNotificationError::PayloadError("oops".to_owned()).describe(),
        "invalid payload: oops"
    );
}

#[test]
fn duplicate_copies_every_field() {
    assert_eq!(sample().duplicate(), sample());
}
