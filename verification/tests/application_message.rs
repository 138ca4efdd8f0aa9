use protocol::application::message::{
    ApplicationMessage, ApplicationMessageReturnCode, ApplicationMessageType,
    ApplicationResponseErrorMessage,
};
use protocol::codec::DecodeError;

#[test]
fn test_application_message_serialization() {
    let msg = ApplicationMessage::new(
        0x1234,
        0x5678,
        Some(0xABCD),
        ApplicationMessageType::Request,
        ApplicationMessageReturnCode::Success,
        vec![0x01, 0x02, 0x03, 0x04],
    );

    let bytes = msg.to_bytes().unwrap();
    let deserialized = ApplicationMessage::from_bytes(&bytes).unwrap();

    assert_eq!(msg, deserialized);
}

#[test]
fn test_application_message_types() {
    assert_eq!(ApplicationMessageType::from(0x00), ApplicationMessageType::Request);
    assert_eq!(ApplicationMessageType::from(0x02), ApplicationMessageType::Notification);
    assert_eq!(ApplicationMessageType::from(0x03), ApplicationMessageType::Unsubscribe);
    assert_eq!(ApplicationMessageType::from(0x04), ApplicationMessageType::Response);
}

#[test]
fn test_return_codes() {
    assert_eq!(ApplicationMessageReturnCode::from(0x00), ApplicationMessageReturnCode::Success);
    assert_eq!(ApplicationMessageReturnCode::from(0x01), ApplicationMessageReturnCode::Error);
}

#[test]
fn message_test_empty_payload() {
    let msg = ApplicationMessage::new(
        0x0001,
        0x0002,
        Some(0x01),
        ApplicationMessageType::Response,
        ApplicationMessageReturnCode::Success,
        vec![],
    );

    let bytes = msg.to_bytes().unwrap();
    let deserialized = ApplicationMessage::from_bytes(&bytes).unwrap();

    assert_eq!(msg, deserialized);
}

#[test]
fn test_large_payload() {
    let large_payload = vec![0xAA; 1000];
    let msg = ApplicationMessage::new(
        0x0001,
        0x0002,
        Some(0xFFFF),
        ApplicationMessageType::Notification,
        ApplicationMessageReturnCode::Error,
        large_payload.clone(),
    );

    let bytes = msg.to_bytes().unwrap();
    let deserialized = ApplicationMessage::from_bytes(&bytes).unwrap();

    assert_eq!(msg.payload.len(), large_payload.len());
    assert_eq!(msg, deserialized);
}

#[test]
fn test_invalid_message_type() {
    let invalid_type = ApplicationMessageType::from(0xFF);
    assert_eq!(invalid_type, ApplicationMessageType::INVALID);
}

#[test]
fn test_invalid_return_code() {
    let invalid_code = ApplicationMessageReturnCode::from(0xFF);
    assert_eq!(invalid_code, ApplicationMessageReturnCode::INVALID);
}

#[test]
fn subscribe_type_byte_is_one() {
    assert_eq!(ApplicationMessageType::from(0x01), ApplicationMessageType::Subscribe);
    assert_eq!(ApplicationMessageType::Subscribe.to_u8(), 0x01);
    assert_eq!(ApplicationMessageType::INVALID.to_u8(), 0xFF);
    assert_eq!(ApplicationMessageReturnCode::INVALID.to_u8(), 0xFF);
}

#[test]
fn application_message_wire_layout() {
    let msg = ApplicationMessage::new(
        0x0102,
        0x0304,
        Some(0x0506),
        ApplicationMessageType::Subscribe,
        ApplicationMessageReturnCode::Error,
        vec![0xAA, 0xBB],
    );
    assert_eq!(msg.length, 14);
    let bytes = msg.to_bytes().unwrap();
    assert_eq!(
        bytes,
        vec![
            0x01, 0x02, 0x03, 0x04, 0x00, 0x00, 0x00, 0x0E, 0x05, 0x06, 0x01, 0x01, 0x00, 0x00,
            0x00, 0x02, 0xAA, 0xBB
        ]
    );
}

#[test]
fn application_message_length_counts_header_and_payload() {
    let mut msg = ApplicationMessage::new(
        1,
        2,
        Some(3),
        ApplicationMessageType::Request,
        ApplicationMessageReturnCode::Success,
        vec![],
    );
    assert_eq!(msg.length, 12);
    msg.set_payload(vec![9; 20]);
    assert_eq!(msg.length, 32);
    assert_eq!(msg.payload, vec![9; 20]);
}

#[test]
fn application_message_random_request_id_is_drawn() {
    let ids: Vec<u16> = (0..64)
        .map(|_| {
            ApplicationMessage::new(
                1,
                2,
                None,
                ApplicationMessageType::Request,
                ApplicationMessageReturnCode::Success,
                vec![],
            )
            .request_id
        })
        .collect();
    assert!(ids.iter().any(|id| *id != ids[0]));
}

#[test]
fn application_message_short_input_is_refused() {
    assert_eq!(ApplicationMessage::from_bytes(&[0u8; 15]), Err(DecodeError::UnexpectedEnd));
    let mut bytes = vec![0u8; 16];
    bytes[15] = 3;
    bytes.extend_from_slice(&[1, 2]);
    assert_eq!(ApplicationMessage::from_bytes(&bytes), Err(DecodeError::UnexpectedEnd));
    bytes.push(3);
    let m = ApplicationMessage::from_bytes(&bytes).unwrap();
    assert_eq!(m.payload, vec![1, 2, 3]);
}

#[test]
fn application_message_trailing_bytes_are_ignored() {
    let msg = ApplicationMessage::new(
        7,
        8,
        Some(9),
        ApplicationMessageType::Notification,
        ApplicationMessageReturnCode::Success,
        vec![1, 2, 3],
    );
    let mut bytes = msg.to_bytes().unwrap();
    bytes.extend_from_slice(&[0xEE, 0xEE]);
    assert_eq!(ApplicationMessage::from_bytes(&bytes).unwrap(), msg);
}

#[test]
fn error_message_roundtrip() {
    let e = ApplicationResponseErrorMessage::new(0x03, "Method 7 not found".to_string());
    let bytes = e.to_bytes();
    assert_eq!(bytes[0], 0x03);
    assert_eq!(&bytes[1..], "Method 7 not found".as_bytes());
    assert_eq!(ApplicationResponseErrorMessage::from_bytes(&bytes).unwrap(), e);
}

#[test]
fn error_message_empty_input_is_refused() {
    assert_eq!(ApplicationResponseErrorMessage::from_bytes(&[]), Err(DecodeError::EmptyInput));
}

#[test]
fn error_message_invalid_utf8_is_replaced() {
    let e = ApplicationResponseErrorMessage::from_bytes(&[0x01, b'a', 0xFF, b'b']).unwrap();
    assert_eq!(e.error_code, 0x01);
    assert_eq!(e.error_message, "a\u{FFFD}b");
}
