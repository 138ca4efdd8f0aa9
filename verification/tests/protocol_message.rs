use protocol::codec::DecodeError;
use protocol::message::{DiscoveryMessage, ProtocolMessage};

#[test]
fn test_protocol_message_serialization() {
    let msg = ProtocolMessage::new(1, 2, 3, 1, vec![1, 2, 3, 4, 5]);

    let bytes = msg.to_bytes().unwrap();
    let deserialized = ProtocolMessage::from_bytes(&bytes).unwrap();

    assert_eq!(msg, deserialized);
}

#[test]
fn protocol_message_empty_payload() {
    let msg = ProtocolMessage::new(10, 20, 30, 2, vec![]);

    let bytes = msg.to_bytes().unwrap();
    let deserialized = ProtocolMessage::from_bytes(&bytes).unwrap();

    assert_eq!(deserialized.payload.len(), 0);
    assert_eq!(msg, deserialized);
}

#[test]
fn test_discovery_request() {
    let service_name = "test_service";
    let message = DiscoveryMessage::Request(service_name.to_string());
    let bytes = message.to_bytes();

    let decoded = DiscoveryMessage::from_bytes(&bytes).unwrap();
    match decoded {
        DiscoveryMessage::Request(name) => assert_eq!(name, service_name),
        _ => panic!("Expected Request variant"),
    }
}

#[test]
fn test_discovery_response() {
    let service_name = "response_service";
    let message = DiscoveryMessage::Response(service_name.to_string());
    let bytes = message.to_bytes();

    let decoded = DiscoveryMessage::from_bytes(&bytes).unwrap();
    match decoded {
        DiscoveryMessage::Response(name) => assert_eq!(name, service_name),
        _ => panic!("Expected Response variant"),
    }
}

#[test]
fn test_discovery_invalid_prefix() {
    let mut bytes = vec![0xFF, 0xFF];
    bytes.extend_from_slice(b"test");

    assert!(DiscoveryMessage::from_bytes(&bytes).is_none());
}

#[test]
fn test_discovery_too_short() {
    assert!(DiscoveryMessage::from_bytes(&[0x01]).is_none());
    assert!(DiscoveryMessage::from_bytes(&[]).is_none());
}

#[test]
fn named_discovery_wire_layout() {
    assert_eq!(
        DiscoveryMessage::Request("ab".to_string()).to_bytes(),
        vec![0x12, 0x34, b'a', b'b']
    );
    assert_eq!(
        DiscoveryMessage::Response("ab".to_string()).to_bytes(),
        vec![0x43, 0x21, b'a', b'b']
    );
}

#[test]
fn protocol_message_wire_layout() {
    let msg = ProtocolMessage::new(0x0102, 0x0304, 0x0506, 7, vec![0xAA]);
    assert_eq!(msg.length, 16);
    assert_eq!(
        msg.to_bytes().unwrap(),
        vec![0x01, 0x02, 0x03, 0x04, 0x00, 0x00, 0x00, 0x10, 0x05, 0x06, 7, 0, 0, 0, 1, 0xAA]
    );
}

#[test]
fn protocol_message_truncated_input_is_refused() {
    assert_eq!(ProtocolMessage::from_bytes(&[0u8; 14]), Err(DecodeError::UnexpectedEnd));
    let msg = ProtocolMessage::new(1, 2, 3, 4, vec![5, 6, 7]);
    let bytes = msg.to_bytes().unwrap();
    assert_eq!(
        ProtocolMessage::from_bytes(&bytes[..bytes.len() - 1]),
        Err(DecodeError::UnexpectedEnd)
    );
}
