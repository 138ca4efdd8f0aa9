use protocol::constants::{SD_REQUEST_PREFIX, SD_RESPONSE_PREFIX};
use protocol::packets::sd::DiscoveryMessage;

#[test]
fn test_request_to_bytes_and_back() {
    let sent_id: u16 = 0x01;
    let request = DiscoveryMessage::Request(sent_id);
    let bytes = request.to_bytes();

    assert_eq!(bytes[0..2], SD_REQUEST_PREFIX.to_be_bytes());
    assert_eq!(&bytes[2..], sent_id.to_be_bytes());

    let parsed_request = DiscoveryMessage::from_bytes(&bytes).unwrap();
    match parsed_request {
        DiscoveryMessage::Request(name) => assert_eq!(name, sent_id),
        _ => panic!("Expected DiscoveryMessage::Request"),
    }
}

#[test]
fn test_response_to_bytes_and_back() {
    let sent_id: u16 = 0x01;
    let response = DiscoveryMessage::Response(sent_id);
    let bytes = response.to_bytes();

    assert_eq!(bytes[0..2], SD_RESPONSE_PREFIX.to_be_bytes());
    assert_eq!(&bytes[2..], sent_id.to_be_bytes());

    let parsed_response = DiscoveryMessage::from_bytes(&bytes).unwrap();
    match parsed_response {
        DiscoveryMessage::Response(name) => assert_eq!(name, sent_id),
        _ => panic!("Expected DiscoveryMessage::Response"),
    }
}

#[test]
fn test_from_bytes_empty() {
    assert_eq!(DiscoveryMessage::from_bytes(&[]), None);
}

#[test]
fn sd_test_from_bytes_too_short() {
    assert_eq!(DiscoveryMessage::from_bytes(&[0x01]), None);
}

#[test]
fn test_from_bytes_unknown_prefix() {
    let bytes = vec![0xFF, 0xFF, 0x01, 0x02, 0x03];
    assert_eq!(DiscoveryMessage::from_bytes(&bytes), None);
}

#[test]
fn discovery_id_bytes_past_the_fourth_are_ignored() {
    let bytes = vec![0x12, 0x34, 0xBE, 0xEF, 0x00, 0x11];
    assert_eq!(DiscoveryMessage::from_bytes(&bytes), Some(DiscoveryMessage::Request(0xBEEF)));
}

#[test]
fn discovery_id_two_or_three_bytes_decode_to_nothing() {
    assert_eq!(DiscoveryMessage::from_bytes(&[0x12, 0x34]), None);
    assert_eq!(DiscoveryMessage::from_bytes(&[0x43, 0x21, 0x00]), None);
}
