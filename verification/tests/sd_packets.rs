use protocol::codec::DecodeError;
use protocol::sd::packets::ServiceDiscoveryMessage;

#[test]
fn test_offer_service_to_bytes_and_from_bytes() {
    let msg = ServiceDiscoveryMessage::OfferService(0x1234);
    let bytes = msg.to_bytes_array();
    assert_eq!(bytes, [0x01, 0x12, 0x34]);
    let parsed = ServiceDiscoveryMessage::from_bytes(&bytes).unwrap();
    assert_eq!(parsed, msg);
}

#[test]
fn test_stop_offer_service_to_bytes_and_from_bytes() {
    let msg = ServiceDiscoveryMessage::StopOfferService(0xABCD);
    let bytes = msg.to_bytes_array();
    assert_eq!(bytes, [0x02, 0xAB, 0xCD]);
    let parsed = ServiceDiscoveryMessage::from_bytes(&bytes).unwrap();
    assert_eq!(parsed, msg);
}

#[test]
fn test_from_bytes_invalid_type() {
    let bytes = vec![0xFF, 0x00, 0x01];
    assert!(ServiceDiscoveryMessage::from_bytes(&bytes).is_err());
}

#[test]
fn packets_test_from_bytes_too_short() {
    let bytes = vec![0x01];
    assert!(ServiceDiscoveryMessage::from_bytes(&bytes).is_err());
    let bytes = vec![0x01, 0x02];
    assert!(ServiceDiscoveryMessage::from_bytes(&bytes).is_err());
}

#[test]
fn test_to_bytes_and_from_bytes_roundtrip() {
    let ids = [0x0000, 0x0001, 0x00FF, 0xFFFF];
    for &id in &ids {
        let offer = ServiceDiscoveryMessage::OfferService(id);
        let stop = ServiceDiscoveryMessage::StopOfferService(id);
        assert_eq!(ServiceDiscoveryMessage::from_bytes(&offer.to_bytes_array()).unwrap(), offer);
        assert_eq!(ServiceDiscoveryMessage::from_bytes(&stop.to_bytes_array()).unwrap(), stop);
    }
}

#[test]
fn sd_message_errors_name_their_cause() {
    assert_eq!(ServiceDiscoveryMessage::from_bytes(&[0x01, 0x02]), Err(DecodeError::UnexpectedEnd));
    assert_eq!(
        ServiceDiscoveryMessage::from_bytes(&[0x07, 0x00, 0x01]),
        Err(DecodeError::UnknownMessageType(0x07))
    );
    assert_eq!(
        ServiceDiscoveryMessage::from_bytes(&[0x01, 0x00, 0x05, 0x99]),
        Ok(ServiceDiscoveryMessage::OfferService(5))
    );
}
