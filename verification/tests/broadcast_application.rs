use protocol::addr::IpAddr;
use protocol::application::message::{
    ApplicationMessage, ApplicationMessageReturnCode, ApplicationMessageType,
};
use protocol::broadcast_application::{
    route_datagram, Application, ApplicationConfig, ApplicationFailure, DiscoveryConfig, Route,
};
use protocol::packets::sd::DiscoveryMessage;

fn app() -> Application {
    Application::new(ApplicationConfig::new(None, None, DiscoveryConfig::default()))
}

#[test]
fn config_defaults_fill_missing_settings() {
    let c = ApplicationConfig::new(None, None, DiscoveryConfig::default());
    assert_eq!(c.bind_addr, IpAddr::v4(0, 0, 0, 0));
    assert_eq!(c.port, 8765);
    assert_eq!(c.discovery_config.retries, 3);
    let c = ApplicationConfig::new(Some(IpAddr::v4(1, 2, 3, 4)), Some(99), DiscoveryConfig::default());
    assert_eq!(c.bind_addr, IpAddr::v4(1, 2, 3, 4));
    assert_eq!(c.port, 99);
}

#[test]
fn found_service_is_remembered() {
    let mut a = app();
    assert_eq!(a.discovery_request(7), Err(ApplicationFailure::DiscoveryNotInitialized));
    a.complete_init();
    assert_eq!(a.discovery_request(7).unwrap(), vec![0x12, 0x34, 0x00, 0x07]);
    assert_eq!(a.cached_service(7), None);
    let src = IpAddr::v4(10, 0, 0, 9);
    assert!(!a.accept_discovery_response(&DiscoveryMessage::Response(8).to_bytes(), 7, src));
    assert!(!a.accept_discovery_response(&DiscoveryMessage::Request(7).to_bytes(), 7, src));
    assert!(a.accept_discovery_response(&DiscoveryMessage::Response(7).to_bytes(), 7, src));
    assert_eq!(a.cached_service(7), Some(src));
    assert_eq!(a.cached_service(8), None);
}

#[test]
fn method_calls_need_a_socket_and_a_response() {
    let mut a = app();
    assert_eq!(a.method_request(1, 2, vec![3]), Err(ApplicationFailure::DiscoveryNotInitialized));
    a.complete_init();
    let request = a.method_request(1, 2, vec![3]).unwrap();
    assert_eq!(request.service_id, 1);
    assert_eq!(request.method_id, 2);
    assert_eq!(request.message_type, ApplicationMessageType::Request);
    assert_eq!(request.payload, vec![3]);
    a.await_response(request.request_id);
    let notification = ApplicationMessage::new(1, 2, Some(request.request_id), ApplicationMessageType::Notification, ApplicationMessageReturnCode::Success, vec![]);
    assert_eq!(a.accept_response(&notification), Err(ApplicationFailure::InvalidResponseType));
    let response = ApplicationMessage::new(1, 2, Some(request.request_id), ApplicationMessageType::Response, ApplicationMessageReturnCode::Success, vec![4, 5]);
    assert_eq!(a.accept_response(&response), Ok(vec![4, 5]));
    assert_eq!(a.offer_method(1, 2), Ok(()));
}

#[test]
fn broadcast_start_is_refused_twice_and_before_init() {
    let mut a = app();
    assert_eq!(a.start(), Err(ApplicationFailure::NotInitialized));
    a.complete_init();
    assert_eq!(a.start(), Ok(()));
    assert_eq!(a.start(), Err(ApplicationFailure::AlreadyRunning));
    a.shutdown();
    assert_eq!(a.start(), Err(ApplicationFailure::NotInitialized));
    assert_eq!(ApplicationFailure::AlreadyRunning.describe(), "Application already running");
    assert_eq!(ApplicationFailure::TimedOut.describe(), "Method call timed out");
}

#[test]
fn datagrams_are_routed_by_prefix() {
    assert!(matches!(route_datagram(&[0x12]), Route::TooShort));
    assert!(matches!(
        route_datagram(&[0x12, 0x34, 0x00, 0x05]),
        Route::Discovery(Some(DiscoveryMessage::Request(5)))
    ));
    assert!(matches!(route_datagram(&[0xBA, 0xBE, 0x00]), Route::Application(Err(_))));
    assert!(matches!(route_datagram(&[0x00, 0x01, 0x02]), Route::Unknown(1)));
    let retries = app();
    assert!(retries.retry_after(2));
    assert!(!retries.retry_after(3));
}

#[test]
fn short_discovery_datagrams_decode_to_nothing() {
    assert!(matches!(route_datagram(&[0x43, 0x21]), Route::Discovery(None)));
    assert!(matches!(route_datagram(&[0x12, 0x34, 0x00]), Route::Discovery(None)));
    let mut a = app();
    a.complete_init();
    assert!(!a.accept_discovery_response(&[0x43, 0x21, 0x00], 0, IpAddr::v4(1, 1, 1, 1)));
}
