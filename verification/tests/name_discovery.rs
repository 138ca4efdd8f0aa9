use protocol::message::DiscoveryMessage;
use protocol::name_discovery::{DiscoveryConfig, NameDiscoveryError, ServiceDiscovery};

#[test]
fn provided_names_are_answered() {
    let mut sd = ServiceDiscovery::new();
    assert_eq!(sd.provide_service("printer"), Err(NameDiscoveryError::NotInitialized));
    sd.complete_init();
    assert_eq!(sd.provide_service("printer"), Ok(()));
    assert!(sd.provides("printer"));
    let request = DiscoveryMessage::Request("printer".to_string()).to_bytes();
    let answer = sd.answer(&request).unwrap();
    assert_eq!(answer, DiscoveryMessage::Response("printer".to_string()).to_bytes());
    assert!(ServiceDiscovery::is_answer_for(&answer, "printer"));
    assert!(!ServiceDiscovery::is_answer_for(&answer, "scanner"));
}

#[test]
fn other_datagrams_go_unanswered() {
    let mut sd = ServiceDiscovery::new();
    sd.complete_init();
    sd.provide_service("printer").unwrap();
    assert!(sd.answer(&DiscoveryMessage::Request("scanner".to_string()).to_bytes()).is_none());
    assert!(sd.answer(&DiscoveryMessage::Response("printer".to_string()).to_bytes()).is_none());
    assert!(sd.answer(&[0xFF, 0xFF, b'p']).is_none());
    assert!(sd.answer(&[0x12]).is_none());
}

#[test]
fn stopped_names_are_no_longer_answered() {
    let mut sd = ServiceDiscovery::new();
    sd.complete_init();
    sd.provide_service("a").unwrap();
    sd.provide_service("b").unwrap();
    sd.provide_service("a").unwrap();
    assert_eq!(sd.stop_providing_service("a"), Ok(()));
    assert!(!sd.provides("a"));
    assert!(sd.provides("b"));
    assert!(sd.answer(&DiscoveryMessage::Request("a".to_string()).to_bytes()).is_none());
    assert_eq!(sd.stop_providing_service("zzz"), Ok(()));
}

#[test]
fn requests_need_a_bound_socket() {
    let mut sd = ServiceDiscovery::new();
    assert_eq!(sd.discovery_request("x"), Err(NameDiscoveryError::NotInitialized));
    sd.complete_init();
    assert_eq!(sd.discovery_request("x").unwrap(), vec![0x12, 0x34, b'x']);
    sd.shutdown();
    assert!(!sd.is_initialized());
    assert!(!sd.is_running());
    assert_eq!(sd.provide_service("x"), Err(NameDiscoveryError::NotInitialized));
}

#[test]
fn retries_and_defaults() {
    let sd = ServiceDiscovery::new();
    let c = sd.config();
    assert_eq!(c.port, 8765);
    assert_eq!(c.timeout_ms, 1000);
    assert_eq!(c.retries, 3);
    assert_eq!(c.retry_delay_ms, 200);
    assert!(sd.retry_after(2));
    assert!(!sd.retry_after(3));
    let once = ServiceDiscovery::with_config(DiscoveryConfig { retries: 1, ..DiscoveryConfig::default() });
    assert!(once.retry_after(0));
    assert!(!once.retry_after(1));
    assert_eq!(NameDiscoveryError::NotFound.describe(), "Service not found");
    assert_eq!(NameDiscoveryError::NotInitialized.describe(), "Service discovery not initialized");
}
