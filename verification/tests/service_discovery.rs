use std::collections::HashMap;

use protocol::addr::{IpAddr, Ipv4Addr};
use protocol::sd::builder::ServiceDiscoveryBuilder;
use protocol::sd::config::ServiceDiscoveryConfig;
use protocol::sd::error::ServiceDiscoveryError;
use protocol::sd::packets::ServiceDiscoveryMessage;
use protocol::sd::registry::{RegistryError, ServiceRegistry};
use protocol::sd::{ServiceDiscovery, StartStep};

fn offer(id: u16) -> Vec<u8> {
    ServiceDiscoveryMessage::OfferService(id).to_bytes_array().to_vec()
}

fn stop(id: u16) -> Vec<u8> {
    ServiceDiscoveryMessage::StopOfferService(id).to_bytes_array().to_vec()
}

fn sorted(mut v: Vec<(u16, IpAddr)>) -> Vec<(u16, IpAddr)> {
    v.sort_by_key(|(id, _)| *id);
    v
}

#[test]
fn registry_tracks_announced_services() {
    let mut r = ServiceRegistry::new();
    let a = IpAddr::v4(10, 0, 0, 1);
    let b = IpAddr::v4(10, 0, 0, 2);
    assert_eq!(r.insert(1, a, 100), Ok(()));
    assert_eq!(r.find(1), Some(a));
    assert_eq!(r.insert(1, b, 200), Ok(()));
    assert_eq!(r.find(1), Some(b));
    r.remove(1);
    assert_eq!(r.find(1), None);
}

#[test]
fn registry_is_full_at_capacity() {
    let mut r = ServiceRegistry::new();
    for id in 0..8u16 {
        assert_eq!(r.insert(id, IpAddr::v4(10, 0, 0, id as u8), 0), Ok(()));
    }
    assert_eq!(r.insert(100, IpAddr::v4(10, 0, 0, 100), 0), Err(RegistryError::Full));
    assert_eq!(r.insert(3, IpAddr::v4(10, 0, 1, 3), 0), Ok(()));
    assert_eq!(r.get_active_services().len(), 8);
}

#[test]
fn registry_static_entries_win_and_persist() {
    let mut r = ServiceRegistry::new();
    let s = IpAddr::v4(192, 168, 0, 1);
    assert_eq!(r.insert_static(5, s, 0), Ok(()));
    assert_eq!(r.insert(5, IpAddr::v4(10, 0, 0, 9), 10), Ok(()));
    assert_eq!(r.find(5), Some(s));
    r.remove(5);
    assert_eq!(r.find(5), Some(s));
    r.cleanup_stale(100, 1_000_000);
    assert_eq!(r.find(5), Some(s));
    r.remove_static(5);
    assert_eq!(r.find(5), None);
}

#[test]
fn registry_expires_silent_services() {
    let mut r = ServiceRegistry::new();
    r.insert(1, IpAddr::v4(10, 0, 0, 1), 1000).unwrap();
    r.insert(2, IpAddr::v4(10, 0, 0, 2), 3000).unwrap();
    r.cleanup_stale(3000, 4000);
    assert!(r.find(1).is_some());
    r.cleanup_stale(3000, 4001);
    assert!(r.find(1).is_none());
    assert!(r.find(2).is_some());
}

#[test]
fn registry_loads_static_services() {
    let mut r = ServiceRegistry::new();
    let mut statics = HashMap::new();
    statics.insert(7u16, IpAddr::v4(1, 2, 3, 4));
    statics.insert(8u16, IpAddr::v4(1, 2, 3, 5));
    assert_eq!(r.load_static_services(&statics, 0), Ok(()));
    assert_eq!(
        sorted(r.get_active_services()),
        vec![(7, IpAddr::v4(1, 2, 3, 4)), (8, IpAddr::v4(1, 2, 3, 5))]
    );
}

#[test]
fn announced_service_is_found_until_withdrawn() {
    let mut sd = ServiceDiscovery::new(1);
    let src = IpAddr::v4(10, 0, 0, 5);
    sd.handle_datagram(&offer(0x42), src, 1000);
    assert_eq!(sd.find_service(0x42, 1000), Some(src));
    assert_eq!(sd.find_service(0x42, 31_000), Some(src));
    sd.handle_datagram(&stop(0x42), src, 31_000);
    assert_eq!(sd.find_service(0x42, 31_000), None);
}

#[test]
fn announced_service_expires_after_its_lifetime() {
    let mut sd = ServiceDiscovery::new(1);
    let src = IpAddr::v4(10, 0, 0, 5);
    sd.handle_datagram(&offer(0x42), src, 1000);
    assert_eq!(sd.find_service(0x42, 31_001), None);
}

#[test]
fn garbage_datagrams_change_nothing() {
    let mut sd = ServiceDiscovery::new(1);
    sd.handle_datagram(&[0x09, 0x00, 0x42], IpAddr::v4(1, 1, 1, 1), 0);
    sd.handle_datagram(&[0x01], IpAddr::v4(1, 1, 1, 1), 0);
    assert!(sd.get_service_mapping().is_empty());
}

#[test]
fn static_mapping_takes_precedence() {
    let mut sd = ServiceDiscovery::new(1);
    let statically = IpAddr::v4(192, 168, 1, 10);
    sd.add_static_service(0x42, statically, 0);
    assert!(sd.has_static_service(0x42));
    sd.handle_datagram(&offer(0x42), IpAddr::v4(10, 0, 0, 5), 0);
    assert_eq!(sd.find_service(0x42, 0), Some(statically));
    assert_eq!(sd.find_service(0x42, 1_000_000), Some(statically));
    sd.remove_static_service(0x42);
    assert!(!sd.has_static_service(0x42));
    assert_eq!(sd.find_service(0x42, 0), Some(IpAddr::v4(10, 0, 0, 5)));
}

#[test]
fn service_mapping_lists_static_then_discovered() {
    let mut sd = ServiceDiscovery::new(1);
    sd.add_static_service(1, IpAddr::v4(192, 168, 1, 1), 0);
    sd.complete_init(0);
    sd.handle_datagram(&offer(2), IpAddr::v4(10, 0, 0, 2), 0);
    sd.handle_datagram(&offer(1), IpAddr::v4(10, 0, 0, 1), 0);
    assert_eq!(
        sorted(sd.get_service_mapping()),
        vec![(1, IpAddr::v4(192, 168, 1, 1)), (2, IpAddr::v4(10, 0, 0, 2))]
    );
    assert_eq!(sd.get_static_services(), vec![(1, IpAddr::v4(192, 168, 1, 1))]);
}

#[test]
fn start_steps_follow_the_state() {
    let mut sd = ServiceDiscovery::new(1);
    assert!(matches!(sd.start_step(), Err(ServiceDiscoveryError::SocketNotInitialized)));
    sd.complete_init(0);
    assert!(matches!(sd.start_step(), Ok(StartStep::CheckConflicts)));
    sd.mark_started();
    assert!(matches!(sd.start_step(), Ok(StartStep::AlreadyRunning)));
    let config = ServiceDiscoveryConfig { collision_detection: false, ..ServiceDiscoveryConfig::default() };
    let mut quiet = ServiceDiscovery::with_config(2, config);
    quiet.complete_init(0);
    assert!(matches!(quiet.start_step(), Ok(StartStep::Launch)));
}

#[test]
fn conflicting_announcement_is_detected() {
    let mut sd = ServiceDiscovery::new(7);
    assert!(matches!(
        sd.check_service_id_conflict(&vec![]),
        Err(ServiceDiscoveryError::SocketNotInitialized)
    ));
    sd.complete_init(0);
    assert!(sd.check_service_id_conflict(&vec![offer(8), stop(7), vec![1]]).is_ok());
    match sd.check_service_id_conflict(&vec![offer(8), offer(7)]) {
        Err(ServiceDiscoveryError::ServiceIdConflict(id)) => assert_eq!(id, 7),
        _ => panic!("expected a conflict"),
    }
    assert!(sd.is_conflicting_announcement(&offer(7)));
    assert!(!sd.is_conflicting_announcement(&stop(7)));
}

#[test]
fn announcement_and_withdrawal_bytes() {
    let mut sd = ServiceDiscovery::new(0x1234);
    assert_eq!(sd.announcement(), [0x01, 0x12, 0x34]);
    assert_eq!(sd.stop(), None);
    sd.complete_init(0);
    sd.mark_started();
    assert_eq!(sd.stop(), Some([0x02, 0x12, 0x34]));
    assert!(!sd.is_running());
    assert!(!sd.is_initialized());
}

#[test]
fn cleanup_is_due_every_second() {
    assert!(!ServiceDiscovery::cleanup_due(1000, 1999));
    assert!(ServiceDiscovery::cleanup_due(1000, 2000));
    assert!(!ServiceDiscovery::cleanup_due(5000, 10));
}

#[test]
fn default_discovery_settings() {
    let c = ServiceDiscoveryConfig::default();
    assert_eq!(c.bind_addr, Ipv4Addr::new(0, 0, 0, 0));
    assert_eq!(c.multicast_addr, Ipv4Addr::new(239, 255, 0, 1));
    assert_eq!(c.port, 30490);
    assert_eq!(c.broadcast_interval, 1000);
    assert_eq!(c.socket_timeout, 5000);
    assert_eq!(c.service_ttl, 30000);
    assert!(c.collision_detection);
    assert!(c.static_services.is_empty());
}

#[test]
fn config_static_services_chain() {
    let mut c = ServiceDiscoveryConfig::default();
    c.add_static_service(1, IpAddr::v4(1, 1, 1, 1))
        .add_static_services(vec![(2, IpAddr::v4(2, 2, 2, 2)), (1, IpAddr::v4(3, 3, 3, 3))])
        .remove_static_service(2);
    assert_eq!(c.get_static_service(1), Some(IpAddr::v4(3, 3, 3, 3)));
    assert!(!c.has_static_service(2));
    assert_eq!(c.get_static_service(2), None);
}

#[test]
fn builder_sets_each_field() {
    let sd = ServiceDiscovery::builder(9)
        .bind_addr(Ipv4Addr::new(10, 0, 0, 1))
        .multicast_addr(Ipv4Addr::new(239, 1, 1, 1))
        .port(4000)
        .broadcast_interval(500)
        .socket_timeout(700)
        .service_ttl(900)
        .build();
    assert_eq!(sd.service_id(), 9);
    let c = sd.config();
    assert_eq!(c.bind_addr, Ipv4Addr::new(10, 0, 0, 1));
    assert_eq!(c.multicast_addr, Ipv4Addr::new(239, 1, 1, 1));
    assert_eq!(c.port, 4000);
    assert_eq!(c.broadcast_interval, 500);
    assert_eq!(c.socket_timeout, 700);
    assert_eq!(c.service_ttl, 900);
    let plain = ServiceDiscoveryBuilder::new(3).build();
    assert_eq!(plain.config().port, 30490);
}

#[test]
fn discovery_errors_describe_themselves() {
    assert_eq!(ServiceDiscoveryError::SocketNotInitialized.describe(), "Socket not initialized");
    assert_eq!(
        ServiceDiscoveryError::ServiceIdConflict(42).describe(),
        "Service ID 42 is already in use on the network"
    );
    let e = ServiceDiscoveryError::BindFailed(std::io::Error::new(std::io::ErrorKind::Other, "busy"));
    assert!(e.describe().starts_with("Failed to bind socket: "));
    assert!(e.describe().ends_with("busy"));
    assert!(e.source().is_some());
    assert!(ServiceDiscoveryError::NotRunning.source().is_none());
}

#[test]
fn stop_gives_up_the_socket_without_workers() {
    let mut sd = ServiceDiscovery::new(0x0102);
    sd.complete_init(0);
    assert_eq!(sd.stop(), Some([0x02, 0x01, 0x02]));
    assert!(!sd.is_initialized());
    assert_eq!(sd.stop(), None);
}

#[test]
fn service_mapping_puts_static_services_first() {
    let mut sd = ServiceDiscovery::new(1);
    sd.complete_init(0);
    sd.handle_datagram(&offer(5), IpAddr::v4(10, 0, 0, 5), 0);
    sd.handle_datagram(&offer(6), IpAddr::v4(10, 0, 0, 6), 0);
    sd.add_static_service(9, IpAddr::v4(192, 168, 0, 9), 0);
    sd.add_static_service(5, IpAddr::v4(192, 168, 0, 5), 0);
    let mapping = sd.get_service_mapping();
    assert_eq!(mapping.len(), 3);
    let mut statics = mapping[..2].to_vec();
    statics.sort_by_key(|(id, _)| *id);
    assert_eq!(statics, vec![(5, IpAddr::v4(192, 168, 0, 5)), (9, IpAddr::v4(192, 168, 0, 9))]);
    assert_eq!(mapping[2], (6, IpAddr::v4(10, 0, 0, 6)));
}

#[test]
fn registry_lists_services_in_slot_order() {
    let mut r = ServiceRegistry::new();
    r.insert(30, IpAddr::v4(10, 0, 0, 30), 0).unwrap();
    r.insert(10, IpAddr::v4(10, 0, 0, 10), 0).unwrap();
    r.insert(20, IpAddr::v4(10, 0, 0, 20), 0).unwrap();
    r.remove(10);
    r.insert(40, IpAddr::v4(10, 0, 0, 40), 0).unwrap();
    let ids: Vec<u16> = r.get_active_services().iter().map(|(id, _)| *id).collect();
    assert_eq!(ids, vec![30, 40, 20]);
}

#[test]
fn new_service_takes_the_first_free_slot() {
    let mut r = ServiceRegistry::new();
    for id in 1..=4u16 {
        r.insert(id, IpAddr::v4(10, 0, 0, id as u8), 0).unwrap();
    }
    r.remove(3);
    r.remove(1);
    r.insert(9, IpAddr::v4(10, 0, 0, 9), 0).unwrap();
    let ids: Vec<u16> = r.get_active_services().iter().map(|(id, _)| *id).collect();
    assert_eq!(ids, vec![9, 2, 4]);
}

#[test]
fn refusal_texts_carry_the_decimal_id() {
    assert_eq!(
        ServiceDiscoveryError::ServiceIdConflict(0).describe(),
        "Service ID 0 is already in use on the network"
    );
    assert_eq!(
        ServiceDiscoveryError::ServiceIdConflict(65535).describe(),
        "Service ID 65535 is already in use on the network"
    );
}
