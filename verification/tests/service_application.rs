use protocol::addr::IpAddr;
use protocol::application::_impl_sync::{
    Dispatch, RequestTimeout, ServiceApplication, StartRefusal, EVENT_NOT_OFFERED,
    METHOD_NOT_FOUND, TIMEOUT,
};
use protocol::application::message::{
    ApplicationMessage, ApplicationMessageReturnCode, ApplicationMessageType,
    ApplicationResponseErrorMessage,
};

fn packet(
    method_id: u16,
    request_id: u16,
    message_type: ApplicationMessageType,
    return_code: ApplicationMessageReturnCode,
    payload: Vec<u8>,
) -> ApplicationMessage {
    ApplicationMessage::new(0x20, method_id, Some(request_id), message_type, return_code, payload)
}

fn running_app(id: u16) -> ServiceApplication {
    let mut app = ServiceApplication::new(id);
    app.init();
    assert_eq!(app.start(), Ok(()));
    app
}

#[test]
fn request_for_offered_method_invokes_it() {
    let mut app = ServiceApplication::new(1);
    app.offer_method(5);
    let p = packet(5, 77, ApplicationMessageType::Request, ApplicationMessageReturnCode::Success, vec![1]);
    match app.process_message(p.clone(), IpAddr::v4(10, 0, 0, 2)) {
        Dispatch::InvokeMethod(m) => assert_eq!(m, p),
        _ => panic!("expected the method to be invoked"),
    }
}

#[test]
fn request_for_unknown_method_is_answered_not_found() {
    let mut app = ServiceApplication::new(1);
    let addr = IpAddr::v4(10, 0, 0, 2);
    let p = packet(9, 77, ApplicationMessageType::Request, ApplicationMessageReturnCode::Success, vec![]);
    match app.process_message(p, addr) {
        Dispatch::Send(m, a) => {
            assert_eq!(a, addr);
            assert_eq!(m.message_type, ApplicationMessageType::Response);
            assert_eq!(m.return_code, ApplicationMessageReturnCode::Error);
            assert_eq!(m.request_id, 77);
            assert_eq!(m.service_id, 0x20);
            let e = ApplicationResponseErrorMessage::from_bytes(&m.payload).unwrap();
            assert_eq!(e.error_code, METHOD_NOT_FOUND);
            assert_eq!(e.error_message, "Method 9 not found");
        }
        _ => panic!("expected an error response"),
    }
}

#[test]
fn handler_result_becomes_the_response() {
    let app = ServiceApplication::new(1);
    let request = packet(5, 3, ApplicationMessageType::Request, ApplicationMessageReturnCode::Success, vec![]);
    let ok = app.respond_to_request(&request, Ok(vec![4, 5]));
    assert_eq!(ok.return_code, ApplicationMessageReturnCode::Success);
    assert_eq!(ok.payload, vec![4, 5]);
    assert_eq!(ok.length, 14);
    assert_eq!(ok.request_id, 3);
    let err = app.respond_to_request(
        &request,
        Err(ApplicationResponseErrorMessage::new(0x01, "Payload is empty".to_string())),
    );
    assert_eq!(err.return_code, ApplicationMessageReturnCode::Error);
    let mut expected = vec![0x01];
    expected.extend_from_slice(b"Payload is empty");
    assert_eq!(err.payload, expected);
}

#[test]
fn subscription_to_offered_event_is_confirmed_and_notified() {
    let mut app = running_app(1);
    app.offer_event(2);
    let a = IpAddr::v4(10, 0, 0, 2);
    let b = IpAddr::v4(10, 0, 0, 3);
    for addr in [a, b, a] {
        let p = packet(2, 11, ApplicationMessageType::Subscribe, ApplicationMessageReturnCode::Success, vec![]);
        match app.process_message(p, addr) {
            Dispatch::Send(m, to) => {
                assert_eq!(to, addr);
                assert_eq!(m.message_type, ApplicationMessageType::Response);
                assert_eq!(m.return_code, ApplicationMessageReturnCode::Success);
                assert_eq!(m.request_id, 11);
                assert!(m.payload.is_empty());
            }
            _ => panic!("expected a confirmation"),
        }
    }
    let out = app.notify(2, vec![0xFF; 4]);
    assert_eq!(out.len(), 2);
    assert_eq!(out[0].1, a);
    assert_eq!(out[1].1, b);
    for (m, _) in &out {
        assert_eq!(m.message_type, ApplicationMessageType::Notification);
        assert_eq!(m.request_id, 0);
        assert_eq!(m.method_id, 2);
        assert_eq!(m.service_id, 1);
        assert_eq!(m.payload, vec![0xFF; 4]);
    }
}

#[test]
fn subscription_to_unknown_event_is_refused() {
    let mut app = ServiceApplication::new(1);
    let p = packet(6, 12, ApplicationMessageType::Subscribe, ApplicationMessageReturnCode::Success, vec![]);
    match app.process_message(p, IpAddr::v4(10, 0, 0, 2)) {
        Dispatch::Send(m, _) => {
            let e = ApplicationResponseErrorMessage::from_bytes(&m.payload).unwrap();
            assert_eq!(e.error_code, EVENT_NOT_OFFERED);
            assert_eq!(e.error_message, "Event 6 not offered");
        }
        _ => panic!("expected an error response"),
    }
}

#[test]
fn unsubscribed_client_is_not_notified() {
    let mut app = running_app(1);
    app.offer_event(2);
    let a = IpAddr::v4(10, 0, 0, 2);
    let b = IpAddr::v4(10, 0, 0, 3);
    for addr in [a, b] {
        let p = packet(2, 1, ApplicationMessageType::Subscribe, ApplicationMessageReturnCode::Success, vec![]);
        app.process_message(p, addr);
    }
    let p = packet(2, 1, ApplicationMessageType::Unsubscribe, ApplicationMessageReturnCode::Success, vec![]);
    assert!(matches!(app.process_message(p, a), Dispatch::Ignore));
    let out = app.notify(2, vec![]);
    assert_eq!(out.len(), 1);
    assert_eq!(out[0].1, b);
}

#[test]
fn nothing_is_notified_while_stopped_or_for_unknown_events() {
    let mut app = ServiceApplication::new(1);
    app.offer_event(2);
    let p = packet(2, 1, ApplicationMessageType::Subscribe, ApplicationMessageReturnCode::Success, vec![]);
    app.process_message(p, IpAddr::v4(10, 0, 0, 2));
    assert!(app.notify(2, vec![1]).is_empty());
    app.init();
    app.start().unwrap();
    assert_eq!(app.notify(2, vec![1]).len(), 1);
    assert!(app.notify(3, vec![1]).is_empty());
}

#[test]
fn response_completes_the_open_request_once() {
    let mut app = running_app(1);
    let call = app.call_method(5, vec![1, 2]).unwrap();
    assert_eq!(call.message_type, ApplicationMessageType::Request);
    assert_eq!(call.service_id, 1);
    assert_eq!(call.payload, vec![1, 2]);
    app.track_method_call(call.request_id, 1000);
    let response = packet(5, call.request_id, ApplicationMessageType::Response, ApplicationMessageReturnCode::Success, vec![7]);
    match app.process_message(response.clone(), IpAddr::v4(10, 0, 0, 2)) {
        Dispatch::CompleteRequest(id, Ok(data)) => {
            assert_eq!(id, call.request_id);
            assert_eq!(data, vec![7]);
        }
        _ => panic!("expected the request to complete"),
    }
    assert!(matches!(app.process_message(response, IpAddr::v4(10, 0, 0, 2)), Dispatch::Ignore));
}

#[test]
fn error_response_reaches_the_caller_decoded() {
    let mut app = running_app(1);
    app.track_method_call(40, 0);
    let e = ApplicationResponseErrorMessage::new(METHOD_NOT_FOUND, "Method 5 not found".to_string());
    let response = packet(5, 40, ApplicationMessageType::Response, ApplicationMessageReturnCode::Error, e.to_bytes());
    match app.process_message(response, IpAddr::v4(10, 0, 0, 2)) {
        Dispatch::CompleteRequest(id, Err(got)) => {
            assert_eq!(id, 40);
            assert_eq!(got, e);
        }
        _ => panic!("expected the request to fail"),
    }
}

#[test]
fn notification_of_unsubscribed_event_is_answered_with_unsubscribe() {
    let mut app = ServiceApplication::new(9);
    app.subscribe(4);
    let addr = IpAddr::v4(10, 0, 0, 7);
    let n = packet(4, 0, ApplicationMessageType::Notification, ApplicationMessageReturnCode::Success, vec![3]);
    match app.process_message(n, addr) {
        Dispatch::DeliverEvent(id, data) => {
            assert_eq!(id, 4);
            assert_eq!(data, vec![3]);
        }
        _ => panic!("expected delivery"),
    }
    let unsubscribe = app.unsubscribe(4);
    assert_eq!(unsubscribe.message_type, ApplicationMessageType::Unsubscribe);
    assert_eq!(unsubscribe.method_id, 4);
    let n = packet(4, 0, ApplicationMessageType::Notification, ApplicationMessageReturnCode::Success, vec![3]);
    match app.process_message(n, addr) {
        Dispatch::Send(m, a) => {
            assert_eq!(a, addr);
            assert_eq!(m.message_type, ApplicationMessageType::Unsubscribe);
            assert_eq!(m.service_id, 9);
            assert_eq!(m.method_id, 4);
            assert!(m.payload.is_empty());
        }
        _ => panic!("expected an unsubscription"),
    }
}

#[test]
fn invalid_packets_are_ignored() {
    let mut app = ServiceApplication::new(1);
    let p = packet(1, 1, ApplicationMessageType::INVALID, ApplicationMessageReturnCode::Success, vec![]);
    assert!(matches!(app.process_message(p, IpAddr::v4(1, 2, 3, 4)), Dispatch::Ignore));
}

#[test]
fn requests_expire_after_their_deadline() {
    let mut app = running_app(1);
    app.track_method_call(1, 0);
    app.track_subscription(2, 0);
    app.track_method_call(3, 10_000);
    assert!(app.expire_requests(1000).is_empty());
    let mut expired = app.expire_requests(5001);
    expired.sort();
    assert_eq!(expired, vec![1, 2]);
    let expired = app.expire_requests(20_000);
    assert_eq!(expired, vec![3]);
    assert!(app.expire_requests(u64::MAX).is_empty());
    let e = ServiceApplication::timeout_error();
    assert_eq!(e.error_code, TIMEOUT);
    assert_eq!(e.error_message, "Request timed out");
}

#[test]
fn forgotten_request_is_not_completed() {
    let mut app = running_app(1);
    let sub = app.subscription_request(3);
    assert_eq!(sub.message_type, ApplicationMessageType::Subscribe);
    assert_eq!(sub.method_id, 3);
    app.track_subscription(sub.request_id, 0);
    app.forget_request(sub.request_id);
    let response = packet(3, sub.request_id, ApplicationMessageType::Response, ApplicationMessageReturnCode::Success, vec![]);
    assert!(matches!(app.process_message(response, IpAddr::v4(1, 1, 1, 1)), Dispatch::Ignore));
}

#[test]
fn start_is_refused_twice_and_before_init() {
    let mut app = ServiceApplication::new(1);
    assert_eq!(app.start(), Err(StartRefusal::DiscoveryNotInitialized));
    assert!(!app.is_running());
    assert!(app.call_method(1, vec![]).is_none());
    app.init();
    assert_eq!(app.start(), Ok(()));
    assert!(app.is_running());
    assert_eq!(app.start(), Err(StartRefusal::AlreadyRunning));
}

#[test]
fn shutdown_forgets_everything() {
    let mut app = running_app(1);
    app.offer_method(1);
    app.offer_event(2);
    app.subscribe(3);
    app.track_method_call(4, 0);
    app.shutdown();
    assert!(!app.is_running());
    assert_eq!(app.start(), Err(StartRefusal::DiscoveryNotInitialized));
    let mut app2 = app;
    app2.init();
    app2.start().unwrap();
    assert!(app2.notify(2, vec![]).is_empty());
    let p = packet(1, 1, ApplicationMessageType::Request, ApplicationMessageReturnCode::Success, vec![]);
    assert!(matches!(app2.process_message(p, IpAddr::v4(1, 1, 1, 1)), Dispatch::Send(_, _)));
}

#[test]
fn request_timeout_deadline() {
    let t = RequestTimeout::new(500, 1000);
    assert_eq!(t.deadline, 1500);
    assert!(!t.is_expired(1500));
    assert!(t.is_expired(1501));
}

#[test]
fn default_application_settings() {
    let app = ServiceApplication::new(3);
    assert_eq!(app.service_id(), 3);
    let c = app.config();
    assert_eq!(c.port, 5678);
    assert_eq!(c.method_call_timeout, 5000);
    assert_eq!(c.subscription_timeout, 1000);
    assert_eq!(c.max_clients, 8);
    assert_eq!(c.bind_addr, IpAddr::v4(0, 0, 0, 0));
}
