use protocol::application::error::ServiceApplicationError;
use protocol::codec::DecodeError;

#[test]
fn application_errors_describe_themselves() {
    assert_eq!(
        ServiceApplicationError::ServiceNotFound(12).describe(),
        "Service with ID 12 not found"
    );
    assert_eq!(
        ServiceApplicationError::ServiceDiscoveryNotInitialized.describe(),
        "Service discovery component is not initialized"
    );
    assert_eq!(
        ServiceApplicationError::ChannelError("closed".to_string()).describe(),
        "Channel communication error: closed"
    );
    assert_eq!(
        ServiceApplicationError::ConfigError("bad port".to_string()).describe(),
        "Configuration error: bad port"
    );
    assert_eq!(
        ServiceApplicationError::SerializationError(DecodeError::EmptyInput).describe(),
        "Serialization error: empty input"
    );
    let e = ServiceApplicationError::ConnectionFailed {
        service_id: 65535,
        source: std::io::Error::new(std::io::ErrorKind::Other, "refused"),
    };
    assert!(e.describe().starts_with("Failed to connect to service 65535: "));
    assert!(e.source().is_some());
    assert!(ServiceApplicationError::ServiceNotFound(1).source().is_none());
}

#[test]
fn io_errors_convert_to_network_errors() {
    let e: ServiceApplicationError =
        std::io::Error::new(std::io::ErrorKind::Other, "down").into();
    assert!(matches!(e, ServiceApplicationError::NetworkError(_)));
    assert!(e.describe().starts_with("Network operation failed: "));
}
