use std::str::FromStr;

use valhali::service::{is_valid, kind_char_from, Service, ServiceError, ServiceKind, TransportProtocol};

#[test]
fn kind_strips_underscore() {
    assert_eq!(ServiceKind::parse("_http").unwrap().as_str(), "http");
    assert_eq!(ServiceKind::from_str("http").unwrap().as_str(), "http");
    assert_eq!(ServiceKind::parse("my-svc").unwrap().as_str(), "my-svc");
}

#[test]
fn kind_rejects_uppercase() {
    assert!(matches!(ServiceKind::parse("HTTP"), Err(ServiceError::InvalidChar)));
    assert!(matches!(ServiceKind::parse("_Http"), Err(ServiceError::InvalidChar)));
    assert!(matches!(ServiceKind::parse("ht_tp"), Err(ServiceError::InvalidChar)));
    assert!(matches!(ServiceKind::parse("__http"), Err(ServiceError::InvalidChar)));
    assert!(matches!(ServiceKind::parse("http2"), Err(ServiceError::InvalidChar)));
}

#[test]
fn kind_rejects_empty() {
    assert!(matches!(ServiceKind::parse(""), Err(ServiceError::ShortKind)));
    assert!(matches!(ServiceKind::parse("_"), Err(ServiceError::ShortKind)));
    assert!(matches!(ServiceKind::from_str(""), Err(ServiceError::ShortKind)));
}

#[test]
fn kind_rejects_long() {
    assert!(matches!(ServiceKind::parse(&"a".repeat(64)), Err(ServiceError::LongKind)));
    assert_eq!(ServiceKind::parse(&"a".repeat(63)).unwrap().as_str().len(), 63);
}

#[test]
fn kind_chars() {
    assert!(is_valid('a'));
    assert!(is_valid('-'));
    assert!(!is_valid('A'));
    assert!(!is_valid('_'));
    assert!(!is_valid('1'));
    assert!(kind_char_from('x', true, true));
    assert!(!kind_char_from('X', true, false));
    assert!(kind_char_from('-', false, false));
    assert!(!kind_char_from('7', false, false));
}

#[test]
fn protocol_text() {
    assert_eq!(TransportProtocol::parse("tcp"), Ok(TransportProtocol::Tcp));
    assert_eq!(TransportProtocol::from_str("udp"), Ok(TransportProtocol::Udp));
    assert_eq!(TransportProtocol::parse("TCP"), Err("TCP".to_string()));
    assert_eq!(TransportProtocol::parse("tcpx"), Err("tcpx".to_string()));
    assert_eq!(TransportProtocol::Tcp.as_str(), "tcp");
    assert_eq!(TransportProtocol::Udp.as_str(), "udp");
}

#[test]
fn service_types() {
    let http = ServiceKind::parse("_http").unwrap();
    let service = Service::new("web".to_string(), http, TransportProtocol::Tcp, 80);
    assert_eq!(service.service_type(), "_http._tcp");
    assert_eq!(service.kinds.len(), 1);

    let kinds = vec![
        ServiceKind::parse("printer").unwrap(),
        ServiceKind::parse("_color").unwrap(),
    ];
    let service = Service::with_sub_kinds("lab".to_string(), kinds, TransportProtocol::Udp, 631);
    assert_eq!(service.service_type(), "_printer._udp");
    assert_eq!(service.sub_type(1), "_color");
    assert_eq!(service.port, 631);
    assert_eq!(service.clone().name, "lab");
    assert_eq!(service.describe(), "lab { Type: _printer._udp, Port: 631 }");
}

#[test]
fn service_line_ports() {
    let kind = ServiceKind::parse("ssh").unwrap();
    let service = Service::new("box".to_string(), kind, TransportProtocol::Tcp, 0);
    assert_eq!(service.describe(), "box { Type: _ssh._tcp, Port: 0 }");
    let kind = ServiceKind::parse("ssh").unwrap();
    let service = Service::new("box".to_string(), kind, TransportProtocol::Tcp, 65535);
    assert_eq!(service.describe(), "box { Type: _ssh._tcp, Port: 65535 }");
}
