use crust::config::{Ipv4Address, Network};
use crust::network::{
    key_line, listener_key, listening_line, received_archive_name, received_line, sent_line, socket_address,
    socket_address_text, NetworkError, SocketAddress,
};

#[test]
fn endpoint_from_settings() {
    let n = Network { ip_addr: Some(Ipv4Address(192, 168, 0, 10)), port: Some(5000) };
    let a = socket_address(&n).unwrap();
    assert_eq!(a, SocketAddress { ip: Ipv4Address(192, 168, 0, 10), port: 5000 });
    assert_eq!(socket_address_text(&a), "192.168.0.10:5000");
    assert_eq!(listening_line(&a), "Listening on: 192.168.0.10:5000");
}

#[test]
fn endpoint_errors() {
    assert_eq!(socket_address(&Network { ip_addr: None, port: None }), Err(NetworkError::MissingAddress));
    assert_eq!(
        socket_address(&Network { ip_addr: Some(Ipv4Address(1, 1, 1, 1)), port: None }),
        Err(NetworkError::MissingPort)
    );
    assert_eq!(
        socket_address(&Network { ip_addr: Some(Ipv4Address(1, 1, 1, 1)), port: Some(65536) }),
        Err(NetworkError::PortOutOfRange(65536))
    );
    assert!(socket_address(&Network { ip_addr: Some(Ipv4Address(1, 1, 1, 1)), port: Some(65535) }).is_ok());
}

#[test]
fn key_lines() {
    assert_eq!(key_line(0), "Key: 0");
    assert_eq!(key_line(65535), "Key: 65535");
    let (k, line) = listener_key();
    assert_eq!(line, format!("Key: {}", k));
}

#[test]
fn fixed_lines() {
    assert_eq!(received_archive_name(), "network_archive.tar.zst");
    assert_eq!(received_line(), "Archive successfully recievied.");
    assert_eq!(sent_line("a.tar.zst"), "Successfully sent archive: 'a.tar.zst'");
}
