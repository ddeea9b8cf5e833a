//! Moving an archive over TCP: the endpoint to listen on or connect to, the
//! key shown to the listening side, and the lines printed along the way.
use vstd::prelude::*;
use crate::config::{Ipv4Address, Network};
use crate::decimal::{decimal, push_decimal};
use crate::text::{copy_text, push_char};

verus! {

/// An IPv4 address and a port, as `SocketAddrV4` holds them.
#[derive(Clone, Copy, Debug, PartialEq, Eq, Structural)]
pub struct SocketAddress {
    pub ip: Ipv4Address,
    pub port: u16,
}

/// Why the network settings name no endpoint.
#[derive(Clone, Copy, Debug, PartialEq, Eq, Structural)]
pub enum NetworkError {
    /// No IPv4 address is set.
    MissingAddress,
    /// No port is set.
    MissingPort,
    /// The port does not fit in 16 bits.
    PortOutOfRange(u32),
}

/// The endpoint that `network` names: its address and its port, the
/// address looked at first.
pub open spec fn socket_address_spec(network: Network) -> Result<SocketAddress, NetworkError> {
    match network.ip_addr {
        None => Err(NetworkError::MissingAddress),
        Some(ip) => match network.port {
            None => Err(NetworkError::MissingPort),
            Some(p) => if p <= u16::MAX {
                Ok(SocketAddress { ip, port: p as u16 })
            } else {
                Err(NetworkError::PortOutOfRange(p))
            },
        },
    }
}

/// The endpoint that `network` names (see `socket_address_spec`).
pub fn socket_address(network: &Network) -> (r: Result<SocketAddress, NetworkError>)
    ensures
        r == socket_address_spec(*network),
{
    match network.ip_addr {
        None => Err(NetworkError::MissingAddress),
        Some(ip) => match network.port {
            None => Err(NetworkError::MissingPort),
            Some(p) => if p <= 0xffffu32 {
                Ok(SocketAddress { ip, port: p as u16 })
            } else {
                Err(NetworkError::PortOutOfRange(p))
            },
        },
    }
}

/// The endpoint holds exactly the configured address and port, whatever
/// they are; with the address missing the result is `MissingAddress`,
/// with only the port missing `MissingPort`. The printed endpoint reads
/// back as the configured address.
pub proof fn lemma_endpoint_is_configured(network: Network)
    ensures
        network.ip_addr is None ==> socket_address_spec(network) == Err::<SocketAddress, NetworkError>(
            NetworkError::MissingAddress,
        ),
        network.ip_addr is Some && network.port is None ==> socket_address_spec(network) == Err::<
            SocketAddress,
            NetworkError,
        >(NetworkError::MissingPort),
        network.ip_addr matches Some(ip) ==> (network.port matches Some(p) ==> (p <= 65535 ==> {
            &&& socket_address_spec(network) matches Ok(a)
            &&& a.ip == ip
            &&& a.port as u32 == p
            &&& crate::address::address_of(ipv4_text(a.ip)) == Some(ip)
        })),
{
    if let Some(ip) = network.ip_addr {
        crate::address::lemma_ipv4_text_roundtrip(ip);
    }
}

/// An IPv4 address in dotted decimal notation.
pub open spec fn ipv4_text(ip: Ipv4Address) -> Seq<char> {
    decimal(ip.0 as nat) + seq!['.'] + decimal(ip.1 as nat) + seq!['.'] + decimal(ip.2 as nat)
        + seq!['.'] + decimal(ip.3 as nat)
}

/// An endpoint as `SocketAddrV4` displays it: `a.b.c.d:port`.
pub open spec fn socket_address_text_spec(addr: SocketAddress) -> Seq<char> {
    ipv4_text(addr.ip) + seq![':'] + decimal(addr.port as nat)
}

/// An endpoint as `SocketAddrV4` displays it: `a.b.c.d:port`.
pub fn socket_address_text(addr: &SocketAddress) -> (r: String)
    ensures
        r@ == socket_address_text_spec(*addr),
{
    let mut r = String::new();
    push_decimal(&mut r, addr.ip.0 as u64);
    push_char(&mut r, '.');
    push_decimal(&mut r, addr.ip.1 as u64);
    push_char(&mut r, '.');
    push_decimal(&mut r, addr.ip.2 as u64);
    push_char(&mut r, '.');
    push_decimal(&mut r, addr.ip.3 as u64);
    push_char(&mut r, ':');
    push_decimal(&mut r, addr.port as u64);
    assert(r@ =~= socket_address_text_spec(*addr));
    r
}

/// The line printed when listening starts.
pub open spec fn listening_line_spec(addr: SocketAddress) -> Seq<char> {
    "Listening on: "@ + socket_address_text_spec(addr)
}

/// The line printed when listening starts: `Listening on: a.b.c.d:port`.
pub fn listening_line(addr: &SocketAddress) -> (r: String)
    ensures
        r@ == listening_line_spec(*addr),
{
    let mut r = copy_text("Listening on: ");
    let t = socket_address_text(addr);
    r.append(t.as_str());
    r
}

/// Trusted: calls `rand::random::<u16>()`. The key is random, so the
/// contract states nothing of it.
#[verifier::external_body]
fn generate_key() -> u16 {
    rand::random::<u16>()
}

/// The line that shows the key: `Key: <key>`.
pub open spec fn key_line_spec(key: u16) -> Seq<char> {
    "Key: "@ + decimal(key as nat)
}

/// The line that shows `key`.
pub fn key_line(key: u16) -> (r: String)
    ensures
        r@ == key_line_spec(key),
{
    let mut r = copy_text("Key: ");
    push_decimal(&mut r, key as u64);
    r
}

/// A fresh random key for a listener, with the line that shows it.
pub fn listener_key() -> (r: (u16, String))
    ensures
        r.1@ == key_line_spec(r.0),
{
    let key = generate_key();
    let line = key_line(key);
    (key, line)
}

/// The name of the file a received archive is written to.
pub fn received_archive_name() -> (r: String)
    ensures
        r@ == "network_archive.tar.zst"@,
{
    copy_text("network_archive.tar.zst")
}

/// The line printed once an archive has been received.
pub fn received_line() -> (r: String)
    ensures
        r@ == "Archive successfully recievied."@,
{
    copy_text("Archive successfully recievied.")
}

/// The line printed once the archive at `path` has been sent.
pub fn sent_line(path: &str) -> (r: String)
    ensures
        r@ == "Successfully sent archive: '"@ + path@ + "'"@,
{
    let mut r = copy_text("Successfully sent archive: '");
    r.append(path);
    r.append("'");
    r
}

} // verus!
