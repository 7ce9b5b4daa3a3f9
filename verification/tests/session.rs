use clash_lib::interface::Interface;
use clash_lib::session::{IpAddress, Network, Session, SocketAddress, SocksAddr, UdpPacket};

fn addr() -> SocketAddress {
    SocketAddress { ip: IpAddress::V6(1), port: 8080 }
}

#[test]
fn socks_addr_knows_what_it_is() {
    let ip = SocksAddr::from_socket_addr(addr());
    assert!(!ip.is_domain());
    assert_eq!(ip.try_into_socket_addr(), Some(addr()));
    assert_eq!(ip.must_into_socket_addr(), addr());
    let domain = SocksAddr::Domain("example.com".to_string(), 80);
    assert!(domain.is_domain());
    assert_eq!(domain.try_into_socket_addr(), None);
    let copy = domain.clone();
    assert!(matches!(copy, SocksAddr::Domain(d, 80) if d == "example.com"));
}

#[test]
fn session_and_packet_clone_field_by_field() {
    let sess = Session {
        network: Network::Udp,
        source: addr(),
        destination: SocksAddr::Domain("example.com".to_string(), 80),
        outbound_target: "direct".to_string(),
    };
    let copy = sess.clone();
    assert_eq!(copy.network, Network::Udp);
    assert_eq!(copy.source, addr());
    assert_eq!(copy.outbound_target, "direct");
    assert!(matches!(copy.destination, SocksAddr::Domain(d, 80) if d == "example.com"));
    let packet = UdpPacket {
        data: vec![1, 2, 3],
        src_addr: SocksAddr::Ip(addr()),
        dst_addr: SocksAddr::Domain("example.com".to_string(), 80),
    };
    let copy = packet.clone();
    assert_eq!(copy.data, vec![1, 2, 3]);
    assert!(matches!(copy.src_addr, SocksAddr::Ip(a) if a == addr()));
    assert!(matches!(copy.dst_addr, SocksAddr::Domain(d, 80) if d == "example.com"));
}

#[test]
fn interface_by_address() {
    let ip = IpAddress::V4(0x7f00_0001);
    assert_eq!(Interface::IpAddr(ip).into_ip_addr(), Some(ip));
    assert_eq!(Interface::IpAddr(ip).into_socket_addr(), Some(SocketAddress { ip, port: 0 }));
    assert_eq!(Interface::IpAddr(ip).into_iface_name(), None);
    assert!(matches!(Interface::IpAddr(ip).clone(), Interface::IpAddr(a) if a == ip));
}

#[test]
fn interface_by_name() {
    let name = || Interface::Name("eth0".to_string());
    assert_eq!(name().into_ip_addr(), None);
    assert_eq!(name().into_socket_addr(), None);
    assert_eq!(name().into_iface_name(), Some("eth0".to_string()));
    assert!(matches!(name().clone(), Interface::Name(n) if n == "eth0"));
}
