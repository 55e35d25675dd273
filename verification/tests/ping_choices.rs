use pingw::error::Error;
use pingw::ping::{select_source, Interface, IpAddress, PingOpts};
use pingw::{Ipv4, MacAddr, Span};

fn iface(name: &str, mac: Option<MacAddr>, ips: Vec<IpAddress>) -> Interface {
    Interface { name: name.to_string(), mac, ips }
}

const MAC: MacAddr = MacAddr(0x02, 0, 0, 0, 0, 0x09);

#[test]
fn default_options() {
    let o = PingOpts::default();
    assert_eq!(o.arp_timeout, Span { secs: 1, nanos: 0 });
    assert_eq!(o.reply_timeout, Span { secs: 2, nanos: 0 });
    assert_eq!(o.payload_size, 56);
    assert_eq!(o.ttl, 64);
    assert_eq!(o.identifier, None);
    assert_eq!(o.sequence, 1);
}

#[test]
fn identifier_given_or_fallback() {
    let mut o = PingOpts::default();
    assert_eq!(o.identifier_or(77), 77);
    o.identifier = Some(5);
    assert_eq!(o.identifier_or(77), 5);
    assert_eq!(o.choose_identifier(), 5);
}

#[test]
fn source_is_first_ipv4_of_named_interface() {
    let ifaces = vec![
        iface("lo", Some(MacAddr(0, 0, 0, 0, 0, 0)), vec![IpAddress::V4(Ipv4(127, 0, 0, 1))]),
        iface(
            "eth0",
            Some(MAC),
            vec![IpAddress::V6, IpAddress::V4(Ipv4(10, 0, 0, 5)), IpAddress::V4(Ipv4(10, 0, 0, 6))],
        ),
        iface("eth0", Some(MacAddr(1, 1, 1, 1, 1, 1)), vec![IpAddress::V4(Ipv4(10, 9, 9, 9))]),
    ];
    let s = select_source(&ifaces, "eth0").unwrap();
    assert_eq!(s.index, 1);
    assert_eq!(s.mac, MAC);
    assert_eq!(s.ip, Ipv4(10, 0, 0, 5));
}

#[test]
fn missing_interface() {
    let ifaces = vec![iface("lo", None, vec![])];
    match select_source(&ifaces, "eth1") {
        Err(Error::InterfaceNotFound(n)) => assert_eq!(n, "eth1"),
        other => panic!("unexpected {:?}", other),
    }
    assert!(matches!(select_source(&[], "eth1"), Err(Error::InterfaceNotFound(_))));
}

#[test]
fn interface_without_mac() {
    let ifaces = vec![iface("tun0", None, vec![IpAddress::V4(Ipv4(10, 8, 0, 2))])];
    match select_source(&ifaces, "tun0") {
        Err(Error::NoMacAddress(n)) => assert_eq!(n, "tun0"),
        other => panic!("unexpected {:?}", other),
    }
}

#[test]
fn interface_without_ipv4() {
    let ifaces = vec![iface("eth0", Some(MAC), vec![IpAddress::V6])];
    match select_source(&ifaces, "eth0") {
        Err(Error::NoIpv4Address(n)) => assert_eq!(n, "eth0"),
        other => panic!("unexpected {:?}", other),
    }
}
