use pingw::arp::{build_request, reply_sender, ArpWait};
use pingw::error::{check_sent, Error};
use pingw::{Ipv4, MacAddr, Span};

use pnet::packet::arp::{ArpHardwareTypes, ArpOperations, ArpPacket, MutableArpPacket};
use pnet::packet::ethernet::{EtherTypes, EthernetPacket, MutableEthernetPacket};
use pnet::packet::{MutablePacket, Packet};

const OUR_MAC: MacAddr = MacAddr(0x02, 0x00, 0x00, 0x00, 0x00, 0x01);
const GW_MAC: MacAddr = MacAddr(0x02, 0x00, 0x00, 0x00, 0x00, 0x02);
const OUR_IP: Ipv4 = Ipv4(192, 168, 1, 10);
const GW_IP: Ipv4 = Ipv4(192, 168, 1, 1);

fn pnet_mac(m: MacAddr) -> pnet::util::MacAddr {
    pnet::util::MacAddr(m.0, m.1, m.2, m.3, m.4, m.5)
}

fn octets(a: Ipv4) -> [u8; 4] {
    [a.0, a.1, a.2, a.3]
}

/// A reply frame written with pnet's own packet types.
fn pnet_reply(op: pnet::packet::arp::ArpOperation, sender: Ipv4, target: Ipv4) -> Vec<u8> {
    let mut buf = vec![0u8; 42];
    let mut eth = MutableEthernetPacket::new(&mut buf).unwrap();
    eth.set_destination(pnet_mac(OUR_MAC));
    eth.set_source(pnet_mac(GW_MAC));
    eth.set_ethertype(EtherTypes::Arp);
    let mut arp = MutableArpPacket::new(eth.payload_mut()).unwrap();
    arp.set_hardware_type(ArpHardwareTypes::Ethernet);
    arp.set_protocol_type(EtherTypes::Ipv4);
    arp.set_hw_addr_len(6);
    arp.set_proto_addr_len(4);
    arp.set_operation(op);
    arp.set_sender_hw_addr(pnet_mac(GW_MAC));
    arp.set_sender_proto_addr(octets(sender).into());
    arp.set_target_hw_addr(pnet_mac(OUR_MAC));
    arp.set_target_proto_addr(octets(target).into());
    buf
}

#[test]
fn arp_request_bytes_are_exact() {
    let mut buf = [0u8; 42];
    build_request(&mut buf, OUR_MAC, OUR_IP, GW_IP);
    let expected: [u8; 42] = [
        0xff, 0xff, 0xff, 0xff, 0xff, 0xff, 2, 0, 0, 0, 0, 1, 0x08, 0x06, 0x00, 0x01, 0x08, 0x00,
        6, 4, 0x00, 0x01, 2, 0, 0, 0, 0, 1, 192, 168, 1, 10, 0, 0, 0, 0, 0, 0, 192, 168, 1, 1,
    ];
    assert_eq!(buf, expected);
}

#[test]
fn arp_request_reads_back_with_pnet() {
    let mut buf = [0x5au8; 42];
    build_request(&mut buf, OUR_MAC, OUR_IP, GW_IP);
    let eth = EthernetPacket::new(&buf).unwrap();
    assert_eq!(eth.get_destination(), pnet::util::MacAddr::broadcast());
    assert_eq!(eth.get_source(), pnet_mac(OUR_MAC));
    assert_eq!(eth.get_ethertype(), EtherTypes::Arp);
    let arp = ArpPacket::new(eth.payload()).unwrap();
    assert_eq!(arp.get_hardware_type(), ArpHardwareTypes::Ethernet);
    assert_eq!(arp.get_protocol_type(), EtherTypes::Ipv4);
    assert_eq!(arp.get_hw_addr_len(), 6);
    assert_eq!(arp.get_proto_addr_len(), 4);
    assert_eq!(arp.get_operation(), ArpOperations::Request);
    assert_eq!(arp.get_sender_hw_addr(), pnet_mac(OUR_MAC));
    assert_eq!(arp.get_sender_proto_addr().octets(), octets(OUR_IP));
    assert_eq!(arp.get_target_hw_addr(), pnet::util::MacAddr::zero());
    assert_eq!(arp.get_target_proto_addr().octets(), octets(GW_IP));
}

#[test]
fn request_leaves_the_rest_of_a_longer_buffer() {
    let mut buf = [0x77u8; 50];
    build_request(&mut buf, OUR_MAC, OUR_IP, GW_IP);
    assert_eq!(&buf[42..], &[0x77u8; 8]);
    assert_eq!(buf[12], 0x08);
}

#[test]
fn reply_yields_gateway_mac() {
    let frame = pnet_reply(ArpOperations::Reply, GW_IP, OUR_IP);
    assert_eq!(reply_sender(&frame, OUR_IP, GW_IP), Some(GW_MAC));
}

#[test]
fn reply_with_trailing_padding_is_accepted() {
    let mut frame = pnet_reply(ArpOperations::Reply, GW_IP, OUR_IP);
    frame.extend_from_slice(&[0u8; 18]);
    assert_eq!(reply_sender(&frame, OUR_IP, GW_IP), Some(GW_MAC));
}

#[test]
fn arp_request_is_not_taken_for_reply() {
    let mut buf = [0u8; 42];
    build_request(&mut buf, OUR_MAC, OUR_IP, GW_IP);
    assert_eq!(reply_sender(&buf, OUR_IP, GW_IP), None);
    assert_eq!(reply_sender(&buf, GW_IP, OUR_IP), None);
    let frame = pnet_reply(ArpOperations::Request, GW_IP, OUR_IP);
    assert_eq!(reply_sender(&frame, OUR_IP, GW_IP), None);
}

#[test]
fn reply_about_other_addresses_is_passed_over() {
    let other = Ipv4(192, 168, 1, 2);
    let frame = pnet_reply(ArpOperations::Reply, other, OUR_IP);
    assert_eq!(reply_sender(&frame, OUR_IP, GW_IP), None);
    let frame = pnet_reply(ArpOperations::Reply, GW_IP, other);
    assert_eq!(reply_sender(&frame, OUR_IP, GW_IP), None);
}

#[test]
fn short_or_foreign_frames_are_passed_over() {
    let frame = pnet_reply(ArpOperations::Reply, GW_IP, OUR_IP);
    assert_eq!(reply_sender(&frame[..41], OUR_IP, GW_IP), None);
    assert_eq!(reply_sender(&frame[..10], OUR_IP, GW_IP), None);
    assert_eq!(reply_sender(&[], OUR_IP, GW_IP), None);
    let mut ipv4 = frame.clone();
    ipv4[13] = 0x00;
    assert_eq!(reply_sender(&ipv4, OUR_IP, GW_IP), None);
}

#[test]
fn arp_wait_times_out_at_the_deadline() {
    let wait = ArpWait { src_ip: OUR_IP, target_ip: GW_IP, timeout: Span::from_secs(1) };
    assert!(wait.check_deadline(Span { secs: 0, nanos: 0 }).is_ok());
    assert!(wait.check_deadline(Span { secs: 0, nanos: 999_999_999 }).is_ok());
    match wait.check_deadline(Span::from_secs(1)) {
        Err(Error::ArpTimeout(ip, t)) => {
            assert_eq!(ip, GW_IP);
            assert_eq!(t, Span::from_secs(1));
        }
        other => panic!("unexpected {:?}", other),
    }
    assert!(matches!(wait.check_deadline(Span { secs: 5, nanos: 0 }), Err(Error::ArpTimeout(_, Span { secs: 1, nanos: 0 }))));
    // more seconds count whatever the nanoseconds
    assert!(wait.check_deadline(Span { secs: 2, nanos: 0 }).is_err());
    let subsecond = ArpWait { src_ip: OUR_IP, target_ip: GW_IP, timeout: Span { secs: 0, nanos: 500 } };
    assert!(subsecond.check_deadline(Span { secs: 0, nanos: 499 }).is_ok());
    assert!(subsecond.check_deadline(Span { secs: 0, nanos: 500 }).is_err());
    let frame = pnet_reply(ArpOperations::Reply, GW_IP, OUR_IP);
    assert_eq!(wait.accept(&frame), Some(GW_MAC));
}

#[test]
fn send_outcomes() {
    assert!(check_sent(Some(Ok(()))).is_ok());
    assert!(matches!(check_sent(None), Err(Error::SendDropped)));
    let e = std::io::Error::new(std::io::ErrorKind::Other, "link down");
    match check_sent(Some(Err(e))) {
        Err(Error::Io(e)) => assert_eq!(e.to_string(), "link down"),
        other => panic!("unexpected {:?}", other),
    }
}

#[test]
fn well_known_addresses() {
    assert_eq!(MacAddr::broadcast(), MacAddr(0xff, 0xff, 0xff, 0xff, 0xff, 0xff));
    assert_eq!(MacAddr::zero(), MacAddr(0, 0, 0, 0, 0, 0));
}

#[test]
fn io_error_converts_into_error() {
    let e: Error = std::io::Error::new(std::io::ErrorKind::Other, "boom").into();
    assert!(matches!(e, Error::Io(_)));
}
