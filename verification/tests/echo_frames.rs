use pingw::echo::{echo_request_summable, match_reply, payload_byte, EchoFrame, EchoReply, EchoWait};
use pingw::error::Error;
use pingw::{Ipv4, MacAddr, Span};

use pnet::packet::ethernet::{EtherTypes, EthernetPacket};
use pnet::packet::icmp::echo_request::EchoRequestPacket;
use pnet::packet::icmp::{IcmpPacket, IcmpTypes};
use pnet::packet::ip::IpNextHeaderProtocols;
use pnet::packet::ipv4::{Ipv4Flags, Ipv4Packet};
use pnet::packet::Packet;

const OUR_MAC: MacAddr = MacAddr(0x02, 0x00, 0x00, 0x00, 0x00, 0x01);
const GW_MAC: MacAddr = MacAddr(0x02, 0x00, 0x00, 0x00, 0x00, 0x02);
const OUR_IP: Ipv4 = Ipv4(192, 168, 1, 10);
const TARGET: Ipv4 = Ipv4(8, 8, 8, 8);

fn sample() -> EchoFrame {
    EchoFrame::request_with_ident(OUR_MAC, GW_MAC, OUR_IP, TARGET, 64, 0x1234, 0xbeef, 1, 56)
}

/// The reply a host sends back for `req`: addresses swapped, echo reply type.
fn reflect(req: &[u8], ttl: u8) -> Vec<u8> {
    let mut f = req.to_vec();
    f[0..6].copy_from_slice(&req[6..12]);
    f[6..12].copy_from_slice(&req[0..6]);
    f[22] = ttl;
    f[26..30].copy_from_slice(&req[30..34]);
    f[30..34].copy_from_slice(&req[26..30]);
    f[34] = 0;
    f
}

#[test]
fn echo_request_bytes_are_exact() {
    let f = sample();
    let mut expected: Vec<u8> = vec![
        2, 0, 0, 0, 0, 2, 2, 0, 0, 0, 0, 1, 8, 0, 69, 0, 0, 84, 18, 52, 64, 0, 64, 1, 86, 179,
        192, 168, 1, 10, 8, 8, 8, 8, 8, 0, 65, 252, 190, 239, 0, 1,
    ];
    expected.extend((0..56u8).collect::<Vec<u8>>());
    assert_eq!(f.as_bytes(), &expected[..]);
}

#[test]
fn echo_request_reads_back_with_pnet() {
    let f = sample();
    let eth = EthernetPacket::new(f.as_bytes()).unwrap();
    assert_eq!(eth.get_destination(), pnet::util::MacAddr(2, 0, 0, 0, 0, 2));
    assert_eq!(eth.get_source(), pnet::util::MacAddr(2, 0, 0, 0, 0, 1));
    assert_eq!(eth.get_ethertype(), EtherTypes::Ipv4);
    let ip = Ipv4Packet::new(eth.payload()).unwrap();
    assert_eq!(ip.get_version(), 4);
    assert_eq!(ip.get_header_length(), 5);
    assert_eq!(ip.get_total_length(), 84);
    assert_eq!(ip.get_identification(), 0x1234);
    assert_eq!(ip.get_flags(), Ipv4Flags::DontFragment);
    assert_eq!(ip.get_ttl(), 64);
    assert_eq!(ip.get_next_level_protocol(), IpNextHeaderProtocols::Icmp);
    assert_eq!(ip.get_source().octets(), [192, 168, 1, 10]);
    assert_eq!(ip.get_destination().octets(), [8, 8, 8, 8]);
    assert_eq!(ip.get_checksum(), pnet::packet::ipv4::checksum(&ip));
    let icmp = IcmpPacket::new(ip.payload()).unwrap();
    assert_eq!(icmp.get_icmp_type(), IcmpTypes::EchoRequest);
    assert_eq!(icmp.get_checksum(), pnet::packet::icmp::checksum(&icmp));
    let echo = EchoRequestPacket::new(ip.payload()).unwrap();
    assert_eq!(echo.get_identifier(), 0xbeef);
    assert_eq!(echo.get_sequence_number(), 1);
    assert_eq!(echo.payload(), &(0..56u8).collect::<Vec<u8>>()[..]);
}

#[test]
fn checksums_are_filled_in() {
    let f = sample();
    let b = f.as_bytes();
    assert_eq!(&b[24..26], &[0x56, 0xb3]);
    assert_eq!(&b[36..38], &[0x41, 0xfc]);
}

#[test]
fn random_identification_keeps_the_header_valid() {
    let f = EchoFrame::request(OUR_MAC, GW_MAC, OUR_IP, TARGET, 7, 9, 3, 0);
    let b = f.as_bytes();
    assert_eq!(b.len(), 42);
    let ip = Ipv4Packet::new(&b[14..]).unwrap();
    assert_eq!(ip.get_ttl(), 7);
    assert_eq!(ip.get_total_length(), 28);
    assert_eq!(ip.get_checksum(), pnet::packet::ipv4::checksum(&ip));
    let icmp = IcmpPacket::new(&b[34..]).unwrap();
    assert_eq!(icmp.get_checksum(), pnet::packet::icmp::checksum(&icmp));
}

#[test]
fn frame_is_built_step_by_step() {
    let mut f = EchoFrame::with_payload(3);
    assert_eq!(f.as_bytes(), &[0u8; 45][..]);
    f.write_ethernet(OUR_MAC, GW_MAC);
    assert_eq!(&f.as_bytes()[..14], &[2, 0, 0, 0, 0, 2, 2, 0, 0, 0, 0, 1, 8, 0]);
    assert_eq!(&f.as_bytes()[14..], &[0u8; 31][..]);
    f.write_ipv4_ident(OUR_IP, TARGET, 64, 0);
    assert_eq!(&f.as_bytes()[14..18], &[0x45, 0, 0, 31]);
    f.write_icmp_echo(1, 2);
    assert_eq!(&f.as_bytes()[34..], &[8, 0, 0xf5, 0xfb, 0, 1, 0, 2, 0, 1, 2]);
}

#[test]
fn payload_counts_modulo_256() {
    assert_eq!(payload_byte(0), 0);
    assert_eq!(payload_byte(255), 255);
    assert_eq!(payload_byte(256), 0);
    assert_eq!(payload_byte(300), 44);
    let f = EchoFrame::request_with_ident(OUR_MAC, GW_MAC, OUR_IP, TARGET, 64, 1, 1, 1, 300);
    assert_eq!(f.as_bytes()[42 + 256], 0);
    assert_eq!(f.as_bytes()[42 + 299], 43);
}

#[test]
fn reflected_request_is_the_reply() {
    let req = sample();
    let reply = reflect(req.as_bytes(), 117);
    assert_eq!(
        match_reply(&reply, OUR_IP, TARGET, 0xbeef, 1),
        Some(EchoReply { ttl: 117, bytes: 64 })
    );
}

#[test]
fn own_request_is_not_the_reply() {
    let req = sample();
    assert_eq!(match_reply(req.as_bytes(), OUR_IP, TARGET, 0xbeef, 1), None);
    assert_eq!(match_reply(req.as_bytes(), TARGET, OUR_IP, 0xbeef, 1), None);
}

#[test]
fn reply_to_another_request_is_passed_over() {
    let reply = reflect(sample().as_bytes(), 64);
    assert_eq!(match_reply(&reply, OUR_IP, TARGET, 0xbeee, 1), None);
    assert_eq!(match_reply(&reply, OUR_IP, TARGET, 0xbeef, 2), None);
    assert_eq!(match_reply(&reply, OUR_IP, Ipv4(1, 1, 1, 1), 0xbeef, 1), None);
    assert_eq!(match_reply(&reply, Ipv4(10, 0, 0, 1), TARGET, 0xbeef, 1), None);
    let mut udp = reply.clone();
    udp[23] = 17;
    assert_eq!(match_reply(&udp, OUR_IP, TARGET, 0xbeef, 1), None);
    let mut arp = reply.clone();
    arp[13] = 6;
    assert_eq!(match_reply(&arp, OUR_IP, TARGET, 0xbeef, 1), None);
}

#[test]
fn reply_length_comes_from_the_header() {
    let mut reply = reflect(sample().as_bytes(), 64);
    // a frame padded on the link: the length still comes from the header
    reply.extend_from_slice(&[0u8; 10]);
    assert_eq!(match_reply(&reply, OUR_IP, TARGET, 0xbeef, 1), Some(EchoReply { ttl: 64, bytes: 64 }));
    // a header that claims more than the frame holds
    let mut long = reflect(sample().as_bytes(), 64);
    long[16] = 0x01;
    long[17] = 0x00;
    assert_eq!(match_reply(&long, OUR_IP, TARGET, 0xbeef, 1), Some(EchoReply { ttl: 64, bytes: 236 }));
    // a total length that leaves less than the echo header
    let mut short = reflect(sample().as_bytes(), 64);
    short[16] = 0;
    short[17] = 27;
    assert_eq!(match_reply(&short, OUR_IP, TARGET, 0xbeef, 1), None);
    // a frame cut inside the IPv4 header
    assert_eq!(match_reply(&reply[..33], OUR_IP, TARGET, 0xbeef, 1), None);
}

#[test]
fn ip_options_move_the_message() {
    let base = reflect(sample().as_bytes(), 64);
    // insert four bytes of options after the fixed header
    let mut f = base[..34].to_vec();
    f.extend_from_slice(&[1, 1, 1, 1]);
    f.extend_from_slice(&base[34..]);
    f[14] = 0x46;
    f[16] = 0;
    f[17] = 88;
    assert_eq!(match_reply(&f, OUR_IP, TARGET, 0xbeef, 1), Some(EchoReply { ttl: 64, bytes: 64 }));
    // read at the fixed place, it would not match
    f[14] = 0x45;
    assert_eq!(match_reply(&f, OUR_IP, TARGET, 0xbeef, 1), None);
}

#[test]
fn echo_wait_times_out_at_the_deadline() {
    let wait = EchoWait { our_ip: OUR_IP, peer_ip: TARGET, identifier: 0xbeef, sequence: 1, timeout: Span::from_secs(2) };
    assert!(wait.check_deadline(Span { secs: 1, nanos: 999_999_999 }).is_ok());
    match wait.check_deadline(Span::from_secs(2)) {
        Err(Error::EchoTimeout(ip, t)) => {
            assert_eq!(ip, TARGET);
            assert_eq!(t, Span::from_secs(2));
        }
        other => panic!("unexpected {:?}", other),
    }
    let reply = reflect(sample().as_bytes(), 50);
    assert_eq!(wait.accept(&reply), Some(EchoReply { ttl: 50, bytes: 64 }));
    assert_eq!(wait.accept(sample().as_bytes()), None);
}

#[test]
fn summable_up_to_the_overflow_of_pnet_sum() {
    assert!(echo_request_summable(1, 1, 0));
    assert!(echo_request_summable(1, 1, 56));
    assert!(echo_request_summable(1, 1, 263200));
    assert!(!echo_request_summable(1, 1, 263201));
    assert!(echo_request_summable(0xffff, 0xffff, 263164));
    assert!(!echo_request_summable(0xffff, 0xffff, 263165));
    assert!(!echo_request_summable(1, 1, usize::MAX));
}

fn verifies(d: &[u8]) -> bool {
    let mut sum: u64 = 0;
    for pair in d.chunks(2) {
        let hi = u64::from(pair[0]) << 8;
        let lo = if pair.len() == 2 { u64::from(pair[1]) } else { 0 };
        sum += hi | lo;
    }
    while sum >> 16 != 0 {
        sum = (sum >> 16) + (sum & 0xffff);
    }
    sum == 0xffff
}

#[test]
fn both_checksums_verify() {
    for n in [0usize, 1, 56, 57, 1400, 70001] {
        let f = EchoFrame::request(OUR_MAC, GW_MAC, OUR_IP, TARGET, 64, 0xbeef, 9, n);
        let b = f.as_bytes();
        assert!(verifies(&b[14..34]));
        assert!(verifies(&b[34..]));
    }
}
