use pingw::bytes::{get_be16, get_ipv4, get_mac, put_be16, put_ipv4, put_mac};
use pingw::{Ipv4, MacAddr};

#[test]
fn be16_written_reads_back() {
    let mut buf = [0xaau8; 6];
    put_be16(&mut buf, 3, 0x0806);
    assert_eq!(buf, [0xaa, 0xaa, 0xaa, 0x08, 0x06, 0xaa]);
    assert_eq!(get_be16(&buf, 3), 0x0806);
    put_be16(&mut buf, 0, 0xffff);
    assert_eq!(get_be16(&buf, 0), 0xffff);
    assert_eq!(get_be16(&buf, 1), 0xffaa);
}

#[test]
fn mac_written_reads_back() {
    let m = MacAddr(1, 2, 3, 4, 5, 6);
    let mut buf = [0u8; 8];
    put_mac(&mut buf, 1, m);
    assert_eq!(buf, [0, 1, 2, 3, 4, 5, 6, 0]);
    assert_eq!(get_mac(&buf, 1), m);
}

#[test]
fn ipv4_written_reads_back() {
    let a = Ipv4(10, 0, 0, 254);
    let mut buf = [9u8; 5];
    put_ipv4(&mut buf, 0, a);
    assert_eq!(buf, [10, 0, 0, 254, 9]);
    assert_eq!(get_ipv4(&buf, 0), a);
}
