use ember_bridge::machine::MachineError;
use ember_bridge::net::{push_ip, IpAddress};

fn v6(segments: [u16; 8]) -> IpAddress {
    let mut v: u128 = 0;
    for s in segments {
        v = (v << 16) | s as u128;
    }
    IpAddress::V6(v)
}

fn text(ip: IpAddress) -> String {
    let mut s = String::new();
    push_ip(&mut s, ip);
    s
}

#[test]
fn unreachable_names_the_address() {
    assert_eq!(
        MachineError::Unreachable(IpAddress::v4(192, 168, 1, 4)).message(),
        "No supported machine responds at 192.168.1.4"
    );
    assert_eq!(
        MachineError::Unreachable(v6([0xfe80, 0, 0, 0, 0, 0, 0, 1])).message(),
        "No supported machine responds at fe80::1"
    );
}

#[test]
fn ipv4_text() {
    assert_eq!(text(IpAddress::v4(0, 0, 0, 0)), "0.0.0.0");
    assert_eq!(text(IpAddress::v4(10, 200, 3, 255)), "10.200.3.255");
    assert_eq!(text(IpAddress::v4(255, 255, 255, 255)), "255.255.255.255");
}

#[test]
fn ipv6_text() {
    assert_eq!(text(v6([0; 8])), "::");
    assert_eq!(text(v6([0, 0, 0, 0, 0, 0, 0, 1])), "::1");
    assert_eq!(text(v6([1, 0, 0, 0, 0, 0, 0, 0])), "1::");
    assert_eq!(text(v6([0x2001, 0xdb8, 0, 0, 0, 0xff00, 0x42, 0x8329])), "2001:db8::ff00:42:8329");
    assert_eq!(text(v6([1, 0, 1, 0, 1, 0, 1, 0])), "1:0:1:0:1:0:1:0");
    assert_eq!(text(v6([1, 0, 0, 1, 0, 0, 1, 1])), "1::1:0:0:1:1");
    assert_eq!(text(v6([1, 0, 0, 1, 0, 0, 0, 1])), "1:0:0:1::1");
    assert_eq!(text(v6([0, 0, 0, 0, 0, 0xffff, 0xc000, 0x0280])), "::ffff:192.0.2.128");
    assert_eq!(text(v6([0xabcd, 0xef01, 0x2345, 0x6789, 0xabcd, 0xef01, 0x2345, 0x6789])), "abcd:ef01:2345:6789:abcd:ef01:2345:6789");
}
