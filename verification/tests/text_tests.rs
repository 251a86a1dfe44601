use netcapture::text::{ipv4_string, ipv6_string, push_dec_u8, push_hex_u16};

fn dec(n: u8) -> String {
    let mut s = String::new();
    push_dec_u8(&mut s, n);
    s
}

fn hex(n: u16) -> String {
    let mut s = String::new();
    push_hex_u16(&mut s, n);
    s
}

#[test]
fn decimal_octets_have_no_leading_zeros() {
    assert_eq!(dec(0), "0");
    assert_eq!(dec(7), "7");
    assert_eq!(dec(10), "10");
    assert_eq!(dec(42), "42");
    assert_eq!(dec(100), "100");
    assert_eq!(dec(255), "255");
}

#[test]
fn hex_groups_are_lowercase_without_leading_zeros() {
    assert_eq!(hex(0), "0");
    assert_eq!(hex(0xf), "f");
    assert_eq!(hex(0x10), "10");
    assert_eq!(hex(0xabc), "abc");
    assert_eq!(hex(0x1000), "1000");
    assert_eq!(hex(0xffff), "ffff");
}

#[test]
fn dotted_quad_rendering() {
    assert_eq!(ipv4_string(192, 168, 1, 10), "192.168.1.10");
    assert_eq!(ipv4_string(0, 0, 0, 0), "0.0.0.0");
    assert_eq!(ipv4_string(255, 255, 255, 255), "255.255.255.255");
}

#[test]
fn compressed_ipv6_rendering() {
    assert_eq!(ipv6_string(&vec![0x2001, 0xdb8, 0, 0, 0, 0, 0, 0x1]), "2001:db8::1");
    assert_eq!(ipv6_string(&vec![0, 0, 0, 0, 0, 0, 0, 0]), "::");
    assert_eq!(ipv6_string(&vec![1, 0, 2, 0, 3, 0, 4, 0]), "1:0:2:0:3:0:4:0");
    assert_eq!(ipv6_string(&vec![0, 0, 0, 0, 0, 0xffff, 0xa00, 0x2ff]), "::ffff:10.0.2.255");
}
