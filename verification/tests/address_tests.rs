use mxc_service::ip::{parse_ip, IpAddr};
use mxc_service::ip_text::format_ip;
use mxc_service::wide::{encode_utf16, from_utf16_lossy, to_wide, units_to_bytes, wide_to_string};

#[test]
fn literals_are_parsed() {
    for (s, want) in [
        ("", None),
        (".", None),
        (":", None),
        ("::", Some(IpAddr::V6(0x0))),
        (":::", None),
        ("1", None),
        ("1.2.3", None),
        ("1.2.3.4", Some(IpAddr::V4(0x1020304))),
        ("1.2.3.4.5", None),
        ("01.2.3.4", None),
        ("0.0.0.0", Some(IpAddr::V4(0x0))),
        ("00.0.0.0", None),
        ("256.1.1.1", None),
        ("255.255.255.255", Some(IpAddr::V4(0xffffffff))),
        ("1.2.3.4 ", None),
        (" 1.2.3.4", None),
        ("1.2.3.-4", None),
        ("+1.2.3.4", None),
        ("::1", Some(IpAddr::V6(0x1))),
        ("1::", Some(IpAddr::V6(0x10000000000000000000000000000))),
        ("::1:2", Some(IpAddr::V6(0x10002))),
        ("1::2", Some(IpAddr::V6(0x10000000000000000000000000002))),
        ("1:2:3:4:5:6:7:8", Some(IpAddr::V6(0x10002000300040005000600070008))),
        ("1:2:3:4:5:6:7", None),
        ("1:2:3:4:5:6:7:8:9", None),
        ("1:2:3:4:5:6:7::", Some(IpAddr::V6(0x10002000300040005000600070000))),
        ("::2:3:4:5:6:7:8", Some(IpAddr::V6(0x2000300040005000600070008))),
        ("1::2::3", None),
        ("12345::", None),
        ("g::", None),
        ("::ffff:1.2.3.4", Some(IpAddr::V6(0xffff01020304))),
        ("::1.2.3.4", Some(IpAddr::V6(0x1020304))),
        ("1:2:3:4:5:6:1.2.3.4", Some(IpAddr::V6(0x10002000300040005000601020304))),
        ("1:2:3:4:5:6:7:1.2.3.4", None),
        ("1:2:3:4:5:1.2.3.4", None),
        ("::1.2.3", None),
        ("1.2.3.4::", None),
        ("1::1.2.3.4", Some(IpAddr::V6(0x10000000000000000000001020304))),
        ("1:2:3:4:5::1.2.3.4", Some(IpAddr::V6(0x10002000300040005000001020304))),
        ("1:2:3:4:5:6::1.2.3.4", None),
        ("FE80::ABCD", Some(IpAddr::V6(0xfe80000000000000000000000000abcd))),
        ("[::1]", None),
        ("::01", Some(IpAddr::V6(0x1))),
        ("::0001", Some(IpAddr::V6(0x1))),
        ("::00001", None),
        ("0:0:0:0:0:0:0:0", Some(IpAddr::V6(0x0))),
        ("2001:db8::8a2e:370:7334", Some(IpAddr::V6(0x20010db80000000000008a2e03707334))),
        ("not.an.ip", None),
        ("1:2:3:4:5:6:7:", None),
        (":1:2:3:4:5:6:7", None),
        ("1.2.3.", None),
        (".1.2.3", None),
        ("1..2.3", None),
        ("1.2.3.4:80", None),
        ("::ffff:01.2.3.4", None),
        ("1:2:3:4::5:6:7:8", None),
        ("1:2:3::5:6:7:8", Some(IpAddr::V6(0x10002000300000005000600070008))),
        ("2001:4860:4860::8888", Some(IpAddr::V6(0x20014860486000000000000000008888))),
        ("::ffff:0:0", Some(IpAddr::V6(0xffff00000000))),
        ("64:ff9b::192.0.2.33", Some(IpAddr::V6(0x64ff9b0000000000000000c0000221))),
        ("1000.1.1.1", None),
        ("fe80::1%eth0", None),
        ("\u{0661}.1.1.1", None),
    ] {
        assert_eq!(parse_ip(s), want, "{s:?}");
    }
}

#[test]
fn addresses_are_printed_and_read_back() {
    for (ip, want) in [
        (IpAddr::V4(0x00000000), "0.0.0.0"),
        (IpAddr::V4(0x00000001), "0.0.0.1"),
        (IpAddr::V4(0x7f000001), "127.0.0.1"),
        (IpAddr::V4(0x01020304), "1.2.3.4"),
        (IpAddr::V4(0xffffffff), "255.255.255.255"),
        (IpAddr::V4(0x0a0000ff), "10.0.0.255"),
        (IpAddr::V4(0x64640909), "100.100.9.9"),
        (IpAddr::V6(0x0), "::"),
        (IpAddr::V6(0x1), "::1"),
        (IpAddr::V6(0x1020304), "::102:304"),
        (IpAddr::V6(0x20010db80000000000008a2e03707334), "2001:db8::8a2e:370:7334"),
        (IpAddr::V6(0x10000000000010000000000000001), "1:0:0:1::1"),
        (IpAddr::V6(0x10000000000010000000000010001), "1::1:0:0:1:1"),
        (IpAddr::V6(0x10000000100010001000100010001), "1:0:1:1:1:1:1:1"),
        (IpAddr::V6(0xfe800000000000000000000000000000), "fe80::"),
        (IpAddr::V6(0x10000), "::1:0"),
        (IpAddr::V6(0xffffffffffffffffffffffffffffffff), "ffff:ffff:ffff:ffff:ffff:ffff:ffff:ffff"),
        (IpAddr::V6(0x10002000300040005000600070008), "1:2:3:4:5:6:7:8"),
        (IpAddr::V6(0x2000300040005000600070000), "0:2:3:4:5:6:7:0"),
        (IpAddr::V6(0x64ff9b0000000000000000c0000221), "64:ff9b::c000:221"),
        (IpAddr::V6(0xffff_0102_0304), "::ffff:1.2.3.4"),
    ] {
        assert_eq!(format_ip(ip), want);
        assert_eq!(parse_ip(want), Some(ip));
    }
}

#[test]
fn wide_texts_are_those_of_the_standard_library() {
    for s in ["", "mxc-service", "é→\u{1f600}x", "\u{ffff}\u{10000}\u{10ffff}"] {
        let want: Vec<u16> = s.encode_utf16().collect();
        assert_eq!(encode_utf16(s), want);
        let mut terminated = want.clone();
        terminated.push(0);
        assert_eq!(to_wide(s), terminated);
        terminated.extend_from_slice(&[65, 66]);
        assert_eq!(wide_to_string(&terminated), s);
        assert_eq!(from_utf16_lossy(&want), s);
    }
}

#[test]
fn lone_halves_are_replaced() {
    for units in [
        vec![0xd800u16],
        vec![0xd800, 0x41],
        vec![0xdc00, 0xd800, 0xdc00],
        vec![0xd800, 0xd800, 0xdc01],
        vec![0x41, 0xdfff],
        vec![0xd83d, 0xde00],
    ] {
        assert_eq!(from_utf16_lossy(&units), String::from_utf16_lossy(&units));
    }
}

#[test]
fn buffer_without_a_zero_is_read_to_its_end() {
    assert_eq!(wide_to_string(&[0x41, 0x42]), "AB");
    assert_eq!(wide_to_string(&[0, 0x42]), "");
}

#[test]
fn units_become_little_endian_bytes() {
    assert_eq!(units_to_bytes(&[0x4142, 0x0043]), vec![0x42, 0x41, 0x43, 0x00]);
}
