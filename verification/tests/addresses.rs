use ddk::address::{Family, IpAddress};

fn v4(text: &str) -> [u8; 4] {
    match IpAddress::parse(text) {
        Some(IpAddress::V4(octets)) => octets,
        other => panic!("{text} is no dotted quad: {other:?}"),
    }
}

fn v6(text: &str) -> [u16; 8] {
    match IpAddress::parse(text) {
        Some(IpAddress::V6(segments)) => segments,
        other => panic!("{text} is no address of the second family: {other:?}"),
    }
}

#[test]
fn parses_dotted_quads() {
    assert_eq!(v4("203.0.113.9"), [203, 0, 113, 9]);
    assert_eq!(v4("0.0.0.0"), [0, 0, 0, 0]);
    assert_eq!(v4("255.255.255.255"), [255, 255, 255, 255]);
    assert_eq!(v4("1.2.3.4"), [1, 2, 3, 4]);
}

#[test]
fn refuses_what_is_no_dotted_quad() {
    for text in [
        "", "1", "1.2.3", "1.2.3.4.5", "256.1.1.1", "1.2.3.256", "01.2.3.4", "1.2.3.04", "1..3.4",
        ".1.2.3", "1.2.3.", "1.2.3.4 ", " 1.2.3.4", "1.2.3.a", "1,2,3,4", "1.2.3.4\n", "+1.2.3.4",
        "1.2.3.1000", "１.2.3.4",
    ] {
        assert!(IpAddress::parse(text).is_none(), "{text:?} was taken for an address");
    }
}

#[test]
fn parses_full_and_compressed_groups() {
    assert_eq!(v6("1:2:3:4:5:6:7:8"), [1, 2, 3, 4, 5, 6, 7, 8]);
    assert_eq!(v6("::"), [0; 8]);
    assert_eq!(v6("::1"), [0, 0, 0, 0, 0, 0, 0, 1]);
    assert_eq!(v6("1::"), [1, 0, 0, 0, 0, 0, 0, 0]);
    assert_eq!(v6("2001:db8::ff00:42:8329"), [0x2001, 0xdb8, 0, 0, 0, 0xff00, 0x42, 0x8329]);
    assert_eq!(v6("2001:DB8::FF00:42:8329"), [0x2001, 0xdb8, 0, 0, 0, 0xff00, 0x42, 0x8329]);
    assert_eq!(v6("0001:0002:0003:0004:0005:0006:0007:0008"), [1, 2, 3, 4, 5, 6, 7, 8]);
    assert_eq!(v6("1:2:3:4:5:6:7::"), [1, 2, 3, 4, 5, 6, 7, 0]);
    assert_eq!(v6("::2:3:4:5:6:7:8"), [0, 2, 3, 4, 5, 6, 7, 8]);
    assert_eq!(v6("ffff:ffff:ffff:ffff:ffff:ffff:ffff:ffff"), [0xffff; 8]);
}

#[test]
fn parses_a_dotted_quad_in_the_last_place() {
    assert_eq!(v6("::ffff:192.0.2.128"), [0, 0, 0, 0, 0, 0xffff, 0xc000, 0x0280]);
    assert_eq!(v6("::1.2.3.4"), [0, 0, 0, 0, 0, 0, 0x0102, 0x0304]);
    assert_eq!(v6("1:2:3:4:5:6:1.2.3.4"), [1, 2, 3, 4, 5, 6, 0x0102, 0x0304]);
    assert_eq!(v6("64:ff9b::192.0.2.33"), [0x64, 0xff9b, 0, 0, 0, 0, 0xc000, 0x0221]);
}

#[test]
fn refuses_what_is_no_address_of_the_second_family() {
    for text in [
        ":", ":::", "1:2:3:4:5:6:7", "1:2:3:4:5:6:7:8:9", "1:2:3:4:5:6:7:8::", "::1:2:3:4:5:6:7:8",
        "1::2::3", "12345::", "g::", ":1:2:3:4:5:6:7", "1:2:3:4:5:6:7:", "1:::2", "::1.2.3",
        "1.2.3.4::", "1:2:3:4:5:6:7:1.2.3.4", "1:2:3:4:5:6::1.2.3.4", "::1.2.3.4:5", "fe80::1%eth0",
        "::1 ", "[::1]", "::1.2.3.256", "::01.2.3.4",
    ] {
        assert!(IpAddress::parse(text).is_none(), "{text:?} was taken for an address");
    }
}

#[test]
fn writes_addresses_of_the_second_family_in_one_way() {
    for (given, written) in [
        ("::", "::"),
        ("::1", "::1"),
        ("1::", "1::"),
        ("0:0:0:0:0:0:0:0", "::"),
        ("2001:0db8:0000:0000:0000:ff00:0042:8329", "2001:db8::ff00:42:8329"),
        ("2001:DB8:0:0:1:0:0:1", "2001:db8::1:0:0:1"),
        ("1:0:0:2:0:0:0:3", "1:0:0:2::3"),
        ("1:0:2:0:3:0:4:0", "1:0:2:0:3:0:4:0"),
        ("0:1:2:3:4:5:6:7", "0:1:2:3:4:5:6:7"),
        ("1:2:3:4:5:6:0:0", "1:2:3:4:5:6::"),
        ("0:0:1:2:3:4:5:6", "::1:2:3:4:5:6"),
        ("::ffff:192.0.2.128", "::ffff:192.0.2.128"),
        ("::ffff:c000:280", "::ffff:192.0.2.128"),
        ("::1.2.3.4", "::102:304"),
        ("ABCD:EF01:2345:6789:abcd:ef01:2345:6789", "abcd:ef01:2345:6789:abcd:ef01:2345:6789"),
        ("10:100:1000:f:ff:fff:ffff:0", "10:100:1000:f:ff:fff:ffff:0"),
    ] {
        let address = IpAddress::parse(given).unwrap();
        assert_eq!(address.to_text(), written, "for {given}");
        assert_eq!(address.family(), Family::V6);
    }
}

#[test]
fn what_is_written_reads_back_as_the_same_address() {
    for text in ["203.0.113.9", "0.0.0.0", "2001:db8::1", "::ffff:10.0.0.1", "1:0:0:2::3", "::"] {
        let address = IpAddress::parse(text).unwrap();
        let again = IpAddress::parse(&address.to_text()).unwrap();
        assert!(address.same(&again));
        assert_eq!(address.to_text(), text);
    }
}

#[test]
fn tells_addresses_apart() {
    let a = IpAddress::parse("203.0.113.9").unwrap();
    let b = IpAddress::parse("203.0.113.5").unwrap();
    let c = IpAddress::parse("::cb00:7109").unwrap();
    assert!(a.same(&a));
    assert!(!a.same(&b));
    assert!(!a.same(&c));
    assert_eq!(a.family(), Family::V4);
}

#[test]
fn reads_and_writes_a_table_of_texts() {
    let table: [(&str, Option<&str>); 24] = [
        ("203.0.113.9", Some("203.0.113.9")),
        ("01.2.3.4", None),
        ("::", Some("::")),
        ("1:2:3:4:5:6:7:8", Some("1:2:3:4:5:6:7:8")),
        ("1:2:3:4:5:6:7::", Some("1:2:3:4:5:6:7:0")),
        ("::2:3:4:5:6:7:8", Some("0:2:3:4:5:6:7:8")),
        ("1:2:3:4:5:6:1.2.3.4", Some("1:2:3:4:5:6:102:304")),
        ("1:0:0:2:0:0:0:3", Some("1:0:0:2::3")),
        ("0:0:1:0:0:1:0:0", Some("::1:0:0:1:0:0")),
        (":", None),
        (":::", None),
        ("1::2::3", None),
        ("1:2:3:4:5:6::1.2.3.4", None),
        ("1:2:3:4:5::1.2.3.4", Some("1:2:3:4:5:0:102:304")),
        ("fe80::1%1", None),
        ("", None),
        (" ", None),
        ("1.2.3", None),
        ("::ffff:0:0", Some("::ffff:0.0.0.0")),
        ("0:0:0:0:0:ffff:1:2", Some("::ffff:0.1.0.2")),
        ("a:b:c:d:e:f:0:1", Some("a:b:c:d:e:f:0:1")),
        ("A:B::F", Some("a:b::f")),
        ("::0:0", Some("::")),
        ("0::0", Some("::")),
    ];
    for (text, expected) in table {
        let ours = IpAddress::parse(text).map(|a| a.to_text());
        assert_eq!(ours.as_deref(), expected, "for {text:?}");
    }
}
