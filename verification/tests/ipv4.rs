use gandi_dyndns::ipv4::Ipv4;

#[test]
fn parses_a_dotted_quad() {
    assert_eq!(Ipv4::parse("203.0.113.5"), Some(Ipv4::new(203, 0, 113, 5)));
}

#[test]
fn parses_the_smallest_and_the_largest_address() {
    assert_eq!(Ipv4::parse("0.0.0.0"), Some(Ipv4::new(0, 0, 0, 0)));
    assert_eq!(Ipv4::parse("255.255.255.255"), Some(Ipv4::new(255, 255, 255, 255)));
}

#[test]
fn parses_octets_of_every_length() {
    assert_eq!(Ipv4::parse("1.22.133.9"), Some(Ipv4::new(1, 22, 133, 9)));
    assert_eq!(Ipv4::parse("10.100.99.200"), Some(Ipv4::new(10, 100, 99, 200)));
}

#[test]
fn refuses_an_octet_over_255() {
    assert_eq!(Ipv4::parse("256.0.0.1"), None);
    assert_eq!(Ipv4::parse("1.2.3.999"), None);
    assert_eq!(Ipv4::parse("1.2.3.1000"), None);
}

#[test]
fn refuses_leading_zeros() {
    assert_eq!(Ipv4::parse("01.2.3.4"), None);
    assert_eq!(Ipv4::parse("1.2.3.04"), None);
    assert_eq!(Ipv4::parse("1.2.003.4"), None);
    assert_eq!(Ipv4::parse("00.0.0.0"), None);
}

#[test]
fn refuses_the_wrong_number_of_octets() {
    assert_eq!(Ipv4::parse(""), None);
    assert_eq!(Ipv4::parse("1"), None);
    assert_eq!(Ipv4::parse("1.2.3"), None);
    assert_eq!(Ipv4::parse("1.2.3.4.5"), None);
}

#[test]
fn refuses_stray_dots() {
    assert_eq!(Ipv4::parse("1.2.3.4."), None);
    assert_eq!(Ipv4::parse(".1.2.3.4"), None);
    assert_eq!(Ipv4::parse("1..2.3"), None);
    assert_eq!(Ipv4::parse("1.2.3."), None);
    assert_eq!(Ipv4::parse("..."), None);
}

#[test]
fn refuses_anything_but_digits_and_dots() {
    assert_eq!(Ipv4::parse(" 1.2.3.4"), None);
    assert_eq!(Ipv4::parse("1.2.3.4 "), None);
    assert_eq!(Ipv4::parse("+1.2.3.4"), None);
    assert_eq!(Ipv4::parse("1.2.3.-4"), None);
    assert_eq!(Ipv4::parse("0x1.2.3.4"), None);
    assert_eq!(Ipv4::parse("a.b.c.d"), None);
    assert_eq!(Ipv4::parse("1.2.3.4\u{663}"), None);
    assert_eq!(Ipv4::parse("example.com."), None);
}

#[test]
fn writes_a_dotted_quad() {
    assert_eq!(Ipv4::new(208, 67, 222, 222).to_string(), "208.67.222.222");
    assert_eq!(Ipv4::new(203, 0, 113, 5).to_string(), "203.0.113.5");
    assert_eq!(Ipv4::new(0, 0, 0, 0).to_string(), "0.0.0.0");
    assert_eq!(Ipv4::new(255, 255, 255, 255).to_string(), "255.255.255.255");
    assert_eq!(Ipv4::new(10, 99, 100, 109).to_string(), "10.99.100.109");
}

#[test]
fn reading_what_was_written_gives_the_address_back() {
    let samples = [0u8, 1, 9, 10, 11, 99, 100, 101, 109, 110, 199, 200, 249, 250, 255];
    for &a in samples.iter() {
        for &b in samples.iter() {
            let ip = Ipv4::new(a, b, b, a);
            assert_eq!(Ipv4::parse(&ip.to_string()), Some(ip));
            let ip = Ipv4::new(b, 0, a, 255);
            assert_eq!(Ipv4::parse(&ip.to_string()), Some(ip));
        }
    }
}

#[test]
fn every_octet_reads_back() {
    for n in 0..=255u8 {
        let ip = Ipv4::new(n, n, n, n);
        let text = ip.to_string();
        assert_eq!(text, format!("{}.{}.{}.{}", n, n, n, n));
        assert_eq!(Ipv4::parse(&text), Some(ip));
    }
}

#[test]
fn gives_its_octets_in_order() {
    assert_eq!(Ipv4::new(192, 0, 2, 10).octets(), [192, 0, 2, 10]);
}

#[test]
fn addresses_compare_by_their_octets() {
    assert_eq!(Ipv4::new(1, 2, 3, 4), Ipv4::new(1, 2, 3, 4));
    assert_ne!(Ipv4::new(1, 2, 3, 4), Ipv4::new(1, 2, 3, 5));
    assert_ne!(Ipv4::new(1, 2, 3, 4), Ipv4::new(4, 3, 2, 1));
}
