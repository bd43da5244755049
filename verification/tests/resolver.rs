use pathtrace::addr::IpAddress;
use pathtrace::addr::parse_ip_literal;
use pathtrace::resolve::LiteralResolution;
use pathtrace::resolve::ResolutionError;
use pathtrace::resolve::resolve_from_lookup;
use pathtrace::resolve::resolve_literal;

#[test]
fn literal_v4_is_returned_unchanged() {
    assert_eq!(
        resolve_literal("8.8.8.8"),
        Ok(LiteralResolution::Resolved(IpAddress::V4(8, 8, 8, 8)))
    );
    assert_eq!(
        resolve_literal("192.168.1.254"),
        Ok(LiteralResolution::Resolved(IpAddress::V4(192, 168, 1, 254)))
    );
    assert_eq!(
        resolve_literal("255.255.255.255"),
        Ok(LiteralResolution::Resolved(IpAddress::V4(255, 255, 255, 255)))
    );
    assert_eq!(
        resolve_literal("0.0.0.1"),
        Ok(LiteralResolution::Resolved(IpAddress::V4(0, 0, 0, 1)))
    );
}

#[test]
fn literal_v6_is_returned_unchanged() {
    assert_eq!(
        resolve_literal("2001:db8::1"),
        Ok(LiteralResolution::Resolved(IpAddress::V6(
            0x2001, 0xdb8, 0, 0, 0, 0, 0, 1
        )))
    );
    assert_eq!(
        resolve_literal("::1"),
        Ok(LiteralResolution::Resolved(IpAddress::V6(0, 0, 0, 0, 0, 0, 0, 1)))
    );
    assert_eq!(
        resolve_literal("1:2:3:4:5:6:7:8"),
        Ok(LiteralResolution::Resolved(IpAddress::V6(1, 2, 3, 4, 5, 6, 7, 8)))
    );
    assert_eq!(
        resolve_literal("fe80::ABCD"),
        Ok(LiteralResolution::Resolved(IpAddress::V6(
            0xfe80, 0, 0, 0, 0, 0, 0, 0xabcd
        )))
    );
    assert_eq!(
        resolve_literal("1:2:3:4:5:6:7::"),
        Ok(LiteralResolution::Resolved(IpAddress::V6(1, 2, 3, 4, 5, 6, 7, 0)))
    );
}

#[test]
fn literal_v6_with_dotted_quad_suffix() {
    assert_eq!(
        resolve_literal("::ffff:8.8.8.8"),
        Ok(LiteralResolution::Resolved(IpAddress::V6(
            0, 0, 0, 0, 0, 0xffff, 0x0808, 0x0808
        )))
    );
    assert_eq!(
        resolve_literal("64:ff9b::192.0.2.33"),
        Ok(LiteralResolution::Resolved(IpAddress::V6(
            0x64, 0xff9b, 0, 0, 0, 0, 0xc000, 0x0221
        )))
    );
    assert_eq!(
        resolve_literal("1:2:3:4:5:6:1.2.3.4"),
        Ok(LiteralResolution::Resolved(IpAddress::V6(
            1, 2, 3, 4, 5, 6, 0x0102, 0x0304
        )))
    );
    // The quad stands only at the end, must be whole, and keeps octet rules.
    assert_eq!(resolve_literal("1.2.3.4::"), Ok(LiteralResolution::NotALiteral));
    assert_eq!(resolve_literal("::1.2.3.4.5"), Ok(LiteralResolution::NotALiteral));
    assert_eq!(resolve_literal("::ffff:1.2.3.256"), Ok(LiteralResolution::NotALiteral));
    assert_eq!(resolve_literal("::ffff:1.2.3"), Ok(LiteralResolution::NotALiteral));
}

#[test]
fn unspecified_literals_are_rejected() {
    assert_eq!(resolve_literal("0.0.0.0"), Err(ResolutionError::Unspecified));
    assert_eq!(resolve_literal("::"), Err(ResolutionError::Unspecified));
    assert_eq!(
        resolve_literal("0:0:0:0:0:0:0:0"),
        Err(ResolutionError::Unspecified)
    );
}

#[test]
fn non_literals_go_to_lookup() {
    for text in [
        "",
        "nonexistent.invalid.test",
        "256.1.1.1",
        "01.2.3.4",
        "1.2.3",
        "1.2.3.4.5",
        "8.8.8.8 ",
        "1.2.3.4:80",
        ":::",
        "1::2::3",
        "12345::",
        "1:2:3:4:5:6:7",
        "1:2:3:4:5:6:7:8:9",
        "::1:2:3:4:5:6:7:8",
        "1:2:3:4:5:6:7:8::",
        "g::1",
    ] {
        assert_eq!(
            resolve_literal(text),
            Ok(LiteralResolution::NotALiteral),
            "input: {:?}",
            text
        );
    }
}

#[test]
fn parse_accepts_exactly_the_grammar() {
    assert_eq!(parse_ip_literal("10.0.0.1"), Some(IpAddress::V4(10, 0, 0, 1)));
    assert_eq!(parse_ip_literal("100.200.30.40"), Some(IpAddress::V4(100, 200, 30, 40)));
    assert_eq!(
        parse_ip_literal("ffff:ffff:ffff:ffff:ffff:ffff:ffff:ffff"),
        Some(IpAddress::V6(
            0xffff, 0xffff, 0xffff, 0xffff, 0xffff, 0xffff, 0xffff, 0xffff
        ))
    );
    assert_eq!(parse_ip_literal("a::b"), Some(IpAddress::V6(0xa, 0, 0, 0, 0, 0, 0, 0xb)));
    assert_eq!(parse_ip_literal("10.0.0.256"), None);
    assert_eq!(parse_ip_literal("10.00.0.1"), None);
    assert_eq!(parse_ip_literal("1:2"), None);
    assert_eq!(parse_ip_literal("hostname"), None);
}

#[test]
fn lookup_takes_the_first_address() {
    let addrs = vec![IpAddress::V4(93, 184, 216, 34), IpAddress::V6(0x2606, 0, 0, 0, 0, 0, 0, 1)];
    assert_eq!(resolve_from_lookup(&addrs), Ok(IpAddress::V4(93, 184, 216, 34)));
}

#[test]
fn lookup_with_no_addresses_is_invalid() {
    let addrs: Vec<IpAddress> = vec![];
    assert_eq!(resolve_from_lookup(&addrs), Err(ResolutionError::Invalid));
}

#[test]
fn lookup_yielding_unspecified_is_rejected() {
    let addrs = vec![IpAddress::V6(0, 0, 0, 0, 0, 0, 0, 0), IpAddress::V4(8, 8, 8, 8)];
    assert_eq!(resolve_from_lookup(&addrs), Err(ResolutionError::Unspecified));
}
