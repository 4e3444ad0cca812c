use quote_stream::common::address::{
    parse_udp_address, udp_endpoint, validate_tcp_address, validate_udp_address, UdpAddressError,
    UrlParts,
};
use quote_stream::common::error::CommonError;
use quote_stream::common::tickers::{decode_lines, split_lines, tickers_from_text};
use quote_stream::common::volume::{initial_volume, next_volume, update_volume, volume_span};

/// What resolving `address` gives for the two addresses these tests use:
/// an IP literal with a port resolves to itself, and a text without a port
/// does not resolve. The resolution itself is I/O and is done by the program
/// around the library.
fn resolve(address: &str) -> Option<Vec<String>> {
    match address {
        "127.0.0.1:12345" => Some(vec!["127.0.0.1:12345".to_string()]),
        _ => None,
    }
}

#[test]
fn test_validate_udp_address_valid() {
    let result = validate_udp_address("udp://127.0.0.1:9999");
    assert!(result.is_ok());
    let (host, port) = result.unwrap();
    assert_eq!(host, "127.0.0.1");
    assert_eq!(port, 9999);
}

#[test]
fn test_validate_udp_address_invalid_scheme() {
    let result = validate_udp_address("tcp://127.0.0.1:9999");
    assert!(result.is_err());
}

#[test]
fn test_validate_udp_address_missing_port() {
    let result = validate_udp_address("udp://127.0.0.1");
    assert!(result.is_err());
}

#[test]
fn test_validate_udp_address_invalid_format() {
    let result = validate_udp_address("not-a-url");
    assert!(result.is_err());
}

#[test]
fn test_validate_tcp_address_valid() {
    let result = validate_tcp_address(resolve("127.0.0.1:12345"));
    assert!(result.is_ok());
}

#[test]
fn test_validate_tcp_address_invalid() {
    let result = validate_tcp_address(resolve("invalid-address"));
    assert!(result.is_err());
}

#[test]
fn tcp_address_is_the_first_resolved_one() {
    let r = validate_tcp_address(Some(vec!["10.0.0.1:1".to_string(), "10.0.0.2:2".to_string()]));
    assert_eq!(r.unwrap(), "10.0.0.1:1");
    let e = validate_tcp_address(Some(Vec::new())).unwrap_err();
    assert_eq!(e.message(), "Addess not correcr");
    let e = validate_tcp_address(None).unwrap_err();
    assert_eq!(e.message(), "Addess not correcr");
}

#[test]
fn udp_address_errors_say_why() {
    let msg = |a: &str| validate_udp_address(a).unwrap_err().message();
    assert_eq!(msg("tcp://127.0.0.1:9999"), "Invalid UDP address format. Expected: udp://<host>:<port>");
    assert_eq!(msg("udp://127.0.0.1"), "Invalid UDP address format. Port is missing");
    assert_eq!(msg("udp://"), "Invalid UDP address format. Host is missing");
    assert_eq!(msg("udp://[::1:5"), "Invalid UDP address format. Cannot parse URL");
    assert_eq!(msg("not-a-url"), "Invalid UDP address format. Expected: udp://<host>:<port>");
    assert!(matches!(parse_udp_address("udp://:5"), Err(_)));
}

#[test]
fn udp_address_host_names_and_ipv6() {
    assert_eq!(validate_udp_address("udp://localhost:20000").unwrap(), ("localhost".to_string(), 20000));
    assert_eq!(validate_udp_address("udp://[::1]:7").unwrap(), ("[::1]".to_string(), 7));
}

#[test]
fn udp_endpoint_reads_each_component() {
    let parts = |scheme: &str, host: Option<&str>, port: Option<u16>| {
        Some(UrlParts { scheme: scheme.to_string(), host: host.map(|h| h.to_string()), port })
    };
    assert_eq!(udp_endpoint(parts("udp", Some("h"), Some(1))).unwrap(), ("h".to_string(), 1));
    assert_eq!(udp_endpoint(parts("http", Some("h"), Some(1))).unwrap_err(), UdpAddressError::WrongScheme);
    assert_eq!(udp_endpoint(parts("udp", None, Some(1))).unwrap_err(), UdpAddressError::MissingHost);
    assert_eq!(udp_endpoint(parts("udp", Some("h"), None)).unwrap_err(), UdpAddressError::MissingPort);
    assert_eq!(udp_endpoint(None).unwrap_err(), UdpAddressError::Unparsable);
    assert_eq!(UdpAddressError::WrongScheme.message(), "Invalid UDP address format. Scheme must be udp");
    assert_eq!(UdpAddressError::MissingHost.message(), "Invalid UDP address format. Host is missing");
}

#[test]
fn common_error_message() {
    let e = CommonError::CommonError("boom".to_string());
    assert_eq!(e.message(), "boom");
}

#[test]
fn ticker_file_lines() {
    let t = tickers_from_text(b"AAPL\nMSFT\nTSLA\n");
    assert_eq!(t, vec!["AAPL", "MSFT", "TSLA"]);
    let t = tickers_from_text(b"AAPL\r\nMSFT");
    assert_eq!(t, vec!["AAPL", "MSFT"]);
    let t = tickers_from_text(b"A\n\nB\n");
    assert_eq!(t, vec!["A", "", "B"]);
    let t = tickers_from_text(b"");
    assert!(t.is_empty());
    let t = tickers_from_text(b"X\xff\nY\nZ\r");
    assert_eq!(t, vec!["Y", "Z\r"]);
}

#[test]
fn lines_and_decoding() {
    assert_eq!(split_lines(b"a\r\nb\n\rc"), vec![b"a".to_vec(), b"b".to_vec(), b"\rc".to_vec()]);
    assert_eq!(split_lines(b"\n"), vec![Vec::<u8>::new()]);
    let d = decode_lines(b"ok\n\xc3\x28\n\xc3\xa9");
    assert_eq!(d, vec![Some("ok".to_string()), None, Some("\u{e9}".to_string())]);
}

#[test]
fn volume_model() {
    assert_eq!(volume_span("AAPL"), 5000);
    assert_eq!(volume_span("IBM"), 1000);
    assert_eq!(initial_volume("MSFT", 0), 1000);
    assert_eq!(initial_volume("TSLA", 4999), 5999);
    assert_eq!(initial_volume("IBM", 999), 1099);
    assert_eq!(next_volume(1000, 95, 7), 950);
    assert_eq!(next_volume(0, 95, 1500), 1500);
    assert_eq!(next_volume(3, 70, 1500), 2);
    assert_eq!(update_volume(200, 105), 210);
    let mut seen = std::collections::BTreeSet::new();
    for _ in 0..200 {
        let v = update_volume(0, 90);
        assert!((1000..2000).contains(&v));
        seen.insert(v);
    }
    assert!(seen.len() > 1);
}
