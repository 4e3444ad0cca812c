use quote_stream::client::error::ClientError;
use quote_stream::client::protocol::{build_stream_command, classify_datagram, stream_accepted, Datagram};
use quote_stream::server::command::parse_command;
use quote_stream::text::{join, split_ascii_words, split_char, trim};

#[test]
fn test_error_display() {
    let err = ClientError::SendServer { value: "test error".to_string() };
    assert_eq!(err.message(), "test error");

    let io_err = ClientError::IoError(std::io::Error::new(std::io::ErrorKind::Other, "IO error"));
    assert!(io_err.message().contains("IO error"));
}

#[test]
fn test_validate_server_address_format() {
    let addr = "127.0.0.1:8080";
    let parts: Vec<String> = split_char(addr, ':');
    assert_eq!(parts.len(), 2);
    assert_eq!(parts[0], "127.0.0.1");
    assert_eq!(parts[1], "8080");
}

#[test]
fn test_udp_port_range() {
    let port: u16 = 9999;
    assert!(port >= 1 && port <= 65535);

    let default_port: u16 = 20000;
    assert!(default_port >= 1 && default_port <= 65535);
}

#[test]
fn test_tickers_parsing() {
    let tickers_str = "AAPL,MSFT,TSLA";
    let tickers: Vec<String> = split_char(tickers_str, ',');

    assert_eq!(tickers.len(), 3);
    assert_eq!(tickers[0], "AAPL");
    assert_eq!(tickers[1], "MSFT");
    assert_eq!(tickers[2], "TSLA");
}

#[test]
fn stream_command_text() {
    let t = vec!["AAPL".to_string(), "MSFT".to_string()];
    assert_eq!(build_stream_command("127.0.0.1:9999", &t), "STREAM udp://127.0.0.1:9999 AAPL,MSFT");
    assert_eq!(build_stream_command("h:1", &Vec::new()), "STREAM udp://h:1 ");
}

#[test]
fn server_accepts_what_client_sends() {
    let t = vec!["AAPL".to_string(), "TSLA".to_string()];
    let mut line = build_stream_command("127.0.0.1:20000", &t);
    line.push('\n');
    let known = vec!["TSLA".to_string(), "AAPL".to_string(), "MSFT".to_string()];
    let (r, announced) = parse_command(&line, &known, &Vec::new());
    let c = r.unwrap();
    assert_eq!(c.adress, "127.0.0.1");
    assert_eq!(c.port, 20000);
    assert_eq!(c.ticker, t);
    assert_eq!(announced, t);
}

#[test]
fn reply_and_datagrams() {
    assert!(stream_accepted("OK"));
    assert!(!stream_accepted("OK\n"));
    assert!(!stream_accepted("Welcome to the QuoteServer!\n"));
    assert_eq!(classify_datagram("PING"), Datagram::Ping);
    assert_eq!(classify_datagram(" PING\n"), Datagram::Ping);
    assert_eq!(classify_datagram("\u{3000}PING\u{a0}"), Datagram::Ping);
    assert_eq!(classify_datagram("PI NG"), Datagram::Quote);
    assert_eq!(classify_datagram("{\"ticker\":\"AAPL\"}"), Datagram::Quote);
}

#[test]
fn text_helpers() {
    assert_eq!(split_ascii_words("  a\tbb \x0c c\r\n"), vec!["a", "bb", "c"]);
    assert!(split_ascii_words(" \n ").is_empty());
    assert_eq!(split_ascii_words("a\u{a0}b"), vec!["a\u{a0}b"]);
    assert_eq!(split_char("", ','), vec![""]);
    assert_eq!(split_char("a,,b,", ','), vec!["a", "", "b", ""]);
    assert_eq!(join(&vec!["x".to_string(), "y".to_string(), "z".to_string()], ", "), "x, y, z");
    assert_eq!(join(&Vec::new(), ","), "");
    assert_eq!(trim("\t h i \u{2028}"), "h i");
    assert_eq!(trim("   "), "");
}
