use quote_stream::server::command::{endpoint_in_use, parse_command, register_client, validate_udp_address};
use quote_stream::server::session::welcome_message;
use quote_stream::server::error::ServerError;
use quote_stream::server::generate::{needs_quote, QuoteGenerator};
use quote_stream::server::model::Client;
use quote_stream::server::session::{session_step, SessionStep};
use quote_stream::text::contains_string;

fn strings(v: &[&str]) -> Vec<String> {
    v.iter().map(|s| s.to_string()).collect()
}

#[test]
fn test_client_new() {
    let client = Client::new();
    assert_eq!(client.adress, "127.0.0.1");
    assert_eq!(client.port, 9999);
    assert!(client.ticker.is_empty());
    assert!(!client.alive);
}

#[test]
fn test_client_clone() {
    let mut client = Client::new();
    client.ticker.push("AAPL".to_string());
    client.alive = true;

    let client_clone = client.clone();
    assert_eq!(client_clone.ticker, vec!["AAPL"]);
    assert!(client_clone.alive);
}

#[test]
fn test_test_error_display() {
    let err = ServerError::ConnectClosed;
    assert_eq!(err.message(), "connection closed");

    let err = ServerError::SendServer { value: "test error".to_string() };
    assert_eq!(err.message(), "test error");

    let err = ServerError::TickerNotFound("AAPL".to_string());
    assert_eq!(err.message(), "Ticker not found: AAPL");
}

#[test]
fn test_tickers_validation() {
    let tickers = strings(&["AAPL", "MSFT"]);
    let request_tickers = strings(&["AAPL"]);

    let all_valid = request_tickers.iter().all(|t| contains_string(&tickers, t));
    assert!(all_valid);

    let invalid_request = strings(&["UNKNOWN"]);
    let has_invalid = invalid_request.iter().any(|t| !contains_string(&tickers, t));
    assert!(has_invalid);
}

#[test]
fn io_error_message() {
    let err = ServerError::IoError(std::io::Error::new(std::io::ErrorKind::Other, "disk"));
    assert_eq!(err.message(), "error IO : disk");
}

#[test]
fn stream_command_accepted() {
    let known = strings(&["AAPL", "MSFT", "TSLA"]);
    let (r, announced) = parse_command("STREAM udp://127.0.0.1:9999 AAPL,MSFT\n", &known, &Vec::new());
    let c = r.unwrap();
    assert_eq!(c.adress, "127.0.0.1");
    assert_eq!(c.port, 9999);
    assert_eq!(c.ticker, vec!["AAPL", "MSFT"]);
    assert!(!c.alive);
    assert_eq!(announced, vec!["AAPL", "MSFT"]);
}

#[test]
fn stream_command_rejections() {
    let known = strings(&["AAPL", "MSFT"]);
    let none: Vec<Client> = Vec::new();
    let hint = "correct command: STREAM udp://<host>:<port> <ticker1,ticker2>";

    let (r, a) = parse_command("STREAM udp://127.0.0.1:9999", &known, &none);
    assert_eq!(r.unwrap_err().message(), hint);
    assert!(a.is_empty());

    let (r, _) = parse_command("SUBSCRIBE udp://127.0.0.1:9999 AAPL", &known, &none);
    assert_eq!(r.unwrap_err().message(), hint);

    let (r, a) = parse_command("STREAM tcp://127.0.0.1:9999 AAPL", &known, &none);
    assert_eq!(r.unwrap_err().message(), "Invalid UDP address format. Expected: udp://<host>:<port>");
    assert!(a.is_empty());

    let (r, _) = parse_command("STREAM udp://127.0.0.1 AAPL", &known, &none);
    assert_eq!(r.unwrap_err().message(), "Invalid UDP address format. Port is missing");

    let (r, a) = parse_command("STREAM udp://127.0.0.1:9999 AAPL,GOOG,MSFT", &known, &none);
    match r {
        Err(ServerError::TickerNotFound(t)) => assert_eq!(t, "GOOG"),
        other => panic!("unexpected {:?}", other),
    }
    assert_eq!(a, vec!["AAPL"]);

    let (r, a) = parse_command("STREAM udp://127.0.0.1:9999 AAPL,", &known, &none);
    assert_eq!(r.unwrap_err().message(), "Ticker not found: ");
    assert_eq!(a, vec!["AAPL"]);
}

#[test]
fn stream_command_duplicate_endpoint() {
    let known = strings(&["AAPL", "MSFT"]);
    let (first, _) = parse_command("STREAM udp://127.0.0.1:9999 AAPL", &known, &Vec::new());
    let clients = vec![first.unwrap()];
    let (r, a) = parse_command("STREAM udp://127.0.0.1:9999 MSFT", &known, &clients);
    assert_eq!(r.unwrap_err().message(), "A stream with these settings has already been launched");
    assert_eq!(a, vec!["MSFT"]);
    let (r, _) = parse_command("STREAM udp://127.0.0.1:9998 MSFT", &known, &clients);
    assert!(r.is_ok());
}

#[test]
fn server_udp_validation_writes_client() {
    let mut c = Client::new();
    assert!(validate_udp_address("udp://10.1.2.3:4000", &mut c).is_ok());
    assert_eq!(c.adress, "10.1.2.3");
    assert_eq!(c.port, 4000);

    let mut c = Client::new();
    let e = validate_udp_address("udp://10.1.2.3", &mut c).unwrap_err();
    assert_eq!(e.message(), "Invalid UDP address format. Port is missing");
    assert_eq!(c.adress, "10.1.2.3");
    assert_eq!(c.port, 9999);

    let mut c = Client::new();
    assert!(validate_udp_address("10.1.2.3:4000", &mut c).is_err());
    assert_eq!(c.adress, "127.0.0.1");
}

#[test]
fn session_steps() {
    let known = strings(&["AAPL"]);
    let none: Vec<Client> = Vec::new();
    match session_step(None, &known, &none) {
        (SessionStep::Close(ServerError::ConnectClosed), a) => assert!(a.is_empty()),
        _ => panic!("expected close"),
    }
    match session_step(Some("hello\n"), &known, &none) {
        (SessionStep::Reply(text), _) => {
            assert_eq!(text, "correct command: STREAM udp://<host>:<port> <ticker1,ticker2>\n")
        }
        _ => panic!("expected reply"),
    }
    match session_step(Some("STREAM udp://127.0.0.1:5000 IBM\n"), &known, &none) {
        (SessionStep::Reply(text), _) => assert_eq!(text, "Ticker not found: IBM\n"),
        _ => panic!("expected reply"),
    }
    match session_step(Some("STREAM udp://127.0.0.1:5000 AAPL\r\n"), &known, &none) {
        (SessionStep::Accept(c), a) => {
            assert_eq!(c.port, 5000);
            assert_eq!(a, vec!["AAPL"]);
        }
        _ => panic!("expected accept"),
    }
}

#[test]
fn subscribers_of_a_ticker() {
    let mut a = Client::new();
    a.ticker = strings(&["AAPL", "MSFT"]);
    let mut b = Client::new();
    b.ticker = strings(&["TSLA"]);
    let mut c = Client::new();
    c.ticker = strings(&["MSFT"]);
    let clients = vec![a, b, c];
    assert_eq!(QuoteGenerator::subscribers(&clients, &"MSFT".to_string()), vec![0, 2]);
    assert_eq!(QuoteGenerator::subscribers(&clients, &"TSLA".to_string()), vec![1]);
    assert!(QuoteGenerator::subscribers(&clients, &"IBM".to_string()).is_empty());
}

#[test]
fn quote_book_keeps_one_quote_per_ticker() {
    let mut book: Vec<String> = Vec::new();
    for t in ["AAPL", "MSFT", "AAPL", "MSFT", "TSLA"] {
        let t = t.to_string();
        if needs_quote(&book, &t) {
            book.push(t);
        }
    }
    assert_eq!(book, vec!["AAPL", "MSFT", "TSLA"]);
}

#[test]
fn greeting_text() {
    assert_eq!(welcome_message(), "Welcome to the QuoteServer!\n");
}

#[test]
fn registration_rechecks_the_endpoint() {
    let known = strings(&["AAPL"]);
    let mut clients: Vec<Client> = Vec::new();
    let (a, _) = parse_command("STREAM udp://127.0.0.1:9000 AAPL", &known, &clients);
    let (b, _) = parse_command("STREAM udp://127.0.0.1:9000 AAPL", &known, &clients);
    assert!(register_client(&mut clients, a.unwrap()).is_ok());
    assert!(endpoint_in_use(&clients, &"127.0.0.1".to_string(), 9000));
    let e = register_client(&mut clients, b.unwrap()).unwrap_err();
    assert_eq!(e.message(), "A stream with these settings has already been launched");
    assert_eq!(clients.len(), 1);
    let (c, _) = parse_command("STREAM udp://127.0.0.1:9001 AAPL", &known, &clients);
    assert!(register_client(&mut clients, c.unwrap()).is_ok());
    assert_eq!(clients.len(), 2);
    assert!(!endpoint_in_use(&clients, &"127.0.0.2".to_string(), 9000));
}
