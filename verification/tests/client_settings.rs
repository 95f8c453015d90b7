use chiral_client::client::ClientError;
use chiral_client::connection::address;
use chiral_client::session::FtpCommand;
use chiral_client::text::{decimal_text, is_blank_text, parse_port};
use chiral_client::Client;

fn client() -> Client {
    Client::new(
        "http://localhost:20001".to_string(),
        "user@example.com".to_string(),
        "user42".to_string(),
        "SECRET-REDACTED".to_string(),
        "api-token".to_string(),
        20001,
        "ftp.example.com".to_string(),
        2121,
    )
}

#[test]
fn new_client_has_no_session() {
    let c = client();
    assert_eq!(c.url(), "http://localhost:20001");
    assert_eq!(c.user_email(), "user@example.com");
    assert_eq!(c.token_auth(), "SECRET-REDACTED");
    assert_eq!(c.token_api(), "api-token");
    assert!(c.ftp_session.is_none());
}

#[test]
fn ftp_session_logs_in_with_the_api_token() {
    let c = client();
    let s = c.new_ftp_session();
    assert!(!s.is_connected());
    let (_plan, first) = s.connect();
    match first {
        chiral_client::session::Step::Run(FtpCommand::Connect(a)) => assert_eq!(a, "ftp.example.com:2121"),
        _ => panic!("expected a connection"),
    }
}

#[test]
fn ftp_operations_need_a_session() {
    let mut c = client();
    assert_eq!(c.upload_file("r").unwrap_err(), ClientError::FtpNotConnected);
    assert_eq!(c.download_file("r").unwrap_err(), ClientError::FtpNotConnected);
    assert_eq!(c.make_directory("d").unwrap_err(), ClientError::FtpNotConnected);
    assert_eq!(c.change_directory("d").unwrap_err(), ClientError::FtpNotConnected);
    assert_eq!(ClientError::FtpNotConnected.message(), "FTP not connected");
    assert!(!c.disconnect_ftp());
    // an attached session that was never opened refuses too
    let s = c.new_ftp_session();
    c.set_ftp_session(s);
    match c.upload_file("r") {
        Err(ClientError::Ftp(e)) => assert_eq!(e.message(), "Not connected to FTP server"),
        _ => panic!("expected a refusal"),
    }
    assert!(!c.disconnect_ftp());
    assert!(c.ftp_session.is_none());
}

#[test]
fn token_reply_must_be_a_string() {
    let good = serde_json::Value::String("fresh-token".to_string());
    let c = Client::with_token_reply(
        "u".to_string(), "e".to_string(), "i".to_string(), "t".to_string(), 1, "h".to_string(), 2, &good,
    )
    .unwrap();
    assert_eq!(c.token_api(), "fresh-token");
    let bad: serde_json::Value = serde_json::from_str("{\"token\": \"x\"}").unwrap();
    let r = Client::with_token_reply(
        "u".to_string(), "e".to_string(), "i".to_string(), "t".to_string(), 1, "h".to_string(), 2, &bad,
    );
    assert_eq!(r.err(), Some(ClientError::TokenNotString));
    assert_eq!(ClientError::TokenNotString.message(), "Expected a string in token API response");
}

#[test]
fn ports_parse_as_u16() {
    assert_eq!(parse_port("21"), Some(21));
    assert_eq!(parse_port("+2121"), Some(2121));
    assert_eq!(parse_port("0065535"), Some(65535));
    assert_eq!(parse_port("65536"), None);
    assert_eq!(parse_port("99999999999"), None);
    assert_eq!(parse_port(""), None);
    assert_eq!(parse_port("+"), None);
    assert_eq!(parse_port("-1"), None);
    assert_eq!(parse_port(" 21"), None);
    assert_eq!(parse_port("2a"), None);
    for p in [0u16, 7, 10, 21, 2121, 65535] {
        assert_eq!(parse_port(&p.to_string()), "21".parse::<u16>().ok().map(|_| p));
    }
}

#[test]
fn decimal_and_address_texts() {
    assert_eq!(decimal_text(0), "0");
    assert_eq!(decimal_text(10), "10");
    assert_eq!(decimal_text(4294967295), "4294967295");
    assert_eq!(address("127.0.0.1", 21), "127.0.0.1:21");
    assert_eq!(parse_port(&decimal_text(65535)), Some(65535));
}

#[test]
fn blank_texts() {
    assert!(is_blank_text(""));
    assert!(is_blank_text(" \t\n\r\u{b}\u{c}\u{85}\u{a0}\u{1680}\u{2000}\u{200a}\u{2029}\u{202f}\u{205f}\u{3000}"));
    assert!(!is_blank_text(" x "));
    assert!(!is_blank_text("\u{200b}"));
}
