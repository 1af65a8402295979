use smtp::parser::{stream_recv_line, stream_recv_reply, Parser};
use smtp::protocol::StatusCode;
use smtp::Error;

fn bytes_of(s: &str) -> Vec<u8> {
    s.as_bytes().to_vec()
}

#[test]
fn parse_single_line() {
    let lines = stream_recv_reply(bytes_of("250 ok\r\n")).unwrap();
    assert_eq!(lines.len(), 1);
    assert!(matches!(lines[0].code(), StatusCode::Okay));
    assert_eq!(lines[0].text(), "ok");
    assert!(lines[0].last());
}

#[test]
fn parse_multi_line_reply_exactly_one_last() {
    let lines = stream_recv_reply(bytes_of("250-hi\r\n250-AUTH PLAIN\r\n250 8BITMIME\r\n")).unwrap();
    assert_eq!(lines.len(), 3);
    assert_eq!(lines[0].text(), "hi");
    assert_eq!(lines[1].text(), "AUTH PLAIN");
    assert_eq!(lines[2].text(), "8BITMIME");
    let last_flags: Vec<bool> = lines.iter().map(|l| l.last()).collect();
    assert_eq!(last_flags, vec![false, false, true]);
}

#[test]
fn parse_empty_text_line() {
    let lines = stream_recv_reply(bytes_of("221\r\n")).unwrap();
    assert_eq!(lines.len(), 1);
    assert!(matches!(lines[0].code(), StatusCode::ServiceClosingChannel));
    assert_eq!(lines[0].text(), "");
    assert!(lines[0].last());
}

#[test]
fn parse_empty_separator_text() {
    let lines = stream_recv_reply(bytes_of("250 \r\n")).unwrap();
    assert_eq!(lines[0].text(), "");
    assert!(lines[0].last());
}

#[test]
fn parse_unknown_code_is_protocol_error() {
    assert!(matches!(
        stream_recv_reply(bytes_of("999 hm\r\n")),
        Err(Error::Protocol)
    ));
}

#[test]
fn parse_non_digit_is_protocol_error() {
    assert!(matches!(
        stream_recv_reply(bytes_of("2x0 hm\r\n")),
        Err(Error::Protocol)
    ));
    assert!(matches!(
        stream_recv_reply(bytes_of("hello\r\n")),
        Err(Error::Protocol)
    ));
}

#[test]
fn parse_truncated_is_network_error() {
    assert!(matches!(stream_recv_reply(bytes_of("")), Err(Error::Network)));
    assert!(matches!(stream_recv_reply(bytes_of("2")), Err(Error::Network)));
    assert!(matches!(stream_recv_reply(bytes_of("250")), Err(Error::Network)));
    assert!(matches!(
        stream_recv_reply(bytes_of("250 partial")),
        Err(Error::Network)
    ));
    assert!(matches!(
        stream_recv_reply(bytes_of("250-hi\r\n")),
        Err(Error::Network)
    ));
}

#[test]
fn parse_text_with_bare_cr() {
    let lines = stream_recv_reply(bytes_of("250 a\rb\r\n")).unwrap();
    assert_eq!(lines[0].text(), "a\rb");
}

#[test]
fn parse_421_line() {
    let lines = stream_recv_reply(bytes_of("421 shutting down\r\n")).unwrap();
    assert!(matches!(lines[0].code(), StatusCode::ServiceNotAvailable));
    assert_eq!(lines[0].text(), "shutting down");
}

#[test]
fn stream_line_returns_first_and_drains() {
    let line = stream_recv_line(bytes_of("250-hi\r\n250 done\r\n")).unwrap();
    assert_eq!(line.text(), "hi");
    assert!(!line.last());
}

#[test]
fn stream_line_propagates_drain_errors() {
    assert!(matches!(
        stream_recv_line(bytes_of("250-hi\r\n")),
        Err(Error::Network)
    ));
    assert!(matches!(
        stream_recv_line(bytes_of("250-hi\r\nbad\r\n")),
        Err(Error::Protocol)
    ));
}

#[test]
fn parser_reads_consecutive_replies() {
    let mut parser = Parser::new(bytes_of("220 hi\r\n250 ok\r\n"));
    let first = parser.recv_reply().unwrap();
    assert!(matches!(first[0].code(), StatusCode::ServiceReady));
    let second = parser.recv_reply().unwrap();
    assert!(matches!(second[0].code(), StatusCode::Okay));
}

#[test]
fn parser_char_primitives() {
    let mut parser = Parser::new(bytes_of("25"));
    // the priming read hands back the NUL placeholder
    assert_eq!(parser.recv_char().unwrap(), 0);
    assert_eq!(parser.peek_char(), b'2');
    assert_eq!(parser.recv_char().unwrap(), b'2');
    assert!(matches!(parser.recv_char(), Err(Error::Network)));
}
