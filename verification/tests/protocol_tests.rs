use base64::Engine;
use smtp::protocol::{get_auth_login, get_auth_plain, status_code, Command, Line, StatusCode};

#[test]
fn status_code_known_values() {
    assert!(matches!(status_code(220), Some(StatusCode::ServiceReady)));
    assert!(matches!(status_code(221), Some(StatusCode::ServiceClosingChannel)));
    assert!(matches!(status_code(235), Some(StatusCode::AuthSuccess)));
    assert!(matches!(status_code(250), Some(StatusCode::Okay)));
    assert!(matches!(status_code(334), Some(StatusCode::ServerChallenge)));
    assert!(matches!(status_code(354), Some(StatusCode::StartMailInput)));
    assert!(matches!(status_code(421), Some(StatusCode::ServiceNotAvailable)));
    assert!(matches!(status_code(535), Some(StatusCode::AuthInvalidCred)));
    assert!(matches!(status_code(550), Some(StatusCode::NoAccess)));
    assert!(matches!(status_code(551), Some(StatusCode::UserNotLocalError)));
    assert!(matches!(status_code(553), Some(StatusCode::MailBoxNameNotAllowed)));
    assert!(matches!(status_code(554), Some(StatusCode::TransactionFailed)));
}

#[test]
fn status_code_unknown_values() {
    assert!(status_code(100).is_none());
    assert!(status_code(222).is_none());
    assert!(status_code(999).is_none());
    assert!(status_code(0).is_none());
}

#[test]
fn line_accessors() {
    let line = Line::new(StatusCode::Okay, "hello".to_string(), true);
    assert!(matches!(line.code(), StatusCode::Okay));
    assert_eq!(line.text(), "hello".to_string());
    assert!(line.last());
    assert!(line.expect(StatusCode::Okay).is_ok());
    assert!(line.expect(StatusCode::ServiceReady).is_err());
}

#[test]
fn command_renders() {
    assert_eq!(Command::Ehlo("me".to_string()).to_string(), "EHLO me\r\n");
    assert_eq!(Command::StartTls.to_string(), "STARTTLS\r\n");
    assert_eq!(Command::Quit.to_string(), "QUIT\r\n");
    assert_eq!(
        Command::MailFrom("a@x.io".to_string()).to_string(),
        "MAIL FROM:<a@x.io>\r\n"
    );
    assert_eq!(
        Command::RcptTo("b@y.io".to_string()).to_string(),
        "RCPT TO:<b@y.io>\r\n"
    );
    assert_eq!(Command::Data.to_string(), "DATA\r\n");
    assert_eq!(Command::AuthLogin.to_string(), "AUTH LOGIN\r\n");
}

#[test]
fn command_renders_end_in_crlf() {
    let commands = vec![
        Command::Ehlo("me".to_string()),
        Command::StartTls,
        Command::Quit,
        Command::MailFrom("a@x.io".to_string()),
        Command::RcptTo("b@y.io".to_string()),
        Command::Data,
        Command::AuthPlain("user".to_string(), "pass".to_string()),
        Command::AuthLogin,
    ];
    for c in commands {
        let r = c.to_string();
        let bytes = r.as_bytes();
        assert!(bytes.len() >= 2);
        assert_eq!(bytes[bytes.len() - 2], b'\r');
        assert_eq!(bytes[bytes.len() - 1], b'\n');
    }
}

#[test]
fn auth_plain_known_encoding() {
    assert_eq!(get_auth_plain("user", "pass"), "AHVzZXIAcGFzcw==");
    assert_eq!(
        Command::AuthPlain("user".to_string(), "pass".to_string()).to_string(),
        "AUTH PLAIN AHVzZXIAcGFzcw==\r\n"
    );
}

#[test]
fn auth_plain_decodes_to_nul_user_nul_pass() {
    let encoded = get_auth_plain("user", "pass");
    let decoded = base64::engine::general_purpose::STANDARD
        .decode(encoded.as_bytes())
        .unwrap();
    let mut expected = vec![0u8];
    expected.extend_from_slice(b"user");
    expected.push(0u8);
    expected.extend_from_slice(b"pass");
    assert_eq!(decoded, expected);
}

#[test]
fn base64_round_trip_is_identity() {
    let samples: Vec<&[u8]> = vec![b"", b"a", b"ab", b"abc", b"\x00user\x00pass", b"\xff\x00\x7f"];
    for s in samples {
        let encoded = base64::engine::general_purpose::STANDARD.encode(s);
        let decoded = base64::engine::general_purpose::STANDARD
            .decode(encoded.as_bytes())
            .unwrap();
        assert_eq!(decoded.as_slice(), s);
    }
}

#[test]
fn auth_login_tokens() {
    assert_eq!(get_auth_login("user"), "dXNlcg==");
    assert_eq!(get_auth_login("pass"), "cGFzcw==");
}
