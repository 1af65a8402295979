use smtp::message::Mail;
use smtp::parser::stream_recv_reply;
use smtp::session::{Action, NetEvent, Session};
use smtp::{Config, Credentials, Error, Server};

fn reply_ev(script: &str) -> NetEvent {
    NetEvent::Reply(stream_recv_reply(script.as_bytes().to_vec()).unwrap())
}

fn sent(a: Action) -> Vec<u8> {
    match a {
        Action::Send(v) => v,
        _ => panic!("expected a send action"),
    }
}

fn expect_recv(a: Action) {
    assert!(matches!(a, Action::Recv));
}

fn session_mail() -> Mail {
    Mail {
        subject: "Hi".to_string(),
        from: "a@x.io".to_string(),
        from_name: None,
        to: "b@y.io".to_string(),
        to_name: None,
        text: "hello".to_string(),
        attachments: vec![],
    }
}

fn fresh_session(config: Config) -> Session {
    Session::new(Server::new("smtp.example.com".to_string(), 587), config)
}

fn creds() -> Credentials {
    Credentials::new("user".to_string(), "pass".to_string())
}

/// Scenario: plaintext, no TLS, PLAIN auth, one mail, serial.
#[test]
fn plaintext_plain_auth_one_mail_serial() {
    let mut s = fresh_session(Config::new());
    let a = s.start_connect(creds());
    assert!(matches!(a, Action::Dial));
    expect_recv(s.step(NetEvent::DialOk));
    let a = s.step(reply_ev("220 hi\r\n"));
    assert_eq!(sent(a), b"EHLO me\r\n");
    expect_recv(s.step(NetEvent::WriteOk));
    let a = s.step(reply_ev("250-hi\r\n250 AUTH PLAIN\r\n"));
    assert_eq!(sent(a), b"AUTH PLAIN AHVzZXIAcGFzcw==\r\n");
    expect_recv(s.step(NetEvent::WriteOk));
    let a = s.step(reply_ev("235 ok\r\n"));
    assert!(matches!(a, Action::Done(Ok(()))));

    let a = s.start_send_mail(session_mail());
    assert_eq!(sent(a), b"MAIL FROM:<a@x.io>\r\n");
    expect_recv(s.step(NetEvent::WriteOk));
    let a = s.step(reply_ev("250 ok\r\n"));
    assert_eq!(sent(a), b"RCPT TO:<b@y.io>\r\n");
    expect_recv(s.step(NetEvent::WriteOk));
    let a = s.step(reply_ev("250 ok\r\n"));
    assert_eq!(sent(a), b"DATA\r\n");
    expect_recv(s.step(NetEvent::WriteOk));
    let a = s.step(reply_ev("354 go\r\n"));
    let payload = sent(a);
    assert!(payload.ends_with(b"\r\n.\r\n"));
    assert!(payload.starts_with(b"From: <a@x.io>\r\nTo: <b@y.io>\r\nSubject: Hi\r\n\r\nhello"));
    expect_recv(s.step(NetEvent::WriteOk));
    let a = s.step(reply_ev("250 ok\r\n"));
    assert!(matches!(a, Action::Done(Ok(()))));

    let a = s.start_close();
    assert_eq!(sent(a), b"QUIT\r\n");
    expect_recv(s.step(NetEvent::WriteOk));
    let a = s.step(reply_ev("221 bye\r\n"));
    assert!(matches!(a, Action::Done(Ok(()))));
    assert!(s.is_closed());
}

/// Scenario: STARTTLS, a second EHLO, and the post-upgrade reply driving
/// the final capability set.
#[test]
fn starttls_rediscovers_capabilities() {
    let mut s = fresh_session(Config::new());
    assert!(matches!(s.start_connect(creds()), Action::Dial));
    expect_recv(s.step(NetEvent::DialOk));
    let a = s.step(reply_ev("220 hi\r\n"));
    assert_eq!(sent(a), b"EHLO me\r\n");
    expect_recv(s.step(NetEvent::WriteOk));
    let a = s.step(reply_ev("250-hi\r\n250-STARTTLS\r\n250 AUTH PLAIN\r\n"));
    assert_eq!(sent(a), b"STARTTLS\r\n");
    expect_recv(s.step(NetEvent::WriteOk));
    let a = s.step(reply_ev("220 go\r\n"));
    assert!(matches!(a, Action::UpgradeTls));
    // after the upgrade, the next command is the second EHLO
    let a = s.step(NetEvent::TlsOk);
    assert_eq!(sent(a), b"EHLO me\r\n");
    expect_recv(s.step(NetEvent::WriteOk));
    // the post-upgrade reply no longer advertises PLAIN: no AUTH is sent
    let a = s.step(reply_ev("250 hi\r\n"));
    assert!(matches!(a, Action::Done(Ok(()))));
}

/// Scenario: LOGIN authentication with two challenges, rejected.
#[test]
fn login_auth_rejected() {
    let mut s = fresh_session(Config::new());
    assert!(matches!(s.start_connect(creds()), Action::Dial));
    expect_recv(s.step(NetEvent::DialOk));
    let a = s.step(reply_ev("220 hi\r\n"));
    assert_eq!(sent(a), b"EHLO me\r\n");
    expect_recv(s.step(NetEvent::WriteOk));
    let a = s.step(reply_ev("250-hi\r\n250 AUTH LOGIN\r\n"));
    assert_eq!(sent(a), b"AUTH LOGIN\r\n");
    expect_recv(s.step(NetEvent::WriteOk));
    let a = s.step(reply_ev("334 VXNlcm5hbWU6\r\n"));
    assert_eq!(sent(a), b"dXNlcg==\r\n");
    expect_recv(s.step(NetEvent::WriteOk));
    let a = s.step(reply_ev("334 UGFzc3dvcmQ6\r\n"));
    assert_eq!(sent(a), b"cGFzcw==\r\n");
    expect_recv(s.step(NetEvent::WriteOk));
    let a = s.step(reply_ev("535 bad\r\n"));
    assert!(matches!(a, Action::Done(Err(Error::InvalidCred))));
}

/// Scenario: pipelining sends MAIL, RCPT and DATA in one burst and reads
/// the three replies in order.
#[test]
fn pipelining_success() {
    let mut s = fresh_session(Config::new());
    assert!(matches!(s.start_connect(creds()), Action::Dial));
    expect_recv(s.step(NetEvent::DialOk));
    let a = s.step(reply_ev("220 hi\r\n"));
    assert_eq!(sent(a), b"EHLO me\r\n");
    expect_recv(s.step(NetEvent::WriteOk));
    let a = s.step(reply_ev("250-hi\r\n250-PIPELINING\r\n250 AUTH PLAIN\r\n"));
    assert_eq!(sent(a), b"AUTH PLAIN AHVzZXIAcGFzcw==\r\n");
    expect_recv(s.step(NetEvent::WriteOk));
    let a = s.step(reply_ev("235 ok\r\n"));
    assert!(matches!(a, Action::Done(Ok(()))));

    let a = s.start_send_mail(session_mail());
    assert_eq!(
        sent(a),
        b"MAIL FROM:<a@x.io>\r\nRCPT TO:<b@y.io>\r\nDATA\r\n"
    );
    expect_recv(s.step(NetEvent::WriteOk));
    expect_recv(s.step(reply_ev("250 ok\r\n")));
    expect_recv(s.step(reply_ev("250 ok\r\n")));
    let a = s.step(reply_ev("354 go\r\n"));
    let payload = sent(a);
    assert!(payload.ends_with(b"\r\n.\r\n"));
    expect_recv(s.step(NetEvent::WriteOk));
    let a = s.step(reply_ev("250 ok\r\n"));
    assert!(matches!(a, Action::Done(Ok(()))));
}

/// Scenario: a 421 after DATA terminates the session; a later send fails
/// without any I/O.
#[test]
fn shutdown_421_mid_transaction() {
    let mut s = fresh_session(Config::new());
    assert!(matches!(s.start_connect(creds()), Action::Dial));
    expect_recv(s.step(NetEvent::DialOk));
    let a = s.step(reply_ev("220 hi\r\n"));
    sent(a);
    expect_recv(s.step(NetEvent::WriteOk));
    let a = s.step(reply_ev("250-hi\r\n250 AUTH PLAIN\r\n"));
    sent(a);
    expect_recv(s.step(NetEvent::WriteOk));
    assert!(matches!(s.step(reply_ev("235 ok\r\n")), Action::Done(Ok(()))));

    let a = s.start_send_mail(session_mail());
    sent(a);
    expect_recv(s.step(NetEvent::WriteOk));
    let a = s.step(reply_ev("250 ok\r\n"));
    sent(a);
    expect_recv(s.step(NetEvent::WriteOk));
    let a = s.step(reply_ev("250 ok\r\n"));
    sent(a);
    expect_recv(s.step(NetEvent::WriteOk));
    let a = s.step(reply_ev("421 shutting down\r\n"));
    assert!(matches!(a, Action::Done(Err(Error::ServerUnavailable))));
    assert!(s.is_closed());

    // the session is closed: the next send fails at once, without I/O
    let a = s.start_send_mail(session_mail());
    assert!(matches!(a, Action::Done(Err(Error::Network))));
    let a = s.start_close();
    assert!(matches!(a, Action::Done(Err(Error::Network))));
}

/// The retry budget: with `retries = 2`, two refused dials are survived
/// and the third attempt connects; three refusals exhaust the budget.
#[test]
fn retry_budget_survives_exactly_n_failures() {
    let mut config = Config::new();
    config.retires(2);
    let mut s = fresh_session(config.clone());
    assert!(matches!(s.start_connect(creds()), Action::Dial));
    assert!(matches!(s.step(NetEvent::DialRefused), Action::Dial));
    assert!(matches!(s.step(NetEvent::DialRefused), Action::Dial));
    expect_recv(s.step(NetEvent::DialOk));
    let a = s.step(reply_ev("220 hi\r\n"));
    assert_eq!(sent(a), b"EHLO me\r\n");
    expect_recv(s.step(NetEvent::WriteOk));
    // no capabilities, no authentication required
    let a = s.step(reply_ev("250 hi\r\n"));
    assert!(matches!(a, Action::Done(Ok(()))));

    let mut s = fresh_session(config);
    assert!(matches!(s.start_connect(creds()), Action::Dial));
    assert!(matches!(s.step(NetEvent::DialRefused), Action::Dial));
    assert!(matches!(s.step(NetEvent::DialRefused), Action::Dial));
    let a = s.step(NetEvent::DialRefused);
    assert!(matches!(a, Action::Done(Err(Error::ServerUnreachable))));
}

/// Pre-checks: invalid addresses and attachments without 8BITMIME are
/// rejected locally, before any bytes go out.
#[test]
fn send_mail_prechecks() {
    let mut s = fresh_session(Config::new());
    let mut bad_from = session_mail();
    bad_from.from = "Not An Address".to_string();
    match s.start_send_mail(bad_from) {
        Action::Done(Err(Error::MailBoxName(a))) => assert_eq!(a, "Not An Address"),
        _ => panic!("expected MailBoxName"),
    }
    let mut with_attachment = session_mail();
    with_attachment.attachments = vec!["photo.png".to_string()];
    assert!(matches!(
        s.start_send_mail(with_attachment),
        Action::Done(Err(Error::MIMENotSupported))
    ));
}

/// The RCPT stage classifies 551 as a forward hint carrying the server's
/// text.
#[test]
fn rcpt_forward_error() {
    let mut s = fresh_session(Config::new());
    assert!(matches!(s.start_connect(creds()), Action::Dial));
    expect_recv(s.step(NetEvent::DialOk));
    sent(s.step(reply_ev("220 hi\r\n")));
    expect_recv(s.step(NetEvent::WriteOk));
    assert!(matches!(s.step(reply_ev("250 hi\r\n")), Action::Done(Ok(()))));
    let a = s.start_send_mail(session_mail());
    sent(a);
    expect_recv(s.step(NetEvent::WriteOk));
    sent(s.step(reply_ev("250 ok\r\n")));
    expect_recv(s.step(NetEvent::WriteOk));
    match s.step(reply_ev("551 try b@z.io\r\n")) {
        Action::Done(Err(Error::Forward(t))) => assert_eq!(t, "try b@z.io"),
        _ => panic!("expected Forward"),
    }
}

/// A garbled greeting is `InvalidServer`; a well-formed non-220 greeting
/// is `Protocol`.
#[test]
fn greeting_errors() {
    let mut s = fresh_session(Config::new());
    assert!(matches!(s.start_connect(creds()), Action::Dial));
    expect_recv(s.step(NetEvent::DialOk));
    let a = s.step(NetEvent::RecvFailed(Error::Protocol));
    assert!(matches!(a, Action::Done(Err(Error::InvalidServer))));

    let mut s = fresh_session(Config::new());
    assert!(matches!(s.start_connect(creds()), Action::Dial));
    expect_recv(s.step(NetEvent::DialOk));
    let a = s.step(reply_ev("250 hello\r\n"));
    assert!(matches!(a, Action::Done(Err(Error::Protocol))));
}

/// An attachment-carrying mail over 8BITMIME asks for MIME bytes and
/// frames them with the terminating dot line.
#[test]
fn mime_payload_framing() {
    let mut s = fresh_session(Config::new());
    assert!(matches!(s.start_connect(creds()), Action::Dial));
    expect_recv(s.step(NetEvent::DialOk));
    sent(s.step(reply_ev("220 hi\r\n")));
    expect_recv(s.step(NetEvent::WriteOk));
    assert!(matches!(
        s.step(reply_ev("250-hi\r\n250 8BITMIME\r\n")),
        Action::Done(Ok(()))
    ));
    let mut mail = session_mail();
    mail.attachments = vec!["photo.png".to_string()];
    let a = s.start_send_mail(mail);
    sent(a);
    expect_recv(s.step(NetEvent::WriteOk));
    sent(s.step(reply_ev("250 ok\r\n")));
    expect_recv(s.step(NetEvent::WriteOk));
    sent(s.step(reply_ev("250 ok\r\n")));
    expect_recv(s.step(NetEvent::WriteOk));
    let a = s.step(reply_ev("354 go\r\n"));
    assert!(matches!(a, Action::BuildMime));
    let a = s.step(NetEvent::MimeOk(b"MIME-bytes".to_vec()));
    assert_eq!(sent(a), b"MIME-bytes\r\n.\r\n");
    expect_recv(s.step(NetEvent::WriteOk));
    assert!(matches!(s.step(reply_ev("250 ok\r\n")), Action::Done(Ok(()))));

    // a failing attachment read surfaces as a File error
    let mut mail = session_mail();
    mail.attachments = vec!["gone.png".to_string()];
    let a = s.start_send_mail(mail);
    sent(a);
    expect_recv(s.step(NetEvent::WriteOk));
    sent(s.step(reply_ev("250 ok\r\n")));
    expect_recv(s.step(NetEvent::WriteOk));
    sent(s.step(reply_ev("250 ok\r\n")));
    expect_recv(s.step(NetEvent::WriteOk));
    assert!(matches!(s.step(reply_ev("354 go\r\n")), Action::BuildMime));
    match s.step(NetEvent::MimeFailed("gone.png".to_string())) {
        Action::Done(Err(Error::File(p))) => assert_eq!(p, "gone.png"),
        _ => panic!("expected File error"),
    }
}

/// A write failure is a retriable network error: with budget left the
/// whole send restarts from MAIL FROM.
#[test]
fn send_retries_after_write_failure() {
    let mut config = Config::new();
    config.retires(1);
    let mut s = fresh_session(config);
    assert!(matches!(s.start_connect(creds()), Action::Dial));
    expect_recv(s.step(NetEvent::DialOk));
    sent(s.step(reply_ev("220 hi\r\n")));
    expect_recv(s.step(NetEvent::WriteOk));
    assert!(matches!(s.step(reply_ev("250 hi\r\n")), Action::Done(Ok(()))));

    let a = s.start_send_mail(session_mail());
    assert_eq!(sent(a), b"MAIL FROM:<a@x.io>\r\n");
    // the write fails once; the budget restarts the transaction
    let a = s.step(NetEvent::WriteFailed);
    assert_eq!(sent(a), b"MAIL FROM:<a@x.io>\r\n");
    expect_recv(s.step(NetEvent::WriteOk));
    sent(s.step(reply_ev("250 ok\r\n")));
    expect_recv(s.step(NetEvent::WriteOk));
    sent(s.step(reply_ev("250 ok\r\n")));
    expect_recv(s.step(NetEvent::WriteOk));
    sent(s.step(reply_ev("354 go\r\n")));
    expect_recv(s.step(NetEvent::WriteOk));
    assert!(matches!(s.step(reply_ev("250 ok\r\n")), Action::Done(Ok(()))));

    // with the budget spent, the next write failure ends the operation
    let a = s.start_send_mail(session_mail());
    sent(a);
    let a = s.step(NetEvent::WriteFailed);
    sent(a);
    let a = s.step(NetEvent::WriteFailed);
    assert!(matches!(a, Action::Done(Err(Error::Network))));
}

/// A 421 on a continuation line — of a reply whose first line looks fine
/// — also terminates the session, in any state.
#[test]
fn shutdown_on_continuation_line() {
    let mut s = fresh_session(Config::new());
    assert!(matches!(s.start_connect(creds()), Action::Dial));
    expect_recv(s.step(NetEvent::DialOk));
    sent(s.step(reply_ev("220 hi\r\n")));
    expect_recv(s.step(NetEvent::WriteOk));
    assert!(matches!(s.step(reply_ev("250 hi\r\n")), Action::Done(Ok(()))));
    let a = s.start_send_mail(session_mail());
    sent(a);
    expect_recv(s.step(NetEvent::WriteOk));
    let a = s.step(reply_ev("250-ok\r\n421 going down\r\n"));
    assert!(matches!(a, Action::Done(Err(Error::ServerUnavailable))));
    assert!(s.is_closed());

    // in the greeting the same observation surfaces as InvalidServer
    let mut s = fresh_session(Config::new());
    assert!(matches!(s.start_connect(creds()), Action::Dial));
    expect_recv(s.step(NetEvent::DialOk));
    let a = s.step(reply_ev("220-hi\r\n421 no\r\n"));
    assert!(matches!(a, Action::Done(Err(Error::InvalidServer))));
    assert!(s.is_closed());
}
