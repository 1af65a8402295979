//! SMTP wire vocabulary: the closed set of status codes, reply lines, the
//! command codec and the AUTH payload encodings.

use vstd::prelude::*;

use base64::Engine;

use crate::Error;

verus! {

/// The closed enumeration of recognized SMTP status codes. An incoming
/// 3-digit number outside this set is a protocol error.
#[derive(Clone, Copy, PartialEq, Eq, Structural, Debug)]
pub enum StatusCode {
    SystemStatus,
    HelpMessage,
    ServiceReady,
    ServiceClosingChannel,
    AuthSuccess,
    Okay,
    UserNotLocal,
    CanNotVrfyButWillAttemp,
    StartMailInput,
    ServerChallenge,
    ServiceNotAvailable,
    PasswordTransition,
    MailboxUnavailable,
    LocalError,
    InsufficientStorage,
    TempAuthFailure,
    AccomodateParams,
    AuthLineTooLong,
    SyntaxError,
    CommandNotImplemented,
    BadSequence,
    ParamNotImplemented,
    AuthRequired,
    AuthMechWeak,
    AuthInvalidCred,
    AuthEncryptRequired,
    NoAccess,
    UserNotLocalError,
    ExeededAllocation,
    MailBoxNameNotAllowed,
    TransactionFailed,
    ParamsNotRecognized,
}

/// The status code denoted by a 3-digit number, if it is in the closed set.
pub open spec fn spec_status_code(code: u32) -> Option<StatusCode> {
    match code {
        211u32 => Some(StatusCode::SystemStatus),
        214u32 => Some(StatusCode::HelpMessage),
        220u32 => Some(StatusCode::ServiceReady),
        221u32 => Some(StatusCode::ServiceClosingChannel),
        235u32 => Some(StatusCode::AuthSuccess),
        250u32 => Some(StatusCode::Okay),
        251u32 => Some(StatusCode::UserNotLocal),
        252u32 => Some(StatusCode::CanNotVrfyButWillAttemp),
        334u32 => Some(StatusCode::ServerChallenge),
        354u32 => Some(StatusCode::StartMailInput),
        421u32 => Some(StatusCode::ServiceNotAvailable),
        432u32 => Some(StatusCode::PasswordTransition),
        450u32 => Some(StatusCode::MailboxUnavailable),
        451u32 => Some(StatusCode::LocalError),
        452u32 => Some(StatusCode::InsufficientStorage),
        454u32 => Some(StatusCode::TempAuthFailure),
        455u32 => Some(StatusCode::AccomodateParams),
        500u32 => Some(StatusCode::AuthLineTooLong),
        501u32 => Some(StatusCode::SyntaxError),
        502u32 => Some(StatusCode::CommandNotImplemented),
        503u32 => Some(StatusCode::BadSequence),
        504u32 => Some(StatusCode::ParamNotImplemented),
        530u32 => Some(StatusCode::AuthRequired),
        534u32 => Some(StatusCode::AuthMechWeak),
        535u32 => Some(StatusCode::AuthInvalidCred),
        538u32 => Some(StatusCode::AuthEncryptRequired),
        550u32 => Some(StatusCode::NoAccess),
        551u32 => Some(StatusCode::UserNotLocalError),
        552u32 => Some(StatusCode::ExeededAllocation),
        553u32 => Some(StatusCode::MailBoxNameNotAllowed),
        554u32 => Some(StatusCode::TransactionFailed),
        555u32 => Some(StatusCode::ParamsNotRecognized),
        _ => None,
    }
}

/// Whether a 3-digit number is one of the recognized status codes.
pub open spec fn known_code(code: u32) -> bool {
    spec_status_code(code) is Some
}

/// The status code denoted by a 3-digit number, if it is in the closed set.
pub fn status_code(code: u32) -> (r: Option<StatusCode>)
    ensures
        r == spec_status_code(code),
{
    match code {
        211 => Some(StatusCode::SystemStatus),
        214 => Some(StatusCode::HelpMessage),
        220 => Some(StatusCode::ServiceReady),
        221 => Some(StatusCode::ServiceClosingChannel),
        235 => Some(StatusCode::AuthSuccess),
        250 => Some(StatusCode::Okay),
        251 => Some(StatusCode::UserNotLocal),
        252 => Some(StatusCode::CanNotVrfyButWillAttemp),
        334 => Some(StatusCode::ServerChallenge),
        354 => Some(StatusCode::StartMailInput),
        421 => Some(StatusCode::ServiceNotAvailable),
        432 => Some(StatusCode::PasswordTransition),
        450 => Some(StatusCode::MailboxUnavailable),
        451 => Some(StatusCode::LocalError),
        452 => Some(StatusCode::InsufficientStorage),
        454 => Some(StatusCode::TempAuthFailure),
        455 => Some(StatusCode::AccomodateParams),
        500 => Some(StatusCode::AuthLineTooLong),
        501 => Some(StatusCode::SyntaxError),
        502 => Some(StatusCode::CommandNotImplemented),
        503 => Some(StatusCode::BadSequence),
        504 => Some(StatusCode::ParamNotImplemented),
        530 => Some(StatusCode::AuthRequired),
        534 => Some(StatusCode::AuthMechWeak),
        535 => Some(StatusCode::AuthInvalidCred),
        538 => Some(StatusCode::AuthEncryptRequired),
        550 => Some(StatusCode::NoAccess),
        551 => Some(StatusCode::UserNotLocalError),
        552 => Some(StatusCode::ExeededAllocation),
        553 => Some(StatusCode::MailBoxNameNotAllowed),
        554 => Some(StatusCode::TransactionFailed),
        555 => Some(StatusCode::ParamsNotRecognized),
        _ => None,
    }
}

/// One decoded reply line: a recognized status code, the line's text and
/// whether the separator marked it as the last line of its reply.
pub struct Line {
    pub code: StatusCode,
    pub text: String,
    pub last: bool,
}

impl Line {
    pub fn new(code: StatusCode, text: String, last: bool) -> (r: Line)
        ensures
            r.code == code,
            r.text == text,
            r.last == last,
    {
        Line { code, text, last }
    }

    /// Demand a particular status code; any other is a protocol error.
    pub fn expect(&self, code: StatusCode) -> (r: Result<(), Error>)
        ensures
            r is Ok <==> self.code == code,
            r is Err ==> r->Err_0 is Protocol,
    {
        if self.code != code {
            Err(Error::Protocol)
        } else {
            Ok(())
        }
    }

    pub fn code(&self) -> (r: StatusCode)
        ensures
            r == self.code,
    {
        self.code
    }

    pub fn text(&self) -> (r: String)
        ensures
            r@ == self.text@,
    {
        self.text.clone()
    }

    pub fn last(&self) -> (r: bool)
        ensures
            r == self.last,
    {
        self.last
    }
}

/// The EHLO capability keywords the client recognizes.
pub enum EhloLine {
    Pipelining,
    StartTls,
    EightBitMIME,
    Auth,
}

impl EhloLine {
    /// The keyword as it appears (upper-cased) in an EHLO reply line.
    pub fn to_string(&self) -> (r: String)
        ensures
            r@ == spec_ehlo_keyword(*self),
    {
        match self {
            EhloLine::Pipelining => "PIPELINING".to_owned(),
            EhloLine::StartTls => "STARTTLS".to_owned(),
            EhloLine::EightBitMIME => "8BITMIME".to_owned(),
            EhloLine::Auth => "AUTH".to_owned(),
        }
    }
}

pub open spec fn spec_ehlo_keyword(k: EhloLine) -> Seq<char> {
    match k {
        EhloLine::Pipelining => "PIPELINING"@,
        EhloLine::StartTls => "STARTTLS"@,
        EhloLine::EightBitMIME => "8BITMIME"@,
        EhloLine::Auth => "AUTH"@,
    }
}

/// The authentication mechanisms the client can perform.
pub enum AuthMech {
    Plain,
    Login,
}

impl AuthMech {
    /// The mechanism name as advertised in an EHLO `AUTH` line.
    pub fn to_string(&self) -> (r: String)
        ensures
            r@ == spec_auth_mech(*self),
    {
        match self {
            AuthMech::Plain => "PLAIN".to_owned(),
            AuthMech::Login => "LOGIN".to_owned(),
        }
    }
}

pub open spec fn spec_auth_mech(m: AuthMech) -> Seq<char> {
    match m {
        AuthMech::Plain => "PLAIN"@,
        AuthMech::Login => "LOGIN"@,
    }
}

/// A client command, rendered on the wire as one CRLF-terminated line.
pub enum Command {
    Ehlo(String),
    Quit,
    StartTls,
    MailFrom(String),
    RcptTo(String),
    Data,
    AuthPlain(String, String),
    AuthLogin,
}

/// The SASL PLAIN initial response before base64 encoding:
/// `NUL username NUL password`, each character narrowed to one byte.
pub open spec fn auth_plain_payload(u: Seq<char>, p: Seq<char>) -> Seq<u8> {
    seq![0u8] + u.map_values(|c: char| c as u8) + seq![0u8] + p.map_values(|c: char| c as u8)
}

/// The base64 rendering (standard alphabet, with padding) that the base64
/// crate gives to a byte sequence.
pub uninterp spec fn b64_of(bytes: Seq<u8>) -> Seq<char>;

/// Relies on base64's `Engine::encode` with the `general_purpose::STANDARD`
/// engine: standard alphabet with `=` padding, a pure function of the input
/// bytes, 4 output characters for every 3 input bytes rounded up. `encode`
/// panics when the output length overflows `usize`, so the input length is
/// kept under a quarter of `usize::MAX`.
#[verifier::external_body]
fn b64_encode(bytes: &Vec<u8>) -> (r: String)
    requires
        bytes@.len() <= usize::MAX / 4,
    ensures
        r@ == b64_of(bytes@),
        r@.len() == 4 * ((bytes@.len() + 2) / 3),
{
    base64::engine::general_purpose::STANDARD.encode(bytes)
}

/// True when both credential strings are short enough for their AUTH
/// renderings to fit in memory (a machine limit, not a protocol rule).
pub open spec fn creds_fit(u: Seq<char>, p: Seq<char>) -> bool {
    &&& u.len() + p.len() + 2 <= usize::MAX / 4
    &&& vstd::utf8::encode_utf8(u).len() <= usize::MAX / 4
    &&& vstd::utf8::encode_utf8(p).len() <= usize::MAX / 4
}

/// Append every character of `s`, narrowed to one byte, to `v`.
fn push_chars_as_bytes(v: &mut Vec<u8>, s: &str)
    requires
        old(v)@.len() + s@.len() <= usize::MAX,
    ensures
        final(v)@ == old(v)@ + s@.map_values(|c: char| c as u8),
{
    let n = s.unicode_len();
    let mut i: usize = 0;
    while i < n
        invariant
            i <= n,
            n == s@.len(),
            v@ == old(v)@ + s@.subrange(0, i as int).map_values(|c: char| c as u8),
        decreases n - i,
    {
        let c = s.get_char(i);
        v.push(c as u8);
        i = i + 1;
        proof {
            assert(s@.subrange(0, i as int).map_values(|ch: char| ch as u8) =~= s@.subrange(
                0,
                i - 1,
            ).map_values(|ch: char| ch as u8).push(s@[i - 1] as u8));
        }
    }
    proof {
        assert(s@.subrange(0, n as int) =~= s@);
    }
}

/// The base64-encoded SASL PLAIN initial response for a username and
/// password.
pub fn get_auth_plain(username: &str, password: &str) -> (r: String)
    requires
        creds_fit(username@, password@),
    ensures
        r@ == b64_of(auth_plain_payload(username@, password@)),
{
    let mut s: Vec<u8> = Vec::new();
    s.push(0u8);
    push_chars_as_bytes(&mut s, username);
    s.push(0u8);
    push_chars_as_bytes(&mut s, password);
    proof {
        assert(s@ =~= auth_plain_payload(username@, password@));
    }
    b64_encode(&s)
}

/// The base64 encoding of one AUTH LOGIN token (its UTF-8 bytes).
pub fn get_auth_login(token: &str) -> (r: String)
    requires
        vstd::utf8::encode_utf8(token@).len() <= usize::MAX / 4,
    ensures
        r@ == b64_of(vstd::utf8::encode_utf8(token@)),
{
    let bytes = token.as_bytes_vec();
    b64_encode(&bytes)
}

/// The SASL PLAIN payload determines the credentials: two payloads agree
/// only if username and password agree, for characters that fit in one
/// byte (their byte narrows back to the same character) and usernames
/// free of NUL. Decoding `NUL u NUL p` therefore recovers `u` and `p`.
pub proof fn lemma_auth_plain_payload_invertible(
    u1: Seq<char>,
    p1: Seq<char>,
    u2: Seq<char>,
    p2: Seq<char>,
)
    requires
        forall|i: int|
            0 <= i < u1.len() ==> (#[trigger] u1[i]) as u8 as char == u1[i] && u1[i] as u8 != 0,
        forall|i: int|
            0 <= i < u2.len() ==> (#[trigger] u2[i]) as u8 as char == u2[i] && u2[i] as u8 != 0,
        forall|i: int| 0 <= i < p1.len() ==> (#[trigger] p1[i]) as u8 as char == p1[i],
        forall|i: int| 0 <= i < p2.len() ==> (#[trigger] p2[i]) as u8 as char == p2[i],
        auth_plain_payload(u1, p1) == auth_plain_payload(u2, p2),
    ensures
        u1 == u2,
        p1 == p2,
{
    let b1 = auth_plain_payload(u1, p1);
    let b2 = auth_plain_payload(u2, p2);
    assert(forall|i: int| 0 <= i < u1.len() ==> b1[i + 1] == (#[trigger] u1[i]) as u8);
    assert(forall|i: int| 0 <= i < u2.len() ==> b2[i + 1] == (#[trigger] u2[i]) as u8);
    assert(b1[u1.len() as int + 1] == 0);
    assert(b2[u2.len() as int + 1] == 0);
    if u1.len() < u2.len() {
        assert(b2[u1.len() as int + 1] == u2[u1.len() as int] as u8);
        assert(false);
    }
    if u2.len() < u1.len() {
        assert(b1[u2.len() as int + 1] == u1[u2.len() as int] as u8);
        assert(false);
    }
    assert forall|i: int| 0 <= i < u1.len() implies u1[i] == u2[i] by {
        assert(b1[i + 1] == u1[i] as u8);
        assert(b2[i + 1] == u2[i] as u8);
        assert(u1[i] as u8 as char == u2[i] as u8 as char);
    }
    assert(u1 =~= u2);
    assert(b1.len() == b2.len());
    assert forall|i: int| 0 <= i < p1.len() implies p1[i] == p2[i] by {
        assert(b1[u1.len() as int + 2 + i] == p1.map_values(|c: char| c as u8)[i]);
        assert(b2[u2.len() as int + 2 + i] == p2.map_values(|c: char| c as u8)[i]);
        assert(p1[i] as u8 == p2[i] as u8);
        assert(p1[i] as u8 as char == p2[i] as u8 as char);
    }
    assert(p1.len() == p2.len());
    assert(p1 =~= p2);
}

/// The body of a command's rendering, before the terminating CRLF.
pub open spec fn spec_render_body(cmd: Command) -> Seq<char> {
    match cmd {
        Command::Data => "DATA"@,
        Command::Ehlo(me) => "EHLO "@ + me@,
        Command::StartTls => "STARTTLS"@,
        Command::Quit => "QUIT"@,
        Command::MailFrom(from) => "MAIL FROM:<"@ + from@ + ">"@,
        Command::RcptTo(to) => "RCPT TO:<"@ + to@ + ">"@,
        Command::AuthPlain(un, pw) => "AUTH PLAIN "@ + b64_of(auth_plain_payload(un@, pw@)),
        Command::AuthLogin => "AUTH LOGIN"@,
    }
}

/// The canonical one-line rendering of a command, CRLF included.
pub open spec fn spec_render(cmd: Command) -> Seq<char> {
    spec_render_body(cmd) + "\r\n"@
}

/// True when the command can be rendered without the base64 encoder
/// overflowing: only `AuthPlain` carries data that is encoded.
pub open spec fn command_fits(cmd: Command) -> bool {
    match cmd {
        Command::AuthPlain(un, pw) => creds_fit(un@, pw@),
        _ => true,
    }
}

impl Command {
    /// Render the command to its on-wire line, ending in CRLF.
    pub fn to_string(&self) -> (r: String)
        requires
            command_fits(*self),
        ensures
            r@ == spec_render(*self),
    {
        let mut cmd: String = match self {
            Command::Data => "DATA".to_owned(),
            Command::Ehlo(me) => {
                let mut s = "EHLO ".to_owned();
                s.append(me.as_str());
                s
            },
            Command::StartTls => "STARTTLS".to_owned(),
            Command::Quit => "QUIT".to_owned(),
            Command::MailFrom(from) => {
                let mut s = "MAIL FROM:<".to_owned();
                s.append(from.as_str());
                s.append(">");
                s
            },
            Command::RcptTo(to) => {
                let mut s = "RCPT TO:<".to_owned();
                s.append(to.as_str());
                s.append(">");
                s
            },
            Command::AuthPlain(un, pw) => {
                let mut s = "AUTH PLAIN ".to_owned();
                let b = get_auth_plain(un.as_str(), pw.as_str());
                s.append(b.as_str());
                s
            },
            Command::AuthLogin => "AUTH LOGIN".to_owned(),
        };
        cmd.append("\r\n");
        cmd
    }
}

/// Every rendered command ends in the two characters CR LF.
pub proof fn lemma_render_ends_crlf(cmd: Command)
    ensures
        spec_render(cmd).len() >= 2,
        spec_render(cmd)[spec_render(cmd).len() - 2] == '\r',
        spec_render(cmd)[spec_render(cmd).len() - 1] == '\n',
{
    reveal_strlit("\r\n");
}

} // verus!
