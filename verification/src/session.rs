//! The session engine: a state machine over the reply parser, the command
//! codec and a transport that the embedding program owns.
//!
//! The machine never performs I/O. Each public entry (`start_connect`,
//! `start_send_mail`, `start_close`) and each `step` returns an [`Action`]:
//! the one I/O step to perform next. The embedding program performs it and
//! reports what happened as a [`NetEvent`]; `Action::Done` ends the
//! operation. The whole dialogue — greeting, EHLO and capability
//! discovery, the STARTTLS upgrade with its second EHLO, both
//! authentication mechanisms, serial and pipelined mail transactions,
//! QUIT, the 421/554 shutdown filter and the bounded retry discipline —
//! is decided here and pinned by `step_rel`.

use vstd::prelude::*;

use crate::message::{spec_plain_payload, Mail};
use crate::protocol::{
    b64_of, command_fits, creds_fit, spec_render, AuthMech, Command, EhloLine, Line, StatusCode,
};
use crate::address::{check_address, spec_addr_valid};
use crate::{spec_retriable, Config, Credentials, Error, Server, ServerMeta, Support};

verus! {

/// The reply the machine is waiting for, which decides how the next parsed
/// reply is interpreted.
#[derive(Clone, Copy, PartialEq, Eq, Structural, Debug)]
pub enum ReplyState {
    Greeting,
    Ehlo,
    StartTls,
    LoginChallenge1,
    LoginChallenge2,
    AuthResult,
    MailFrom,
    PipeMailFrom,
    Rcpt,
    PipeRcpt,
    Data,
    Payload,
    Quit,
}

/// Where the machine stands inside the current operation.
#[derive(Clone, Copy, PartialEq, Eq, Structural, Debug)]
pub enum OpState {
    /// No operation in progress.
    Idle,
    /// A dial was requested.
    Dialing,
    /// Bytes were handed out for writing; a write report is due.
    AwaitWrite(ReplyState),
    /// A reply read was requested.
    AwaitReply(ReplyState),
    /// A TLS upgrade was requested.
    TlsUpgrade,
    /// MIME serialization of the current mail was requested.
    Mime,
}

/// Which public operation is running, for the retry discipline.
#[derive(Clone, Copy, PartialEq, Eq, Structural, Debug)]
pub enum OpKind {
    Inactive,
    Connect,
    SendMail,
    Close,
}

/// The one I/O step the embedding program must perform next.
pub enum Action {
    /// Dial the server; report `DialOk`, `DialDnsFailed` or `DialRefused`.
    Dial,
    /// Write these bytes; report `WriteOk` or `WriteFailed`.
    Send(Vec<u8>),
    /// Read and parse one complete reply; report `Reply` or `RecvFailed`.
    Recv,
    /// Upgrade the transport to TLS; report `TlsOk` or `TlsFailed`.
    UpgradeTls,
    /// Serialize the current mail to MIME bytes; report `MimeOk` or
    /// `MimeFailed` with the attachment path that could not be read.
    BuildMime,
    /// The operation finished with this result; nothing is pending.
    Done(Result<(), Error>),
}

/// What the embedding program observed while performing the last action.
pub enum NetEvent {
    DialOk,
    /// Name resolution produced no address.
    DialDnsFailed,
    /// The dial was refused or timed out.
    DialRefused,
    WriteOk,
    WriteFailed,
    /// One whole reply, parsed into lines.
    Reply(Vec<Line>),
    /// A read or parse failure, as the parser classified it.
    RecvFailed(Error),
    TlsOk,
    TlsFailed,
    MimeOk(Vec<u8>),
    MimeFailed(String),
}

/// The session: configuration, target, capability knowledge and the state
/// of the running operation.
pub struct Session {
    pub config: Config,
    pub server: Server,
    pub name: String,
    pub tls_active: bool,
    pub closed: bool,
    pub op: OpState,
    pub kind: OpKind,
    pub retries_left: u32,
    pub creds: Option<Credentials>,
    pub mail: Option<Mail>,
}

/// The bytes a string goes out as on the wire.
pub open spec fn wire_bytes(s: Seq<char>) -> Seq<u8> {
    vstd::utf8::encode_utf8(s)
}

/// The end-of-data terminator `CR LF . CR LF`.
pub open spec fn term_bytes() -> Seq<u8> {
    seq![13u8, 10u8, 46u8, 13u8, 10u8]
}

/// A 421 or 554 line: the server is shutting the session down.
pub open spec fn line_shutdown(l: Line) -> bool {
    l.code is ServiceNotAvailable || l.code is TransactionFailed
}

/// Some line of the reply is a 421 or 554.
pub open spec fn reply_has_shutdown(lines: Seq<Line>) -> bool {
    exists|i: int| 0 <= i < lines.len() && line_shutdown(#[trigger] lines[i])
}

/// Same error, with carried strings compared by contents.
pub open spec fn err_like(a: Error, b: Error) -> bool {
    match (a, b) {
        (Error::Protocol, Error::Protocol) => true,
        (Error::ServerUnreachable, Error::ServerUnreachable) => true,
        (Error::ServerUnavailable, Error::ServerUnavailable) => true,
        (Error::InvalidServer, Error::InvalidServer) => true,
        (Error::Network, Error::Network) => true,
        (Error::InvalidCred, Error::InvalidCred) => true,
        (Error::Policy, Error::Policy) => true,
        (Error::MIMENotSupported, Error::MIMENotSupported) => true,
        (Error::DNS, Error::DNS) => true,
        (Error::MailBoxName(x), Error::MailBoxName(y)) => x@ == y@,
        (Error::Forward(x), Error::Forward(y)) => x@ == y@,
        (Error::File(x), Error::File(y)) => x@ == y@,
        _ => false,
    }
}

/// The action is `Done` with this error.
pub open spec fn done_err(act: Action, e: Error) -> bool {
    act matches Action::Done(r) && r matches Err(e2) && err_like(e2, e)
}

/// The action is `Done(Ok(()))`.
pub open spec fn done_ok(act: Action) -> bool {
    act matches Action::Done(r) && r is Ok
}

/// The action writes exactly these bytes.
pub open spec fn sends(act: Action, bytes: Seq<u8>) -> bool {
    act matches Action::Send(v) && v@ == bytes
}

/// The session after `terminate`: transport shut, TLS gone, capabilities
/// forgotten.
pub open spec fn spec_terminated(s: Session) -> Session {
    Session {
        closed: true,
        tls_active: false,
        server: Server { meta: ServerMeta::fresh(), ..s.server },
        ..s
    }
}

/// The capability reset applied before each EHLO evaluation: STARTTLS is
/// assumed unsupported until advertised again, and over TLS a pre-upgrade
/// PLAIN advertisement is discarded.
pub open spec fn meta_reset(m: ServerMeta, tls_active: bool) -> ServerMeta {
    ServerMeta {
        tls: Support::NotSupported,
        auth_plain: if tls_active {
            Support::NotSupported
        } else {
            m.auth_plain
        },
        ..m
    }
}

/// The upper-cased form of an ASCII letter; other characters unchanged.
pub open spec fn upper_char(c: char) -> char {
    if 97 <= c as u32 && c as u32 <= 122 {
        ((c as u8) - 32) as char
    } else {
        c
    }
}

pub open spec fn spec_upper(s: Seq<char>) -> Seq<char> {
    s.map_values(|c: char| upper_char(c))
}

/// Words of a line split at every single space, empty words preserved.
pub open spec fn split_sp(s: Seq<char>) -> Seq<Seq<char>>
    decreases s.len(),
{
    if s.len() == 0 {
        seq![Seq::<char>::empty()]
    } else if s[0] == ' ' {
        seq![Seq::<char>::empty()] + split_sp(s.skip(1))
    } else {
        let rest = split_sp(s.skip(1));
        seq![seq![s[0]] + rest[0]] + rest.skip(1)
    }
}

pub proof fn lemma_split_sp_len(s: Seq<char>)
    ensures
        split_sp(s).len() >= 1,
    decreases s.len(),
{
    if s.len() == 0 {
    } else {
        lemma_split_sp_len(s.skip(1));
    }
}

/// Whether an upper-cased EHLO line advertises an AUTH mechanism: its
/// first word is `AUTH` and some later word is the mechanism name.
pub open spec fn auth_line_offers(u: Seq<char>, mech: Seq<char>) -> bool {
    let w = split_sp(u);
    &&& w[0] == "AUTH"@
    &&& exists|i: int| 1 <= i < w.len() && w[i] == mech
}

/// The capability set after evaluating one EHLO line.
pub open spec fn meta_after_line(m: ServerMeta, text: Seq<char>) -> ServerMeta {
    let u = spec_upper(text);
    if u == "STARTTLS"@ {
        ServerMeta { tls: Support::Supported, ..m }
    } else if u == "8BITMIME"@ {
        ServerMeta { eight_bit_mime: Support::Supported, ..m }
    } else if u == "PIPELINING"@ {
        ServerMeta { pipelining: Support::Supported, ..m }
    } else {
        ServerMeta {
            auth_plain: if auth_line_offers(u, "PLAIN"@) {
                Support::Supported
            } else {
                m.auth_plain
            },
            auth_login: if auth_line_offers(u, "LOGIN"@) {
                Support::Supported
            } else {
                m.auth_login
            },
            ..m
        }
    }
}

/// The capability set after evaluating the EHLO lines from index `i` on.
pub open spec fn meta_after_lines(m: ServerMeta, lines: Seq<Line>, i: int) -> ServerMeta
    decreases lines.len() - i,
{
    if i < 0 || i >= lines.len() {
        m
    } else {
        meta_after_lines(meta_after_line(m, lines[i].text@), lines, i + 1)
    }
}

/// The operation kind a reply state belongs to.
pub open spec fn kind_of_reply(rs: ReplyState) -> OpKind {
    match rs {
        ReplyState::Greeting => OpKind::Connect,
        ReplyState::Ehlo => OpKind::Connect,
        ReplyState::StartTls => OpKind::Connect,
        ReplyState::LoginChallenge1 => OpKind::Connect,
        ReplyState::LoginChallenge2 => OpKind::Connect,
        ReplyState::AuthResult => OpKind::Connect,
        ReplyState::MailFrom => OpKind::SendMail,
        ReplyState::PipeMailFrom => OpKind::SendMail,
        ReplyState::Rcpt => OpKind::SendMail,
        ReplyState::PipeRcpt => OpKind::SendMail,
        ReplyState::Data => OpKind::SendMail,
        ReplyState::Payload => OpKind::SendMail,
        ReplyState::Quit => OpKind::Close,
    }
}

/// The operation kind an operation state belongs to, where it implies one.
pub open spec fn op_kind_ok(s: Session) -> bool {
    match s.op {
        OpState::Idle => true,
        OpState::Dialing => s.kind is Connect,
        OpState::AwaitWrite(rs) => s.kind == kind_of_reply(rs),
        OpState::AwaitReply(rs) => s.kind == kind_of_reply(rs),
        OpState::TlsUpgrade => s.kind is Connect,
        OpState::Mime => s.kind is SendMail,
    }
}

impl Session {
    /// The machine's well-formedness: a running connect has credentials
    /// that fit in an AUTH line, a running send has its mail.
    pub open spec fn wf(self) -> bool {
        &&& (self.kind is Connect ==> self.creds is Some)
        &&& (self.kind is SendMail ==> self.mail is Some)
        &&& match self.creds {
            Some(c) => creds_fit(c.username@, c.password@),
            None => true,
        }
        &&& op_kind_ok(self)
    }

    /// A fresh session for a target server: nothing running, nothing
    /// known, client name `me`.
    pub fn new(server: Server, config: Config) -> (r: Session)
        ensures
            r.server == server,
            r.config == config,
            r.name@ == "me"@,
            r.op is Idle,
            r.kind is Inactive,
            r.closed == false,
            r.tls_active == false,
            r.creds is None,
            r.mail is None,
            r.wf(),
    {
        Session {
            config,
            server,
            name: "me".to_owned(),
            tls_active: false,
            closed: false,
            op: OpState::Idle,
            kind: OpKind::Inactive,
            retries_left: 0,
            creds: None,
            mail: None,
        }
    }

    pub fn is_closed(&self) -> (r: bool)
        ensures
            r == self.closed,
    {
        self.closed
    }
}

/// The first action of the running operation, with local pre-checks
/// resolved: where it can only fail over the dead transport, the budget is
/// drained and the operation fails with `Network` at once.
pub open spec fn begin_rel(pre: Session, post: Session, act: Action) -> bool {
    match pre.kind {
        OpKind::Inactive => post == pre && done_err(act, Error::Network),
        OpKind::Connect => post == (Session { op: OpState::Dialing, ..pre }) && act is Dial,
        OpKind::Close => {
            if pre.closed {
                post == (Session { op: OpState::Idle, retries_left: 0, ..pre }) && done_err(
                    act,
                    Error::Network,
                )
            } else {
                post == (Session { op: OpState::AwaitWrite(ReplyState::Quit), ..pre }) && sends(
                    act,
                    wire_bytes(spec_render(Command::Quit)),
                )
            }
        },
        OpKind::SendMail => {
            let m = pre.mail->Some_0;
            if !spec_addr_valid(m.from@) {
                post == (Session { op: OpState::Idle, ..pre }) && done_err(
                    act,
                    Error::MailBoxName(m.from),
                )
            } else if !spec_addr_valid(m.to@) {
                post == (Session { op: OpState::Idle, ..pre }) && done_err(
                    act,
                    Error::MailBoxName(m.to),
                )
            } else if m.attachments@.len() > 0 && !(pre.server.meta.eight_bit_mime
                is Supported) {
                post == (Session { op: OpState::Idle, ..pre }) && done_err(
                    act,
                    Error::MIMENotSupported,
                )
            } else if pre.closed {
                post == (Session { op: OpState::Idle, retries_left: 0, ..pre }) && done_err(
                    act,
                    Error::Network,
                )
            } else if pre.config.pipeline && pre.server.meta.pipelining is Supported {
                post == (Session { op: OpState::AwaitWrite(ReplyState::PipeMailFrom), ..pre })
                    && sends(
                    act,
                    wire_bytes(
                        spec_render(Command::MailFrom(m.from)) + spec_render(
                            Command::RcptTo(m.to),
                        ) + spec_render(Command::Data),
                    ),
                )
            } else {
                post == (Session { op: OpState::AwaitWrite(ReplyState::MailFrom), ..pre })
                    && sends(act, wire_bytes(spec_render(Command::MailFrom(m.from))))
            }
        },
    }
}

/// The retry discipline at an operation failure: a retriable error with
/// budget left restarts the operation with one retry fewer; otherwise the
/// operation ends with the error.
pub open spec fn fail_rel(pre: Session, e: Error, post: Session, act: Action) -> bool {
    if spec_retriable(&e) && pre.retries_left > 0 {
        begin_rel(
            Session { retries_left: (pre.retries_left - 1) as u32, ..pre },
            post,
            act,
        )
    } else {
        post == (Session { op: OpState::Idle, ..pre }) && done_err(act, e)
    }
}

/// How a parsed reply drives the machine, by the reply state. `lines` is
/// non-empty. A 421 or 554 at any line of any reply shuts the session
/// down first; only then does the awaited state read the first line.
pub open spec fn reply_rel(
    pre: Session,
    rs: ReplyState,
    lines: Seq<Line>,
    post: Session,
    act: Action,
) -> bool {
    if reply_has_shutdown(lines) {
        if rs is Greeting {
            fail_rel(spec_terminated(pre), Error::InvalidServer, post, act)
        } else {
            fail_rel(spec_terminated(pre), Error::ServerUnavailable, post, act)
        }
    } else {
        let l0 = lines[0];
        match rs {
            ReplyState::Greeting => {
                if l0.code is ServiceReady {
                    post == (Session { op: OpState::AwaitWrite(ReplyState::Ehlo), ..pre })
                        && sends(act, wire_bytes(spec_render(Command::Ehlo(pre.name))))
                } else {
                    fail_rel(pre, Error::Protocol, post, act)
                }
            },
            ReplyState::Ehlo => {
                if exists|i: int| 0 <= i < lines.len() && !((#[trigger] lines[i]).code
                    is Okay) {
                    fail_rel(
                        Session {
                            server: Server {
                                meta: meta_reset(pre.server.meta, pre.tls_active),
                                ..pre.server
                            },
                            ..pre
                        },
                        Error::Protocol,
                        post,
                        act,
                    )
                } else {
                    let m2 = meta_after_lines(
                        meta_reset(pre.server.meta, pre.tls_active),
                        lines,
                        1,
                    );
                    let pre2 = Session { server: Server { meta: m2, ..pre.server }, ..pre };
                    if !pre.tls_active && m2.tls is Supported {
                        post == (Session {
                            op: OpState::AwaitWrite(ReplyState::StartTls),
                            ..pre2
                        }) && sends(act, wire_bytes(spec_render(Command::StartTls)))
                    } else if m2.auth_plain is Supported {
                        post == (Session {
                            op: OpState::AwaitWrite(ReplyState::AuthResult),
                            ..pre2
                        }) && sends(
                            act,
                            wire_bytes(
                                spec_render(
                                    Command::AuthPlain(
                                        pre.creds->Some_0.username,
                                        pre.creds->Some_0.password,
                                    ),
                                ),
                            ),
                        )
                    } else if m2.auth_login is Supported {
                        post == (Session {
                            op: OpState::AwaitWrite(ReplyState::LoginChallenge1),
                            ..pre2
                        }) && sends(act, wire_bytes(spec_render(Command::AuthLogin)))
                    } else {
                        post == (Session { op: OpState::Idle, ..pre2 }) && done_ok(act)
                    }
                }
            },
            ReplyState::StartTls => {
                if l0.code is ServiceReady {
                    post == (Session { op: OpState::TlsUpgrade, ..pre }) && act is UpgradeTls
                } else {
                    fail_rel(pre, Error::Protocol, post, act)
                }
            },
            ReplyState::LoginChallenge1 => {
                if l0.code is ServerChallenge {
                    post == (Session {
                        op: OpState::AwaitWrite(ReplyState::LoginChallenge2),
                        ..pre
                    }) && sends(
                        act,
                        wire_bytes(
                            b64_of(vstd::utf8::encode_utf8(pre.creds->Some_0.username@))
                                + "\r\n"@,
                        ),
                    )
                } else {
                    fail_rel(pre, Error::Protocol, post, act)
                }
            },
            ReplyState::LoginChallenge2 => {
                if l0.code is ServerChallenge {
                    post == (Session { op: OpState::AwaitWrite(ReplyState::AuthResult), ..pre })
                        && sends(
                        act,
                        wire_bytes(
                            b64_of(vstd::utf8::encode_utf8(pre.creds->Some_0.password@))
                                + "\r\n"@,
                        ),
                    )
                } else {
                    fail_rel(pre, Error::Protocol, post, act)
                }
            },
            ReplyState::AuthResult => {
                if l0.code is AuthSuccess {
                    post == (Session { op: OpState::Idle, ..pre }) && done_ok(act)
                } else if l0.code is AuthInvalidCred || l0.code is NoAccess {
                    fail_rel(pre, Error::InvalidCred, post, act)
                } else {
                    fail_rel(pre, Error::Protocol, post, act)
                }
            },
            ReplyState::MailFrom | ReplyState::PipeMailFrom => {
                if l0.code is Okay {
                    if rs is PipeMailFrom {
                        post == (Session { op: OpState::AwaitReply(ReplyState::PipeRcpt), ..pre })
                            && act is Recv
                    } else {
                        post == (Session { op: OpState::AwaitWrite(ReplyState::Rcpt), ..pre })
                            && sends(
                            act,
                            wire_bytes(spec_render(Command::RcptTo(pre.mail->Some_0.to))),
                        )
                    }
                } else if l0.code is NoAccess {
                    fail_rel(pre, Error::Policy, post, act)
                } else if l0.code is MailBoxNameNotAllowed {
                    fail_rel(pre, Error::MailBoxName(pre.mail->Some_0.from), post, act)
                } else {
                    fail_rel(pre, Error::Protocol, post, act)
                }
            },
            ReplyState::Rcpt | ReplyState::PipeRcpt => {
                if l0.code is Okay || l0.code is UserNotLocal {
                    if rs is PipeRcpt {
                        post == (Session { op: OpState::AwaitReply(ReplyState::Data), ..pre })
                            && act is Recv
                    } else {
                        post == (Session { op: OpState::AwaitWrite(ReplyState::Data), ..pre })
                            && sends(act, wire_bytes(spec_render(Command::Data)))
                    }
                } else if l0.code is NoAccess || l0.code is MailboxUnavailable {
                    fail_rel(pre, Error::Policy, post, act)
                } else if l0.code is MailBoxNameNotAllowed {
                    fail_rel(pre, Error::MailBoxName(pre.mail->Some_0.to), post, act)
                } else if l0.code is UserNotLocalError {
                    fail_rel(pre, Error::Forward(l0.text), post, act)
                } else {
                    fail_rel(pre, Error::Protocol, post, act)
                }
            },
            ReplyState::Data => {
                if l0.code is StartMailInput {
                    if pre.server.meta.eight_bit_mime is Supported {
                        post == (Session { op: OpState::Mime, ..pre }) && act is BuildMime
                    } else {
                        post == (Session { op: OpState::AwaitWrite(ReplyState::Payload), ..pre })
                            && sends(
                            act,
                            wire_bytes(spec_plain_payload(pre.mail->Some_0) + "\r\n.\r\n"@),
                        )
                    }
                } else {
                    fail_rel(pre, Error::Protocol, post, act)
                }
            },
            ReplyState::Payload => {
                if l0.code is Okay {
                    post == (Session { op: OpState::Idle, ..pre }) && done_ok(act)
                } else if l0.code is NoAccess || l0.code is MailboxUnavailable {
                    fail_rel(pre, Error::Policy, post, act)
                } else {
                    fail_rel(pre, Error::Protocol, post, act)
                }
            },
            ReplyState::Quit => {
                if l0.code is ServiceClosingChannel {
                    post == (Session { op: OpState::Idle, ..spec_terminated(pre) }) && done_ok(
                        act,
                    )
                } else {
                    fail_rel(pre, Error::Protocol, post, act)
                }
            },
        }
    }
}

/// For every reply state but `Ehlo`, once no line of the reply carries
/// the shutdown signal, only the first line decides the transition.
pub proof fn lemma_reply_rel_first(
    pre: Session,
    rs: ReplyState,
    lines: Seq<Line>,
    post: Session,
    act: Action,
)
    requires
        !(rs is Ehlo),
        lines.len() > 0,
        !reply_has_shutdown(lines),
    ensures
        reply_rel(pre, rs, lines, post, act) == reply_rel(pre, rs, seq![lines[0]], post, act),
{
    assert(seq![lines[0]][0] == lines[0]);
    assert(!line_shutdown(lines[0]));
    assert forall|i: int| 0 <= i < 1 implies !line_shutdown(#[trigger] seq![lines[0]][i]) by {
        assert(seq![lines[0]][i] == lines[0]);
    }
    assert(!reply_has_shutdown(seq![lines[0]]));
}

/// The full transition relation of `step`: exactly one case applies to the
/// machine's state and the event, and it pins the new state and the
/// action.
pub open spec fn step_rel(pre: Session, ev: NetEvent, post: Session, act: Action) -> bool {
    match pre.op {
        OpState::Idle => post == pre && done_err(act, Error::Network),
        OpState::Dialing => match ev {
            NetEvent::DialOk => post == (Session {
                op: OpState::AwaitReply(ReplyState::Greeting),
                closed: false,
                ..pre
            }) && act is Recv,
            NetEvent::DialDnsFailed => fail_rel(pre, Error::DNS, post, act),
            NetEvent::DialRefused => fail_rel(pre, Error::ServerUnreachable, post, act),
            _ => fail_rel(pre, Error::Network, post, act),
        },
        OpState::AwaitWrite(rs) => match ev {
            NetEvent::WriteOk => post == (Session { op: OpState::AwaitReply(rs), ..pre }) && act
                is Recv,
            _ => fail_rel(pre, Error::Network, post, act),
        },
        OpState::TlsUpgrade => match ev {
            NetEvent::TlsOk => post == (Session {
                op: OpState::AwaitWrite(ReplyState::Ehlo),
                tls_active: true,
                ..pre
            }) && sends(act, wire_bytes(spec_render(Command::Ehlo(pre.name)))),
            _ => fail_rel(pre, Error::Network, post, act),
        },
        OpState::Mime => match ev {
            NetEvent::MimeOk(bytes) => post == (Session {
                op: OpState::AwaitWrite(ReplyState::Payload),
                ..pre
            }) && sends(act, bytes@ + term_bytes()),
            NetEvent::MimeFailed(path) => fail_rel(pre, Error::File(path), post, act),
            _ => fail_rel(pre, Error::Network, post, act),
        },
        OpState::AwaitReply(rs) => match ev {
            NetEvent::Reply(lines) => if lines@.len() == 0 {
                fail_rel(pre, Error::Network, post, act)
            } else {
                reply_rel(pre, rs, lines@, post, act)
            },
            NetEvent::RecvFailed(e) => if rs is Greeting {
                fail_rel(pre, Error::InvalidServer, post, act)
            } else {
                fail_rel(pre, e, post, act)
            },
            _ => fail_rel(pre, Error::Network, post, act),
        },
    }
}

impl Session {
    /// Shut the session down: the embedding program closes the socket when
    /// it sees `closed`; capabilities and the TLS flag are forgotten.
    fn terminate(&mut self)
        ensures
            *final(self) == spec_terminated(*old(self)),
    {
        self.closed = true;
        self.tls_active = false;
        self.server.meta = ServerMeta::new();
    }

    /// Resolve an operation failure against the retry budget.
    fn fail(&mut self, e: Error) -> (r: Action)
        requires
            old(self).wf(),
        ensures
            final(self).wf(),
            fail_rel(*old(self), e, *final(self), r),
            final(self).mail == old(self).mail,
            final(self).kind == old(self).kind,
            final(self).creds == old(self).creds,
            final(self).config == old(self).config,
            final(self).name == old(self).name,
    {
        let retriable = e.retriable();
        if retriable && self.retries_left > 0 {
            self.retries_left = self.retries_left - 1;
            self.begin_op()
        } else {
            self.op = OpState::Idle;
            Action::Done(Err(e))
        }
    }

    /// Issue the first action of the operation named by `kind`.
    fn begin_op(&mut self) -> (r: Action)
        requires
            old(self).wf(),
        ensures
            final(self).wf(),
            begin_rel(*old(self), *final(self), r),
            final(self).mail == old(self).mail,
            final(self).kind == old(self).kind,
            final(self).creds == old(self).creds,
            final(self).config == old(self).config,
            final(self).name == old(self).name,
    {
        match self.kind {
            OpKind::Inactive => Action::Done(Err(Error::Network)),
            OpKind::Connect => {
                self.op = OpState::Dialing;
                Action::Dial
            },
            OpKind::Close => {
                if self.closed {
                    self.op = OpState::Idle;
                    self.retries_left = 0;
                    Action::Done(Err(Error::Network))
                } else {
                    self.op = OpState::AwaitWrite(ReplyState::Quit);
                    Action::Send(command_bytes(Command::Quit))
                }
            },
            OpKind::SendMail => {
                let (from, to) = match &self.mail {
                    Some(m) => (m.from.clone(), m.to.clone()),
                    None => (String::new(), String::new()),
                };
                if let Err(e) = check_address(from.as_str()) {
                    self.op = OpState::Idle;
                    return Action::Done(Err(e));
                }
                if let Err(e) = check_address(to.as_str()) {
                    self.op = OpState::Idle;
                    return Action::Done(Err(e));
                }
                let (has_attachments, mime_ok) = match &self.mail {
                    Some(m) => (m.attachments.len() > 0, matches!(
                        self.server.meta.eight_bit_mime,
                        Support::Supported
                    )),
                    None => (false, false),
                };
                if has_attachments && !mime_ok {
                    self.op = OpState::Idle;
                    return Action::Done(Err(Error::MIMENotSupported));
                }
                if self.closed {
                    self.op = OpState::Idle;
                    self.retries_left = 0;
                    return Action::Done(Err(Error::Network));
                }
                let pipelined = self.config.pipeline && matches!(
                    self.server.meta.pipelining,
                    Support::Supported
                );
                if pipelined {
                    self.op = OpState::AwaitWrite(ReplyState::PipeMailFrom);
                    let mut s = Command::MailFrom(from).to_string();
                    s.append(Command::RcptTo(to).to_string().as_str());
                    s.append(Command::Data.to_string().as_str());
                    Action::Send(s.as_str().as_bytes_vec())
                } else {
                    self.op = OpState::AwaitWrite(ReplyState::MailFrom);
                    Action::Send(command_bytes(Command::MailFrom(from)))
                }
            },
        }
    }

    /// Begin connecting: dial, read the greeting, negotiate EHLO and
    /// STARTTLS, authenticate. The retry budget is the configured count.
    pub fn start_connect(&mut self, credentials: Credentials) -> (r: Action)
        requires
            old(self).wf(),
            creds_fit(credentials.username@, credentials.password@),
        ensures
            final(self).wf(),
            begin_rel(
                Session {
                    kind: OpKind::Connect,
                    retries_left: old(self).config.retries,
                    creds: Some(credentials),
                    ..*old(self)
                },
                *final(self),
                r,
            ),
    {
        self.creds = Some(credentials);
        self.kind = OpKind::Connect;
        self.retries_left = self.config.retries;
        self.op = OpState::Idle;
        self.begin_op()
    }

    /// Begin sending one mail over the negotiated session.
    pub fn start_send_mail(&mut self, mail: Mail) -> (r: Action)
        requires
            old(self).wf(),
        ensures
            final(self).wf(),
            begin_rel(
                Session {
                    kind: OpKind::SendMail,
                    retries_left: old(self).config.retries,
                    mail: Some(mail),
                    ..*old(self)
                },
                *final(self),
                r,
            ),
    {
        self.mail = Some(mail);
        self.kind = OpKind::SendMail;
        self.retries_left = self.config.retries;
        self.op = OpState::Idle;
        self.begin_op()
    }

    /// Begin closing: QUIT, expect 221, shut down.
    pub fn start_close(&mut self) -> (r: Action)
        requires
            old(self).wf(),
        ensures
            final(self).wf(),
            begin_rel(
                Session {
                    kind: OpKind::Close,
                    retries_left: old(self).config.retries,
                    ..*old(self)
                },
                *final(self),
                r,
            ),
    {
        self.kind = OpKind::Close;
        self.retries_left = self.config.retries;
        self.op = OpState::Idle;
        self.begin_op()
    }

    /// Drive the machine with what the last action observed; the returned
    /// action is the next step.
    pub fn step(&mut self, ev: NetEvent) -> (r: Action)
        requires
            old(self).wf(),
        ensures
            final(self).wf(),
            step_rel(*old(self), ev, *final(self), r),
            final(self).mail == old(self).mail,
            final(self).kind == old(self).kind,
            final(self).creds == old(self).creds,
            final(self).config == old(self).config,
            final(self).name == old(self).name,
    {
        match self.op {
            OpState::Idle => Action::Done(Err(Error::Network)),
            OpState::Dialing => match ev {
                NetEvent::DialOk => {
                    self.closed = false;
                    self.op = OpState::AwaitReply(ReplyState::Greeting);
                    Action::Recv
                },
                NetEvent::DialDnsFailed => self.fail(Error::DNS),
                NetEvent::DialRefused => self.fail(Error::ServerUnreachable),
                _ => self.fail(Error::Network),
            },
            OpState::AwaitWrite(rs) => match ev {
                NetEvent::WriteOk => {
                    self.op = OpState::AwaitReply(rs);
                    Action::Recv
                },
                _ => self.fail(Error::Network),
            },
            OpState::TlsUpgrade => match ev {
                NetEvent::TlsOk => {
                    self.tls_active = true;
                    self.op = OpState::AwaitWrite(ReplyState::Ehlo);
                    Action::Send(command_bytes(Command::Ehlo(self.name.clone())))
                },
                _ => self.fail(Error::Network),
            },
            OpState::Mime => match ev {
                NetEvent::MimeOk(bytes) => {
                    self.op = OpState::AwaitWrite(ReplyState::Payload);
                    let ghost gb = bytes@;
                    let mut v = bytes;
                    v.push(13);
                    v.push(10);
                    v.push(46);
                    v.push(13);
                    v.push(10);
                    proof {
                        assert(v@ =~= gb + term_bytes());
                    }
                    Action::Send(v)
                },
                NetEvent::MimeFailed(path) => self.fail(Error::File(path)),
                _ => self.fail(Error::Network),
            },
            OpState::AwaitReply(rs) => match ev {
                NetEvent::Reply(lines) => {
                    if lines.len() == 0 {
                        self.fail(Error::Network)
                    } else {
                        self.handle_reply(rs, lines)
                    }
                },
                NetEvent::RecvFailed(e) => {
                    if matches!(rs, ReplyState::Greeting) {
                        self.fail(Error::InvalidServer)
                    } else {
                        self.fail(e)
                    }
                },
                _ => self.fail(Error::Network),
            },
        }
    }

    /// Interpret one parsed reply according to the awaited reply state.
    fn handle_reply(&mut self, rs: ReplyState, lines: Vec<Line>) -> (r: Action)
        requires
            old(self).wf(),
            old(self).op == OpState::AwaitReply(rs),
            lines@.len() > 0,
        ensures
            final(self).wf(),
            reply_rel(*old(self), rs, lines@, *final(self), r),
            final(self).mail == old(self).mail,
            final(self).kind == old(self).kind,
            final(self).creds == old(self).creds,
            final(self).config == old(self).config,
            final(self).name == old(self).name,
    {
        // the shutdown filter runs over every line of every reply
        let ghost s0 = *self;
        let n = lines.len();
        let mut i: usize = 0;
        #[verifier::loop_isolation(false)]
        while i < n
            invariant
                i <= n,
                *self == s0,
                forall|k: int| 0 <= k < i ==> !line_shutdown(#[trigger] lines@[k]),
            decreases n - i,
        {
            if shutdown_code(lines[i].code) {
                self.terminate();
                if matches!(rs, ReplyState::Greeting) {
                    return self.fail(Error::InvalidServer);
                }
                return self.fail(Error::ServerUnavailable);
            }
            i = i + 1;
        }
        match rs {
            ReplyState::Ehlo => self.handle_ehlo_reply(lines),
            _ => {
                let ghost ol = lines@;
                let mut lines = lines;
                let l0 = lines.remove(0);
                let r = self.handle_line(rs, l0);
                proof {
                    lemma_reply_rel_first(*old(self), rs, ol, *self, r);
                }
                r
            },
        }
    }

    /// Interpret the first line of a reply for the single-line states.
    fn handle_line(&mut self, rs: ReplyState, l0: Line) -> (r: Action)
        requires
            old(self).wf(),
            old(self).op == OpState::AwaitReply(rs),
            !(rs is Ehlo),
            !line_shutdown(l0),
        ensures
            final(self).wf(),
            reply_rel(*old(self), rs, seq![l0], *final(self), r),
            final(self).mail == old(self).mail,
            final(self).kind == old(self).kind,
            final(self).creds == old(self).creds,
            final(self).config == old(self).config,
            final(self).name == old(self).name,
    {
        proof {
            assert(seq![l0][0] == l0);
            assert forall|i: int| 0 <= i < 1 implies !line_shutdown(#[trigger] seq![l0][i]) by {
                assert(seq![l0][i] == l0);
            }
            assert(!reply_has_shutdown(seq![l0]));
        }
        match rs {
            ReplyState::Greeting => {
                if matches!(l0.code, StatusCode::ServiceReady) {
                    self.op = OpState::AwaitWrite(ReplyState::Ehlo);
                    Action::Send(command_bytes(Command::Ehlo(self.name.clone())))
                } else {
                    self.fail(Error::Protocol)
                }
            },
            ReplyState::Ehlo => self.fail(Error::Protocol),
            ReplyState::StartTls => {
                if matches!(l0.code, StatusCode::ServiceReady) {
                    self.op = OpState::TlsUpgrade;
                    Action::UpgradeTls
                } else {
                    self.fail(Error::Protocol)
                }
            },
            ReplyState::LoginChallenge1 => {
                if matches!(l0.code, StatusCode::ServerChallenge) {
                    let token = match &self.creds {
                        Some(c) => c.username.clone(),
                        None => String::new(),
                    };
                    self.op = OpState::AwaitWrite(ReplyState::LoginChallenge2);
                    Action::Send(token_line_bytes(token.as_str()))
                } else {
                    self.fail(Error::Protocol)
                }
            },
            ReplyState::LoginChallenge2 => {
                if matches!(l0.code, StatusCode::ServerChallenge) {
                    let token = match &self.creds {
                        Some(c) => c.password.clone(),
                        None => String::new(),
                    };
                    self.op = OpState::AwaitWrite(ReplyState::AuthResult);
                    Action::Send(token_line_bytes(token.as_str()))
                } else {
                    self.fail(Error::Protocol)
                }
            },
            ReplyState::AuthResult => {
                if matches!(l0.code, StatusCode::AuthSuccess) {
                    self.op = OpState::Idle;
                    Action::Done(Ok(()))
                } else if matches!(l0.code, StatusCode::AuthInvalidCred) || matches!(
                    l0.code,
                    StatusCode::NoAccess
                ) {
                    self.fail(Error::InvalidCred)
                } else {
                    self.fail(Error::Protocol)
                }
            },
            ReplyState::MailFrom | ReplyState::PipeMailFrom => {
                if matches!(l0.code, StatusCode::Okay) {
                    if matches!(rs, ReplyState::PipeMailFrom) {
                        self.op = OpState::AwaitReply(ReplyState::PipeRcpt);
                        Action::Recv
                    } else {
                        let to = match &self.mail {
                            Some(m) => m.to.clone(),
                            None => String::new(),
                        };
                        self.op = OpState::AwaitWrite(ReplyState::Rcpt);
                        Action::Send(command_bytes(Command::RcptTo(to)))
                    }
                } else if matches!(l0.code, StatusCode::NoAccess) {
                    self.fail(Error::Policy)
                } else if matches!(l0.code, StatusCode::MailBoxNameNotAllowed) {
                    let from = match &self.mail {
                        Some(m) => m.from.clone(),
                        None => String::new(),
                    };
                    self.fail(Error::MailBoxName(from))
                } else {
                    self.fail(Error::Protocol)
                }
            },
            ReplyState::Rcpt | ReplyState::PipeRcpt => {
                if matches!(l0.code, StatusCode::Okay) || matches!(
                    l0.code,
                    StatusCode::UserNotLocal
                ) {
                    if matches!(rs, ReplyState::PipeRcpt) {
                        self.op = OpState::AwaitReply(ReplyState::Data);
                        Action::Recv
                    } else {
                        self.op = OpState::AwaitWrite(ReplyState::Data);
                        Action::Send(command_bytes(Command::Data))
                    }
                } else if matches!(l0.code, StatusCode::NoAccess) || matches!(
                    l0.code,
                    StatusCode::MailboxUnavailable
                ) {
                    self.fail(Error::Policy)
                } else if matches!(l0.code, StatusCode::MailBoxNameNotAllowed) {
                    let to = match &self.mail {
                        Some(m) => m.to.clone(),
                        None => String::new(),
                    };
                    self.fail(Error::MailBoxName(to))
                } else if matches!(l0.code, StatusCode::UserNotLocalError) {
                    self.fail(Error::Forward(l0.text))
                } else {
                    self.fail(Error::Protocol)
                }
            },
            ReplyState::Data => {
                if matches!(l0.code, StatusCode::StartMailInput) {
                    if matches!(self.server.meta.eight_bit_mime, Support::Supported) {
                        self.op = OpState::Mime;
                        Action::BuildMime
                    } else {
                        let payload = match &self.mail {
                            Some(m) => {
                                let mut s = m.plain_payload();
                                s.append("\r\n.\r\n");
                                s.as_str().as_bytes_vec()
                            },
                            None => Vec::new(),
                        };
                        self.op = OpState::AwaitWrite(ReplyState::Payload);
                        Action::Send(payload)
                    }
                } else {
                    self.fail(Error::Protocol)
                }
            },
            ReplyState::Payload => {
                if matches!(l0.code, StatusCode::Okay) {
                    self.op = OpState::Idle;
                    Action::Done(Ok(()))
                } else if matches!(l0.code, StatusCode::NoAccess) || matches!(
                    l0.code,
                    StatusCode::MailboxUnavailable
                ) {
                    self.fail(Error::Policy)
                } else {
                    self.fail(Error::Protocol)
                }
            },
            ReplyState::Quit => {
                if matches!(l0.code, StatusCode::ServiceClosingChannel) {
                    self.terminate();
                    self.op = OpState::Idle;
                    Action::Done(Ok(()))
                } else {
                    self.fail(Error::Protocol)
                }
            },
        }
    }

    /// Interpret an EHLO reply: the shutdown filter over every line, the
    /// all-250 check, the capability evaluation of the lines after the
    /// greeting line, then STARTTLS or authentication or done.
    fn handle_ehlo_reply(&mut self, lines: Vec<Line>) -> (r: Action)
        requires
            old(self).wf(),
            old(self).op == OpState::AwaitReply(ReplyState::Ehlo),
            lines@.len() > 0,
            !reply_has_shutdown(lines@),
        ensures
            final(self).wf(),
            reply_rel(*old(self), ReplyState::Ehlo, lines@, *final(self), r),
            final(self).mail == old(self).mail,
            final(self).kind == old(self).kind,
            final(self).creds == old(self).creds,
            final(self).config == old(self).config,
            final(self).name == old(self).name,
    {
        let ghost s0 = *self;
        let n = lines.len();
        let mut i: usize = 0;
        #[verifier::loop_isolation(false)]
        while i < n
            invariant
                i <= n,
                *self == s0,
                forall|k: int| 0 <= k < i ==> (#[trigger] lines@[k]).code is Okay,
            decreases n - i,
        {
            if !matches!(lines[i].code, StatusCode::Okay) {
                self.server.meta = reset_meta(self.server.meta, self.tls_active);
                return self.fail(Error::Protocol);
            }
            i = i + 1;
        }
        let ghost m0 = meta_reset(self.server.meta, self.tls_active);
        let mut meta = reset_meta(self.server.meta, self.tls_active);
        let mut i: usize = 1;
        #[verifier::loop_isolation(false)]
        while i < n
            invariant
                1 <= i <= n || (n == 0 && i == 1),
                meta_after_lines(m0, lines@, 1) == meta_after_lines(meta, lines@, i as int),
            decreases n - i,
        {
            meta = apply_ehlo_line(meta, &lines[i].text);
            i = i + 1;
        }
        self.server.meta = meta;
        if !self.tls_active && matches!(meta.tls, Support::Supported) {
            self.op = OpState::AwaitWrite(ReplyState::StartTls);
            Action::Send(command_bytes(Command::StartTls))
        } else if matches!(meta.auth_plain, Support::Supported) {
            let (u, p) = match &self.creds {
                Some(c) => (c.username.clone(), c.password.clone()),
                None => (String::new(), String::new()),
            };
            self.op = OpState::AwaitWrite(ReplyState::AuthResult);
            Action::Send(command_bytes(Command::AuthPlain(u, p)))
        } else if matches!(meta.auth_login, Support::Supported) {
            self.op = OpState::AwaitWrite(ReplyState::LoginChallenge1);
            Action::Send(command_bytes(Command::AuthLogin))
        } else {
            self.op = OpState::Idle;
            Action::Done(Ok(()))
        }
    }
}

/// UTF-8 encoding distributes over concatenation.
pub proof fn lemma_encode_utf8_concat(a: Seq<char>, b: Seq<char>)
    ensures
        vstd::utf8::encode_utf8(a + b) == vstd::utf8::encode_utf8(a) + vstd::utf8::encode_utf8(
            b,
        ),
    decreases a.len(),
{
    if a.len() == 0 {
        assert(a + b =~= b);
        assert(vstd::utf8::encode_utf8(a) + vstd::utf8::encode_utf8(b) =~= vstd::utf8::encode_utf8(
            b,
        ));
    } else {
        assert((a + b).drop_first() =~= a.drop_first() + b);
        lemma_encode_utf8_concat(a.drop_first(), b);
        assert((a + b)[0] == a[0]);
        assert(vstd::utf8::encode_scalar(a[0] as u32) + (vstd::utf8::encode_utf8(a.drop_first())
            + vstd::utf8::encode_utf8(b)) =~= (vstd::utf8::encode_scalar(a[0] as u32)
            + vstd::utf8::encode_utf8(a.drop_first())) + vstd::utf8::encode_utf8(b));
    }
}

/// Every command rendered by the codec goes on the wire with CR LF as its
/// last two bytes.
pub proof fn lemma_command_bytes_end_crlf(cmd: Command)
    ensures
        wire_bytes(spec_render(cmd)).len() >= 2,
        wire_bytes(spec_render(cmd))[wire_bytes(spec_render(cmd)).len() - 2] == 13,
        wire_bytes(spec_render(cmd))[wire_bytes(spec_render(cmd)).len() - 1] == 10,
{
    reveal_strlit("\r\n");
    let crlf = "\r\n"@;
    lemma_encode_utf8_concat(crate::protocol::spec_render_body(cmd), crlf);
    assert(crlf.drop_first() =~= seq!['\n']);
    assert(seq!['\n'].drop_first() =~= Seq::<char>::empty());
    assert(13u32 & 0x7F == 13u32) by (bit_vector);
    assert(10u32 & 0x7F == 10u32) by (bit_vector);
    assert(vstd::utf8::encode_scalar(13u32) =~= seq![13u8]);
    assert(vstd::utf8::encode_scalar(10u32) =~= seq![10u8]);
    assert('\r' as u32 == 13);
    assert('\n' as u32 == 10);
    assert(vstd::utf8::encode_utf8(Seq::<char>::empty()) =~= Seq::<u8>::empty());
    assert(vstd::utf8::encode_utf8(seq!['\n']) =~= seq![10u8]);
    assert(vstd::utf8::encode_utf8(crlf) =~= seq![13u8, 10u8]);
}

/// The retry discipline over a run of failed dials — refusals or failed
/// name resolution, both retriable kinds: while the budget lasts, each
/// failure is answered with another dial and one retry fewer, so after
/// `k` failures the machine is dialing again with `budget - k` retries
/// left.
pub proof fn lemma_connect_retry_chain(
    states: Seq<Session>,
    acts: Seq<Action>,
    evs: Seq<NetEvent>,
    k: int,
)
    requires
        states.len() == acts.len() + 1,
        evs.len() == acts.len(),
        states[0].op is Dialing,
        states[0].kind is Connect,
        forall|j: int|
            0 <= j < evs.len() ==> (#[trigger] evs[j]) is DialRefused || evs[j]
                is DialDnsFailed,
        forall|j: int|
            0 <= j < acts.len() ==> step_rel(
                #[trigger] states[j],
                evs[j],
                states[j + 1],
                acts[j],
            ),
        0 <= k <= acts.len(),
        k <= states[0].retries_left,
    ensures
        states[k].op is Dialing,
        states[k].kind is Connect,
        states[k].retries_left == states[0].retries_left - k,
        forall|j: int| 0 <= j < k ==> (#[trigger] acts[j]) is Dial,
    decreases k,
{
    if k > 0 {
        lemma_connect_retry_chain(states, acts, evs, k - 1);
        assert(step_rel(states[k - 1], evs[k - 1], states[k], acts[k - 1]));
    }
}

/// A programmed run of `n` failed dials followed by a successful one:
/// the connect survives and proceeds to the greeting exactly when
/// `n <= retries`; the failure that exceeds the budget ends the connect
/// with the error of its own kind — `ServerUnreachable` for a refused
/// dial, `DNS` for failed resolution.
pub proof fn lemma_connect_retry_budget_run(
    states: Seq<Session>,
    acts: Seq<Action>,
    evs: Seq<NetEvent>,
    post: Session,
    act: Action,
)
    requires
        states.len() == acts.len() + 1,
        evs.len() == acts.len(),
        states[0].op is Dialing,
        states[0].kind is Connect,
        forall|j: int|
            0 <= j < evs.len() ==> (#[trigger] evs[j]) is DialRefused || evs[j]
                is DialDnsFailed,
        forall|j: int|
            0 <= j < acts.len() ==> step_rel(
                #[trigger] states[j],
                evs[j],
                states[j + 1],
                acts[j],
            ),
    ensures
        acts.len() <= states[0].retries_left && step_rel(
            states[acts.len() as int],
            NetEvent::DialOk,
            post,
            act,
        ) ==> act is Recv && post.op == OpState::AwaitReply(ReplyState::Greeting),
        acts.len() > states[0].retries_left ==> {
            let r = states[0].retries_left as int;
            &&& (evs[r] is DialRefused ==> done_err(acts[r], Error::ServerUnreachable))
            &&& (evs[r] is DialDnsFailed ==> done_err(acts[r], Error::DNS))
        },
{
    if acts.len() <= states[0].retries_left {
        lemma_connect_retry_chain(states, acts, evs, acts.len() as int);
    } else {
        let r = states[0].retries_left as int;
        lemma_connect_retry_chain(states, acts, evs, r);
        assert(step_rel(states[r], evs[r], states[r + 1], acts[r]));
    }
}

/// Restarting or ending an operation never reopens a shut session.
pub proof fn lemma_fail_keeps_closed(pre: Session, e: Error, post: Session, act: Action)
    requires
        pre.closed,
        fail_rel(pre, e, post, act),
    ensures
        post.closed,
{
}

/// A session that observes a 421 or 554 on any line of any reply moves
/// to `closed`, whatever the retry discipline then decides.
pub proof fn lemma_shutdown_closes(
    pre: Session,
    rs: ReplyState,
    lines: Seq<Line>,
    post: Session,
    act: Action,
)
    requires
        lines.len() > 0,
        reply_rel(pre, rs, lines, post, act),
        reply_has_shutdown(lines),
    ensures
        post.closed,
{
    if rs is Greeting {
        lemma_fail_keeps_closed(spec_terminated(pre), Error::InvalidServer, post, act);
    } else {
        lemma_fail_keeps_closed(spec_terminated(pre), Error::ServerUnavailable, post, act);
    }
}

/// Operations begun on a shut session fail with `Network` without any
/// I/O action, and the session stays shut. (A mail whose addresses fail
/// the validator fails with `MailBoxName` even earlier, also without
/// I/O.)
pub proof fn lemma_closed_session_no_io(pre: Session, post: Session, act: Action)
    requires
        pre.closed,
        pre.kind is SendMail || pre.kind is Close,
        pre.kind is SendMail ==> (pre.mail matches Some(m) && spec_addr_valid(m.from@)
            && spec_addr_valid(m.to@) && (m.attachments@.len() == 0
            || pre.server.meta.eight_bit_mime is Supported)),
        begin_rel(pre, post, act),
    ensures
        done_err(act, Error::Network),
        post.closed,
        post.op is Idle,
{
}

/// After a successful STARTTLS upgrade, the machine's next command is a
/// second EHLO, before anything else.
pub proof fn lemma_tls_then_ehlo(pre: Session, post: Session, act: Action)
    requires
        pre.op is TlsUpgrade,
        step_rel(pre, NetEvent::TlsOk, post, act),
    ensures
        sends(act, wire_bytes(spec_render(Command::Ehlo(pre.name)))),
        post.op == OpState::AwaitWrite(ReplyState::Ehlo),
        post.tls_active,
{
}

/// The retry budget is consumed exactly once per retriable failure of a
/// connect: with budget left the operation re-dials with one retry fewer;
/// a non-retriable failure or an empty budget ends the operation with the
/// error and consumes nothing.
pub proof fn lemma_retry_budget(pre: Session, e: Error, post: Session, act: Action)
    requires
        pre.kind is Connect,
        fail_rel(pre, e, post, act),
    ensures
        spec_retriable(&e) && pre.retries_left > 0 ==> post.retries_left == pre.retries_left - 1
            && act is Dial && post.op is Dialing,
        !(spec_retriable(&e) && pre.retries_left > 0) ==> done_err(act, e)
            && post.retries_left == pre.retries_left,
{
}

/// Evaluating EHLO lines that never advertise `AUTH ... PLAIN` leaves the
/// PLAIN flag alone.
pub proof fn lemma_meta_lines_keep_plain(m: ServerMeta, lines: Seq<Line>, i: int)
    requires
        forall|k: int|
            i <= k < lines.len() ==> !auth_line_offers(
                spec_upper((#[trigger] lines[k]).text@),
                "PLAIN"@,
            ),
    ensures
        meta_after_lines(m, lines, i).auth_plain == m.auth_plain,
    decreases lines.len() - i,
{
    if 0 <= i < lines.len() {
        lemma_meta_lines_keep_plain(meta_after_line(m, lines[i].text@), lines, i + 1);
    }
}

/// The post-upgrade EHLO reply alone drives the final capability set: a
/// PLAIN advertisement seen before STARTTLS is discarded unless the
/// post-upgrade reply repeats it.
pub proof fn lemma_post_tls_caps(
    pre: Session,
    lines: Seq<Line>,
    post: Session,
    act: Action,
)
    requires
        pre.tls_active,
        lines.len() > 0,
        reply_rel(pre, ReplyState::Ehlo, lines, post, act),
        !reply_has_shutdown(lines),
        forall|i: int| 0 <= i < lines.len() ==> (#[trigger] lines[i]).code is Okay,
        forall|k: int|
            1 <= k < lines.len() ==> !auth_line_offers(
                spec_upper((#[trigger] lines[k]).text@),
                "PLAIN"@,
            ),
    ensures
        post.server.meta.auth_plain is NotSupported,
{
    let m0 = meta_reset(pre.server.meta, pre.tls_active);
    lemma_meta_lines_keep_plain(m0, lines, 1);
    assert(!(exists|i: int| 0 <= i < lines.len() && !((#[trigger] lines[i]).code is Okay)));
}

/// Whether a status code is the 421 or 554 shutdown signal.
fn shutdown_code(code: StatusCode) -> (r: bool)
    ensures
        r == (code is ServiceNotAvailable || code is TransactionFailed),
{
    matches!(code, StatusCode::ServiceNotAvailable) || matches!(
        code,
        StatusCode::TransactionFailed
    )
}

/// The capability reset before evaluating an EHLO reply.
fn reset_meta(m: ServerMeta, tls_active: bool) -> (r: ServerMeta)
    ensures
        r == meta_reset(m, tls_active),
{
    ServerMeta {
        tls: Support::NotSupported,
        auth_plain: if tls_active {
            Support::NotSupported
        } else {
            m.auth_plain
        },
        ..m
    }
}

/// A command's on-wire bytes.
fn command_bytes(cmd: Command) -> (r: Vec<u8>)
    requires
        command_fits(cmd),
    ensures
        r@ == wire_bytes(spec_render(cmd)),
{
    let s = cmd.to_string();
    s.as_str().as_bytes_vec()
}

/// One base64 token line of the LOGIN exchange.
fn token_line_bytes(token: &str) -> (r: Vec<u8>)
    requires
        vstd::utf8::encode_utf8(token@).len() <= usize::MAX / 4,
    ensures
        r@ == wire_bytes(b64_of(vstd::utf8::encode_utf8(token@)) + "\r\n"@),
{
    let mut s = crate::protocol::get_auth_login(token);
    s.append("\r\n");
    s.as_str().as_bytes_vec()
}

/// The upper-cased form of a string, ASCII letters only.
fn ascii_upper(s: &str) -> (r: String)
    ensures
        r@ == spec_upper(s@),
{
    let n = s.unicode_len();
    let mut out = String::new();
    let mut i: usize = 0;
    #[verifier::loop_isolation(false)]
    while i < n
        invariant
            i <= n,
            n == s@.len(),
            out@ == s@.subrange(0, i as int).map_values(|c: char| upper_char(c)),
        decreases n - i,
    {
        let c = s.get_char(i);
        let u = c as u32;
        if 97 <= u && u <= 122 {
            out.push(((c as u8) - 32) as char);
        } else {
            out.push(c);
        }
        i = i + 1;
        proof {
            assert(s@.subrange(0, i as int).map_values(|ch: char| upper_char(ch)) =~= s@.subrange(
                0,
                i - 1,
            ).map_values(|ch: char| upper_char(ch)).push(upper_char(s@[i - 1])));
        }
    }
    proof {
        assert(s@.subrange(0, n as int) =~= s@);
    }
    out
}

/// The words of a line, split at every space, empty words preserved.
fn split_spaces(s: &str) -> (r: Vec<String>)
    ensures
        r@.map_values(|w: String| w@) == split_sp(s@),
{
    let n = s.unicode_len();
    let mut words: Vec<String> = Vec::new();
    let mut cur = String::new();
    let mut i: usize = 0;
    proof {
        lemma_split_sp_len(s@);
        assert(s@.skip(0) =~= s@);
        assert(Seq::<char>::empty() + split_sp(s@)[0] =~= split_sp(s@)[0]);
        assert(shift_first(Seq::<char>::empty(), split_sp(s@)) =~~= split_sp(s@));
        assert(words@.map_values(|w: String| w@) + shift_first(
            Seq::<char>::empty(),
            split_sp(s@),
        ) =~~= split_sp(s@));
    }
    #[verifier::loop_isolation(false)]
    while i < n
        invariant
            i <= n,
            n == s@.len(),
            split_sp(s@) =~~= words@.map_values(|w: String| w@) + shift_first(
                cur@,
                split_sp(s@.skip(i as int)),
            ),
        decreases n - i,
    {
        let ghost pre_words = words@.map_values(|w: String| w@);
        let ghost pre_cur = cur@;
        let ghost tail = s@.skip(i as int);
        proof {
            lemma_split_sp_len(s@.skip(i + 1));
            assert(tail.skip(1) =~= s@.skip(i + 1));
            assert(tail[0] == s@[i as int]);
        }
        let c = s.get_char(i);
        if c == ' ' {
            words.push(cur);
            cur = String::new();
            proof {
                let rest = split_sp(s@.skip(i + 1));
                lemma_split_sp_len(s@.skip(i + 1));
                assert(split_sp(tail) =~= seq![Seq::<char>::empty()] + rest);
                assert(shift_first(pre_cur, split_sp(tail)) =~= seq![pre_cur] + rest);
                assert(shift_first(Seq::<char>::empty(), rest) =~= rest);
                assert(words@.map_values(|w: String| w@) =~= pre_words.push(pre_cur));
                assert(split_sp(s@) =~~= words@.map_values(|w: String| w@) + shift_first(
                    cur@,
                    split_sp(s@.skip(i + 1)),
                ));
            }
        } else {
            cur.push(c);
            proof {
                let rest = split_sp(s@.skip(i + 1));
                lemma_split_sp_len(s@.skip(i + 1));
                assert(split_sp(tail) =~= seq![seq![tail[0]] + rest[0]] + rest.skip(1));
                assert(shift_first(pre_cur, split_sp(tail)) =~= seq![pre_cur + (seq![tail[0]]
                    + rest[0])] + rest.skip(1));
                assert(pre_cur + (seq![tail[0]] + rest[0]) =~= cur@ + rest[0]);
                assert(shift_first(pre_cur, split_sp(tail)) =~~= shift_first(cur@, rest));
                assert(split_sp(s@) =~~= words@.map_values(|w: String| w@) + shift_first(
                    cur@,
                    split_sp(s@.skip(i + 1)),
                ));
            }
        }
        i = i + 1;
    }
    proof {
        assert(s@.skip(n as int) =~= Seq::<char>::empty());
        assert(cur@ + Seq::<char>::empty() =~= cur@);
        assert(shift_first(cur@, split_sp(Seq::<char>::empty())) =~~= seq![cur@]);
    }
    let ghost ws = words@;
    let ghost gcur = cur@;
    words.push(cur);
    proof {
        assert(words@.map_values(|w: String| w@) =~= ws.map_values(|w: String| w@).push(gcur));
        assert(ws.map_values(|w: String| w@) + seq![gcur] =~= words@.map_values(
            |w: String| w@,
        ));
    }
    words
}

/// The words of a split with its first word prefixed by `c`.
pub open spec fn shift_first(c: Seq<char>, lst: Seq<Seq<char>>) -> Seq<Seq<char>> {
    seq![c + lst[0]] + lst.skip(1)
}

/// Evaluate one EHLO line against the capability set.
fn apply_ehlo_line(m: ServerMeta, text: &String) -> (r: ServerMeta)
    ensures
        r == meta_after_line(m, text@),
{
    let u = ascii_upper(text.as_str());
    if string_eq(&u, &EhloLine::StartTls.to_string()) {
        ServerMeta { tls: Support::Supported, ..m }
    } else if string_eq(&u, &EhloLine::EightBitMIME.to_string()) {
        ServerMeta { eight_bit_mime: Support::Supported, ..m }
    } else if string_eq(&u, &EhloLine::Pipelining.to_string()) {
        ServerMeta { pipelining: Support::Supported, ..m }
    } else {
        let words = split_spaces(u.as_str());
        let is_auth = words.len() >= 1 && string_eq(&words[0], &EhloLine::Auth.to_string());
        let mut plain = false;
        let mut login = false;
        if is_auth {
            let mut i: usize = 1;
            #[verifier::loop_isolation(false)]
            while i < words.len()
                invariant
                    1 <= i <= words@.len(),
                    plain == exists|k: int|
                        1 <= k < i && #[trigger] words@[k]@ == "PLAIN"@,
                    login == exists|k: int|
                        1 <= k < i && #[trigger] words@[k]@ == "LOGIN"@,
                decreases words@.len() - i,
            {
                if string_eq(&words[i], &AuthMech::Plain.to_string()) {
                    plain = true;
                }
                if string_eq(&words[i], &AuthMech::Login.to_string()) {
                    login = true;
                }
                i = i + 1;
            }
        }
        proof {
            lemma_split_sp_len(u@);
            let w = split_sp(u@);
            let wv = words@.map_values(|x: String| x@);
            assert(wv == w);
            assert(wv.len() == w.len());
            if words@.len() >= 1 {
                assert(words@[0]@ == wv[0]);
            }
            assert forall|k: int| 1 <= k < words@.len() implies #[trigger] words@[k]@ == w[k] by {
                assert(wv[k] == words@[k]@);
            }
            if auth_line_offers(u@, "PLAIN"@) && !plain {
                let k = choose|k: int| 1 <= k < w.len() && w[k] == "PLAIN"@;
                assert(words@[k]@ == w[k]);
                assert(false);
            }
            if auth_line_offers(u@, "LOGIN"@) && !login {
                let k = choose|k: int| 1 <= k < w.len() && w[k] == "LOGIN"@;
                assert(words@[k]@ == w[k]);
                assert(false);
            }
            if plain && !(is_auth && auth_line_offers(u@, "PLAIN"@)) {
                let k = choose|k: int| 1 <= k < words@.len() && #[trigger] words@[k]@ == "PLAIN"@;
                assert(w[k] == words@[k]@);
                assert(false);
            }
            if login && !(is_auth && auth_line_offers(u@, "LOGIN"@)) {
                let k = choose|k: int| 1 <= k < words@.len() && #[trigger] words@[k]@ == "LOGIN"@;
                assert(w[k] == words@[k]@);
                assert(false);
            }
        }
        ServerMeta {
            auth_plain: if plain {
                Support::Supported
            } else {
                m.auth_plain
            },
            auth_login: if login {
                Support::Supported
            } else {
                m.auth_login
            },
            ..m
        }
    }
}

/// String equality, decided at the character level.
fn string_eq(a: &String, b: &String) -> (r: bool)
    ensures
        r == (a@ == b@),
{
    a.eq(b)
}

} // verus!
