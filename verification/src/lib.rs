//! A verified SMTP submission client library.
//!
//! The library models the client side of an SMTP submission dialogue: the
//! byte-level reply parser, the command codec, the capability set, the
//! session state machine (greeting, EHLO, STARTTLS, authentication, mail
//! transactions, QUIT), the retry discipline and the work-queue logic of the
//! submission pool. All I/O (sockets, TLS, files, terminals) is left to the
//! embedding program, which drives the state machine with plain events.

use vstd::prelude::*;

pub mod address;
pub mod input;
pub mod message;
pub mod parser;
pub mod pool;
pub mod protocol;
pub mod session;

pub use address::check_address;
pub use message::Mail;

verus! {

/// A lifecycle event emitted while a batch of mails is submitted.
pub enum Event {
    Connected,
    FailedToConnect(Error),
    Disconnencted,
    FailToDisconnect(Error),
    Retry,
    MailSent { subject: String, to: String },
    FailedToSendMail { subject: String, to: String, error: Error },
}

/// A sink for wire bytes and lifecycle events; implementations live outside
/// the library (for example a file-backed logger).
pub trait Logger: Clone + Send + Sync {
    fn client(&mut self, data: &[u8]);
    fn server(&mut self, data: &[u8]);
    fn disable(&mut self);
    fn enable(&mut self);
    fn event(&self, event: Event);
}

/// The error taxonomy of the library.
#[derive(Debug, Clone, PartialEq, Eq)]
pub enum Error {
    Protocol,
    ServerUnreachable,
    ServerUnavailable,
    InvalidServer,
    Network,
    InvalidCred,
    Policy,
    MIMENotSupported,
    DNS,
    MailBoxName(String),
    Forward(String),
    File(String),
}

/// The retriable error kinds: transient failures that a bounded retry
/// budget is allowed to consume.
pub open spec fn spec_retriable(e: &Error) -> bool {
    e is Network || e is DNS || e is ServerUnavailable || e is ServerUnreachable
}

impl Error {
    /// Whether a failed session operation may be attempted again.
    pub fn retriable(&self) -> (r: bool)
        ensures
            r == spec_retriable(self),
    {
        match self {
            Error::Network | Error::DNS | Error::ServerUnavailable | Error::ServerUnreachable => {
                true
            },
            _ => false,
        }
    }
}

/// User credentials, cloned into each worker session.
#[derive(Clone)]
pub struct Credentials {
    pub username: String,
    pub password: String,
}

impl Credentials {
    pub fn new(username: String, password: String) -> (r: Credentials)
        ensures
            r.username == username,
            r.password == password,
    {
        Credentials { username, password }
    }
}

/// The configuration snapshot carried by a session.
#[derive(Clone)]
pub struct Config {
    pub retries: u32,
    pub timeout: u64,
    pub parallel: bool,
    pub max_channels: u32,
    pub auto_quit: bool,
    pub pipeline: bool,
}

impl Config {
    /// The default configuration: no retries, 5 second timeout, serial
    /// submission over at most 8 channels, no automatic quit, pipelining
    /// allowed.
    pub fn new() -> (r: Config)
        ensures
            r.retries == 0,
            r.timeout == 5,
            r.parallel == false,
            r.max_channels == 8,
            r.auto_quit == false,
            r.pipeline == true,
    {
        Config {
            retries: 0,
            timeout: 5,
            parallel: false,
            max_channels: 8,
            auto_quit: false,
            pipeline: true,
        }
    }

    pub fn retires<'a>(&'a mut self, value: u32) -> (r: &'a mut Config)
        ensures
            *r == (Config { retries: value, ..*old(self) }),
            *final(self) == *final(r),
    {
        self.retries = value;
        self
    }

    pub fn timeout<'a>(&'a mut self, value: u64) -> (r: &'a mut Config)
        ensures
            *r == (Config { timeout: value, ..*old(self) }),
            *final(self) == *final(r),
    {
        self.timeout = value;
        self
    }

    pub fn parallel<'a>(&'a mut self, value: bool) -> (r: &'a mut Config)
        ensures
            *r == (Config { parallel: value, ..*old(self) }),
            *final(self) == *final(r),
    {
        self.parallel = value;
        self
    }

    pub fn max_channels<'a>(&'a mut self, value: u32) -> (r: &'a mut Config)
        ensures
            *r == (Config { max_channels: value, ..*old(self) }),
            *final(self) == *final(r),
    {
        self.max_channels = value;
        self
    }

    pub fn auto_quit<'a>(&'a mut self, value: bool) -> (r: &'a mut Config)
        ensures
            *r == (Config { auto_quit: value, ..*old(self) }),
            *final(self) == *final(r),
    {
        self.auto_quit = value;
        self
    }

    pub fn pipeline<'a>(&'a mut self, value: bool) -> (r: &'a mut Config)
        ensures
            *r == (Config { pipeline: value, ..*old(self) }),
            *final(self) == *final(r),
    {
        self.pipeline = value;
        self
    }
}

/// Tri-state knowledge about one server capability.
#[derive(Clone, Copy, PartialEq, Eq, Structural, Debug)]
pub enum Support {
    Supported,
    NotSupported,
    Unknown,
}

/// The capability set learned from EHLO replies.
#[derive(Clone, Copy, PartialEq, Eq, Structural, Debug)]
pub struct ServerMeta {
    pub eight_bit_mime: Support,
    pub auth_plain: Support,
    pub auth_login: Support,
    pub tls: Support,
    pub pipelining: Support,
}

impl ServerMeta {
    /// A fresh capability set: everything unknown.
    pub fn new() -> (r: ServerMeta)
        ensures
            r == ServerMeta::fresh(),
    {
        ServerMeta {
            eight_bit_mime: Support::Unknown,
            auth_plain: Support::Unknown,
            auth_login: Support::Unknown,
            tls: Support::Unknown,
            pipelining: Support::Unknown,
        }
    }

    /// The capability set in which every flag is `Unknown`.
    pub open spec fn fresh() -> ServerMeta {
        ServerMeta {
            eight_bit_mime: Support::Unknown,
            auth_plain: Support::Unknown,
            auth_login: Support::Unknown,
            tls: Support::Unknown,
            pipelining: Support::Unknown,
        }
    }
}

/// The submission target: host, port and the capability set learned so far.
#[derive(Clone)]
pub struct Server {
    pub address: String,
    pub port: u16,
    pub meta: ServerMeta,
}

impl Server {
    pub fn new(address: String, port: u16) -> (r: Server)
        ensures
            r.address == address,
            r.port == port,
            r.meta == ServerMeta::fresh(),
    {
        Server { address, port, meta: ServerMeta::new() }
    }
}

/// A mail submission client: a target server, a configuration and an event
/// sink. Sessions and workers are created from it; the surrounding program
/// owns the sockets and drives them.
#[derive(Clone)]
pub struct Mailer<L> where L: Logger {
    pub config: Config,
    pub server: Server,
    pub logger: L,
}

impl<L> Mailer<L> where L: Logger {
    pub fn new(server: Server, config: Config, logger: L) -> (r: Mailer<L>)
        ensures
            r.server == server,
            r.config == config,
    {
        Mailer { server, config, logger }
    }
}

} // verus!
