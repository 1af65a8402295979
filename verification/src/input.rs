//! The data model of the configuration file: user, server, configuration
//! knobs and the mail entries, and their conversion into the library's
//! working types. Reading and decoding the file itself, and prompting for
//! a missing password, happen outside the library; the values arrive here
//! as plain records.

use vstd::prelude::*;

use crate::message::Mail;
use crate::{Config, Credentials, Server, ServerMeta};

verus! {

/// The `[config]` section: every knob optional.
pub struct MailConfig {
    pub retries: Option<u32>,
    pub timeout: Option<u64>,
    pub parallel: Option<bool>,
    pub logfile: Option<String>,
    pub max_channels: Option<u32>,
    pub auto_quit: Option<bool>,
    pub pipeline: Option<bool>,
}

/// One `[[mail]]` entry.
pub struct MailEntry {
    pub address: String,
    pub name: Option<String>,
    pub subject: String,
    pub text: String,
    pub attach: Option<Vec<String>>,
}

/// The `[user]` section.
pub struct MailUser {
    pub address: String,
    pub name: Option<String>,
    pub username: Option<String>,
    pub password: Option<String>,
}

/// The `[server]` section.
pub struct MailServer {
    pub address: String,
    pub port: u16,
}

/// The whole configuration file.
pub struct MailFile {
    pub user: MailUser,
    pub server: MailServer,
    pub config: Option<MailConfig>,
    pub mails: Option<Vec<MailEntry>>,
}

/// The configuration resulting from an optional `[config]` section: every
/// knob the section carries is applied, the rest keep their defaults.
pub open spec fn spec_config_of(mc: Option<MailConfig>) -> Config {
    match mc {
        None => Config {
            retries: 0,
            timeout: 5,
            parallel: false,
            max_channels: 8,
            auto_quit: false,
            pipeline: true,
        },
        Some(c) => Config {
            retries: match c.retries {
                Some(v) => v,
                None => 0,
            },
            timeout: match c.timeout {
                Some(v) => v,
                None => 5,
            },
            parallel: match c.parallel {
                Some(v) => v,
                None => false,
            },
            max_channels: match c.max_channels {
                Some(v) => v,
                None => 8,
            },
            auto_quit: match c.auto_quit {
                Some(v) => v,
                None => false,
            },
            pipeline: match c.pipeline {
                Some(v) => v,
                None => true,
            },
        },
    }
}

impl MailConfig {
    /// Turn the section into a configuration and an optional log file
    /// path.
    pub fn destruct(self) -> (r: (Config, Option<String>))
        ensures
            r.0 == spec_config_of(Some(self)),
            r.1 == self.logfile,
    {
        let mut config = Config::new();
        let mut logfile: Option<String> = None;
        if let Some(value) = self.timeout {
            config.timeout(value);
        }
        if let Some(value) = self.retries {
            config.retires(value);
        }
        if let Some(value) = self.parallel {
            config.parallel(value);
        }
        if let Some(value) = self.max_channels {
            config.max_channels(value);
        }
        if let Some(value) = self.auto_quit {
            config.auto_quit(value);
        }
        if let Some(value) = self.pipeline {
            config.pipeline(value);
        }
        if let Some(value) = self.logfile {
            logfile = Some(value);
        }
        (config, logfile)
    }
}

impl MailServer {
    /// The submission target this section names, with a fresh capability
    /// set.
    pub fn destruct(self) -> (r: Server)
        ensures
            r.address == self.address,
            r.port == self.port,
            r.meta == ServerMeta::fresh(),
    {
        Server::new(self.address, self.port)
    }
}

/// The mail built from one entry: the sender is the file's user, the rest
/// comes from the entry, with an empty attachment list when none is given.
pub open spec fn mail_of_entry(m: Mail, user: MailUser, e: MailEntry) -> bool {
    &&& m.from == user.address
    &&& match (m.from_name, user.name) {
        (Some(a), Some(b)) => a@ == b@,
        (None, None) => true,
        _ => false,
    }
    &&& m.to == e.address
    &&& m.to_name == e.name
    &&& m.subject == e.subject
    &&& m.text == e.text
    &&& match e.attach {
        Some(v) => m.attachments == v,
        None => m.attachments@.len() == 0,
    }
}

impl MailFile {
    /// Split the file into the server, the mails, the configuration, the
    /// log file path and the credentials. `prompted_password` stands in
    /// for the password when the file carries none (the prompt itself is
    /// terminal I/O and happens outside the library).
    pub fn destruct(self, prompted_password: String) -> (r: (
        Server,
        Vec<Mail>,
        Config,
        Option<String>,
        Credentials,
    ))
        ensures
            r.0.address == self.server.address,
            r.0.port == self.server.port,
            r.0.meta == ServerMeta::fresh(),
            r.2 == spec_config_of(self.config),
            r.3 == match self.config {
                Some(c) => c.logfile,
                None => None::<String>,
            },
            r.4.username@ == match self.user.username {
                Some(u) => u@,
                None => self.user.address@,
            },
            r.4.password == match self.user.password {
                Some(p) => p,
                None => prompted_password,
            },
            r.1@.len() == match self.mails {
                Some(v) => v@.len(),
                None => 0,
            },
            self.mails matches Some(entries) ==> forall|k: int|
                0 <= k < entries@.len() ==> mail_of_entry(r.1@[k], self.user, entries@[k]),
    {
        let ghost file = self;
        let mut mails: Vec<Mail> = Vec::new();
        let (config, logfile) = if let Some(cfg) = self.config {
            cfg.destruct()
        } else {
            (Config::new(), None)
        };
        let user_address = self.user.address;
        let user_name = self.user.name;
        let username = match self.user.username {
            Some(u) => u,
            None => user_address.clone(),
        };
        let password = match self.user.password {
            Some(p) => p,
            None => prompted_password,
        };
        let server = self.server.destruct();
        if let Some(mut file_mails) = self.mails {
            let ghost entries = file_mails@;
            let ghost mut k: int = 0;
            #[verifier::loop_isolation(false)]
            while file_mails.len() > 0
                invariant
                    0 <= k && k + file_mails@.len() == entries.len(),
                    file_mails@ == entries.skip(k),
                    mails@.len() == k,
                    user_address == file.user.address,
                    user_name == file.user.name,
                    forall|i: int|
                        0 <= i < k ==> mail_of_entry(mails@[i], file.user, entries[i]),
                decreases file_mails@.len(),
            {
                let m = file_mails.remove(0);
                proof {
                    assert(entries.skip(k)[0] == entries[k]);
                    assert(file_mails@ =~= entries.skip(k + 1));
                }
                let from_name = match &user_name {
                    Some(s) => Some(s.clone()),
                    None => None,
                };
                let mail = Mail {
                    from: user_address.clone(),
                    from_name,
                    to: m.address,
                    to_name: m.name,
                    subject: m.subject,
                    text: m.text,
                    attachments: match m.attach {
                        Some(v) => v,
                        None => Vec::new(),
                    },
                };
                mails.push(mail);
                proof {
                    k = k + 1;
                }
            }
        }
        (server, mails, config, logfile, Credentials::new(username, password))
    }
}

} // verus!
