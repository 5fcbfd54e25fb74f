//! The mail channel.
use std::sync::atomic::AtomicBool;
use std::sync::Arc;
use vstd::prelude::*;

verus! {

/// A mail account, and whether the channel is to stop.
pub struct EmailChannel {
    imap_host: String,
    imap_port: u16,
    smtp_host: String,
    smtp_port: u16,
    username: String,
    password: String,
    stop_flag: Arc<AtomicBool>,
}

impl EmailChannel {
    /// The host and the port that mail is read from.
    pub closed spec fn imap(self) -> (Seq<char>, u16) {
        (self.imap_host@, self.imap_port)
    }

    /// The host and the port that mail is sent by.
    pub closed spec fn smtp(self) -> (Seq<char>, u16) {
        (self.smtp_host@, self.smtp_port)
    }

    /// The name and the password of the account.
    pub closed spec fn login(self) -> (Seq<char>, Seq<char>) {
        (self.username@, self.password@)
    }

    /// The flag by which the channel is told to stop.
    pub closed spec fn flag(self) -> Arc<AtomicBool> {
        self.stop_flag
    }

    /// The channel of an account.
    pub fn new(
        imap_host: String,
        imap_port: u16,
        smtp_host: String,
        smtp_port: u16,
        username: String,
        password: String,
    ) -> (r: EmailChannel)
        ensures
            r.imap() == (imap_host@, imap_port),
            r.smtp() == (smtp_host@, smtp_port),
            r.login() == (username@, password@),
    {
        EmailChannel {
            imap_host,
            imap_port,
            smtp_host,
            smtp_port,
            username,
            password,
            stop_flag: Arc::new(AtomicBool::new(false)),
        }
    }

    /// The name of the channel.
    pub fn id(&self) -> (r: &'static str)
        ensures
            r@ == "email"@,
    {
        "email"
    }

    /// The host that mail is read from.
    pub fn imap_host(&self) -> (r: &str)
        ensures
            r@ == self.imap().0,
    {
        self.imap_host.as_str()
    }

    /// The host that mail is sent by.
    pub fn smtp_host(&self) -> (r: &str)
        ensures
            r@ == self.smtp().0,
    {
        self.smtp_host.as_str()
    }

    /// The port that mail is read from.
    pub fn imap_port(&self) -> (r: u16)
        ensures
            r == self.imap().1,
    {
        self.imap_port
    }

    /// The port that mail is sent by.
    pub fn smtp_port(&self) -> (r: u16)
        ensures
            r == self.smtp().1,
    {
        self.smtp_port
    }

    /// The name of the account.
    pub fn username(&self) -> (r: &str)
        ensures
            r@ == self.login().0,
    {
        self.username.as_str()
    }

    /// The password of the account.
    pub fn password(&self) -> (r: &str)
        ensures
            r@ == self.login().1,
    {
        self.password.as_str()
    }

    /// The flag by which the channel is told to stop.
    pub fn stop_flag(&self) -> (r: &Arc<AtomicBool>)
        ensures
            *r == self.flag(),
    {
        &self.stop_flag
    }
}

} // verus!
