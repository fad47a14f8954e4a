//! What a profile says about a session.

use vstd::prelude::*;

use crate::pty::launcher::LaunchSpec;
use crate::term::encoding::Encoding;
use crate::text::texts;

verus! {

/// What a session's transcript keeps.
#[derive(Clone, Copy, Debug, PartialEq, Eq, Structural)]
pub enum LogMode {
    Off,
    /// Rendered text lines, for reading and searching.
    Clean,
    /// The byte stream exactly as it arrived, for replaying.
    Raw,
}

/// A program to run in place of IRIS.
#[derive(Clone, Debug, PartialEq, Eq)]
pub struct ShellCommand {
    pub program: String,
    pub args: Vec<String>,
    pub cwd: Option<String>,
}

/// A server reached over Telnet.
#[derive(Clone, Debug, PartialEq, Eq)]
pub struct Remote {
    pub address: String,
    pub port: u16,
}

/// How a session is opened and logged into.
#[derive(Clone, Debug, PartialEq, Eq)]
pub struct Profile {
    pub name: String,
    /// The local instance to start, empty for the default one.
    pub instance: String,
    pub namespace: String,
    pub username: String,
    /// Log in unattended.
    pub autologon: bool,
    /// Typed once the prompt appears after an unattended login.
    pub post_login: Vec<String>,
    pub encoding: Encoding,
    pub shell: Option<ShellCommand>,
    pub remote: Option<Remote>,
}

impl Profile {
    /// Whether there is enough to log in with.
    pub open spec fn can_log_on(&self) -> bool {
        self.autologon && self.username@.len() > 0
    }

    pub fn autologon_ready(&self) -> (yes: bool)
        ensures
            yes == self.can_log_on(),
    {
        self.autologon && !self.username.as_str().is_empty()
    }

    pub fn is_shell(&self) -> (yes: bool)
        ensures
            yes == self.shell is Some,
    {
        self.shell.is_some()
    }

    /// The character set on the wire. A local session is always UTF-8, however
    /// the profile is configured.
    pub fn wire_encoding(&self) -> (encoding: Encoding)
        ensures
            encoding == if self.remote is Some {
                self.encoding
            } else {
                Encoding::Utf8
            },
    {
        if self.remote.is_some() {
            self.encoding
        } else {
            Encoding::Utf8
        }
    }

    /// What a local session is started with.
    pub fn launch_spec(&self) -> (spec: LaunchSpec)
        ensures
            spec.instance@ == self.instance@,
            spec.namespace matches Some(namespace) && namespace@ == self.namespace@,
            spec.routine is None,
            spec.binary_override is None,
    {
        LaunchSpec {
            instance: self.instance.clone(),
            namespace: Some(self.namespace.clone()),
            routine: None,
            binary_override: None,
        }
    }
}

impl Default for Profile {
    fn default() -> (profile: Self)
        ensures
            profile.name@.len() == 0,
            profile.instance@.len() == 0,
            profile.namespace@.len() == 0,
            profile.username@.len() == 0,
            !profile.autologon,
            texts(profile.post_login@).len() == 0,
            profile.encoding == Encoding::Utf8,
            profile.shell is None,
            profile.remote is None,
    {
        Profile {
            name: String::new(),
            instance: String::new(),
            namespace: String::new(),
            username: String::new(),
            autologon: false,
            post_login: Vec::new(),
            encoding: Encoding::default(),
            shell: None,
            remote: None,
        }
    }
}

} // verus!
