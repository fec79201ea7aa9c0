//! The ways in which a request to the launcher fails.

use vstd::prelude::*;
use vstd::string::*;

verus! {

/// The classes of failure.
#[derive(Clone, Copy, Debug, PartialEq, Eq, Structural)]
pub enum ErrorKind {
    /// The profile store breaks its rule of exactly one default profile.
    Integrity,
    /// Something that was named is absent.
    NotFound,
    /// A required setting comes from no source.
    MissingRequiredField,
    /// The directory holds no node.
    EmptyDirectory,
    /// The cached directory cannot be read back.
    CacheCorrupt,
    /// What the user entered is not acceptable.
    InvalidInput,
    /// The change would leave the store without a usable profile.
    Refused,
    /// The proxy wants a session that is not there.
    AuthRequired,
    /// The directory did not answer.
    DirectoryUnavailable,
}

/// A failure of the launcher.
#[derive(Clone, Copy, Debug, PartialEq, Eq, Structural)]
pub enum BeamError {
    /// No profile store exists yet.
    StoreMissing,
    /// The store holds no profile.
    NoProfiles,
    /// No stored profile is the default.
    NoDefaultProfile,
    /// More than one stored profile is the default.
    MultipleDefaultProfiles,
    /// No profile has the name that was asked for.
    ProfileNotFound,
    /// A profile of that name exists already.
    ProfileExists,
    /// The only profile cannot be removed.
    LastProfile,
    /// The default profile can only be removed once another profile is
    /// named to take its place.
    ReplacementRequired,
    /// The host is not in the directory.
    HostNotFound,
    /// No source gives a proxy.
    MissingProxy,
    /// Port forwarding is enabled without a port to listen on.
    MissingListenPort,
    /// Port forwarding is enabled without a remote host.
    MissingRemoteHost,
    /// Port forwarding is enabled without a remote port.
    MissingRemotePort,
    /// The proxy lists no node.
    EmptyDirectory,
    /// The cached directory is not a list of nodes.
    CacheCorrupt,
    /// A host pattern is not a regular expression.
    InvalidPattern,
    /// The time to live is not a number of seconds.
    InvalidCacheTtl,
    /// Completions exist for bash, fish and zsh only.
    UnsupportedShell,
    /// Logging in to the proxy failed.
    LoginFailed,
    /// The directory asks for a login first.
    AuthRequired,
    /// The directory cannot be reached.
    DirectoryUnavailable,
}

impl BeamError {
    /// The class that the failure belongs to.
    pub open spec fn spec_kind(self) -> ErrorKind {
        match self {
            BeamError::NoDefaultProfile | BeamError::MultipleDefaultProfiles => ErrorKind::Integrity,
            BeamError::StoreMissing
            | BeamError::NoProfiles
            | BeamError::ProfileNotFound
            | BeamError::HostNotFound => ErrorKind::NotFound,
            BeamError::MissingProxy
            | BeamError::MissingListenPort
            | BeamError::MissingRemoteHost
            | BeamError::MissingRemotePort => ErrorKind::MissingRequiredField,
            BeamError::EmptyDirectory => ErrorKind::EmptyDirectory,
            BeamError::CacheCorrupt => ErrorKind::CacheCorrupt,
            BeamError::InvalidPattern
            | BeamError::InvalidCacheTtl
            | BeamError::UnsupportedShell
            | BeamError::ProfileExists => ErrorKind::InvalidInput,
            BeamError::LastProfile | BeamError::ReplacementRequired => ErrorKind::Refused,
            BeamError::LoginFailed | BeamError::AuthRequired => ErrorKind::AuthRequired,
            BeamError::DirectoryUnavailable => ErrorKind::DirectoryUnavailable,
        }
    }

    /// The class that the failure belongs to.
    pub fn kind(&self) -> (res: ErrorKind)
        ensures
            res == self.spec_kind(),
    {
        match self {
            BeamError::NoDefaultProfile | BeamError::MultipleDefaultProfiles => ErrorKind::Integrity,
            BeamError::StoreMissing
            | BeamError::NoProfiles
            | BeamError::ProfileNotFound
            | BeamError::HostNotFound => ErrorKind::NotFound,
            BeamError::MissingProxy
            | BeamError::MissingListenPort
            | BeamError::MissingRemoteHost
            | BeamError::MissingRemotePort => ErrorKind::MissingRequiredField,
            BeamError::EmptyDirectory => ErrorKind::EmptyDirectory,
            BeamError::CacheCorrupt => ErrorKind::CacheCorrupt,
            BeamError::InvalidPattern
            | BeamError::InvalidCacheTtl
            | BeamError::UnsupportedShell
            | BeamError::ProfileExists => ErrorKind::InvalidInput,
            BeamError::LastProfile | BeamError::ReplacementRequired => ErrorKind::Refused,
            BeamError::LoginFailed | BeamError::AuthRequired => ErrorKind::AuthRequired,
            BeamError::DirectoryUnavailable => ErrorKind::DirectoryUnavailable,
        }
    }

    /// The message that tells the user what went wrong.
    pub open spec fn spec_message(self) -> Seq<char> {
        match self {
            BeamError::StoreMissing => "No profiles have been configured yet"@,
            BeamError::NoProfiles => "No profiles found"@,
            BeamError::NoDefaultProfile => "No default profile found. Please create a default profile."@,
            BeamError::MultipleDefaultProfiles => "Multiple default profiles found. Please fix your profiles.toml"@,
            BeamError::ProfileNotFound => "Could not find profile"@,
            BeamError::ProfileExists => "Profile with this name already exists"@,
            BeamError::LastProfile => "Cannot remove default profile, there must be at least one profile"@,
            BeamError::ReplacementRequired => "You are trying to remove the default profile. Please select a new default profile first."@,
            BeamError::HostNotFound => "Host not found in teleport"@,
            BeamError::MissingProxy => "No proxy configured to login with. Please use --proxy or configure it using beam configure"@,
            BeamError::MissingListenPort => "port forwarding was activated, but listen_port property was not set"@,
            BeamError::MissingRemoteHost => "port forwarding was activated, but remote_host property was not set"@,
            BeamError::MissingRemotePort => "port forwarding was activated, but remote_port property was not set"@,
            BeamError::EmptyDirectory => "This proxy does not seem to have any nodes"@,
            BeamError::CacheCorrupt => "The cached list of nodes cannot be read"@,
            BeamError::InvalidPattern => "A host pattern is not a valid regular expression"@,
            BeamError::InvalidCacheTtl => "The cache TTL must be a number of seconds"@,
            BeamError::UnsupportedShell => "Unsupported shell"@,
            BeamError::LoginFailed => "Login failed"@,
            BeamError::AuthRequired => "The proxy asks for a login"@,
            BeamError::DirectoryUnavailable => "The list of nodes could not be fetched"@,
        }
    }

    /// The message that tells the user what went wrong.
    pub fn message(&self) -> (res: String)
        ensures
            res@ == self.spec_message(),
    {
        let text = match self {
            BeamError::StoreMissing => "No profiles have been configured yet",
            BeamError::NoProfiles => "No profiles found",
            BeamError::NoDefaultProfile => "No default profile found. Please create a default profile.",
            BeamError::MultipleDefaultProfiles => "Multiple default profiles found. Please fix your profiles.toml",
            BeamError::ProfileNotFound => "Could not find profile",
            BeamError::ProfileExists => "Profile with this name already exists",
            BeamError::LastProfile => "Cannot remove default profile, there must be at least one profile",
            BeamError::ReplacementRequired => "You are trying to remove the default profile. Please select a new default profile first.",
            BeamError::HostNotFound => "Host not found in teleport",
            BeamError::MissingProxy => "No proxy configured to login with. Please use --proxy or configure it using beam configure",
            BeamError::MissingListenPort => "port forwarding was activated, but listen_port property was not set",
            BeamError::MissingRemoteHost => "port forwarding was activated, but remote_host property was not set",
            BeamError::MissingRemotePort => "port forwarding was activated, but remote_port property was not set",
            BeamError::EmptyDirectory => "This proxy does not seem to have any nodes",
            BeamError::CacheCorrupt => "The cached list of nodes cannot be read",
            BeamError::InvalidPattern => "A host pattern is not a valid regular expression",
            BeamError::InvalidCacheTtl => "The cache TTL must be a number of seconds",
            BeamError::UnsupportedShell => "Unsupported shell",
            BeamError::LoginFailed => "Login failed",
            BeamError::AuthRequired => "The proxy asks for a login",
            BeamError::DirectoryUnavailable => "The list of nodes could not be fetched",
        };
        String::from_str(text)
    }
}

impl BeamError {
    /// The message of a failure that concerns something with a name, such
    /// as a profile or a shell: the message names it. The message of any
    /// other failure is the plain one.
    pub open spec fn spec_message_for(self, subject: Seq<char>) -> Seq<char> {
        match self {
            BeamError::ProfileNotFound => "Could not find profile "@ + subject,
            BeamError::ProfileExists => "Profile with name "@ + subject + " already exists"@,
            BeamError::MissingListenPort => "port forwarding was activated for profile "@ + subject
                + ", but listen_port property was not set"@,
            BeamError::MissingRemoteHost => "port forwarding was activated for profile "@ + subject
                + ", but remote_host property was not set"@,
            BeamError::MissingRemotePort => "port forwarding was activated for profile "@ + subject
                + ", but remote_port property was not set"@,
            BeamError::UnsupportedShell => "Unsupported shell: "@ + subject,
            _ => self.spec_message(),
        }
    }

    /// The message of the failure, which names `subject` where the failure
    /// concerns something with a name.
    pub fn message_for(&self, subject: &str) -> (res: String)
        ensures
            res@ == self.spec_message_for(subject@),
    {
        match self {
            BeamError::ProfileNotFound => {
                let mut res = String::from_str("Could not find profile ");
                res.append(subject);
                res
            },
            BeamError::ProfileExists => {
                let mut res = String::from_str("Profile with name ");
                res.append(subject);
                res.append(" already exists");
                res
            },
            BeamError::MissingListenPort => {
                let mut res = String::from_str("port forwarding was activated for profile ");
                res.append(subject);
                res.append(", but listen_port property was not set");
                res
            },
            BeamError::MissingRemoteHost => {
                let mut res = String::from_str("port forwarding was activated for profile ");
                res.append(subject);
                res.append(", but remote_host property was not set");
                res
            },
            BeamError::MissingRemotePort => {
                let mut res = String::from_str("port forwarding was activated for profile ");
                res.append(subject);
                res.append(", but remote_port property was not set");
                res
            },
            BeamError::UnsupportedShell => {
                let mut res = String::from_str("Unsupported shell: ");
                res.append(subject);
                res
            },
            _ => self.message(),
        }
    }
}

/// A failure together with the name of what it concerns: a profile, a
/// host or a shell. The name is empty where the failure concerns nothing
/// that has one.
#[derive(Debug, PartialEq, Eq)]
pub struct Failure {
    pub error: BeamError,
    pub subject: String,
}

/// What a `Failure` holds, the name as its sequence of characters.
pub struct FailureView {
    pub error: BeamError,
    pub subject: Seq<char>,
}

impl View for Failure {
    type V = FailureView;

    open spec fn view(&self) -> FailureView {
        FailureView { error: self.error, subject: self.subject@ }
    }
}

impl FailureView {
    /// The message that tells the user what went wrong, and with what.
    pub open spec fn message(self) -> Seq<char> {
        self.error.spec_message_for(self.subject)
    }
}

impl Failure {
    /// The failure `error` of what is called `subject`.
    pub fn new(error: BeamError, subject: &str) -> (res: Failure)
        ensures
            res@ == (FailureView { error, subject: subject@ }),
    {
        Failure { error, subject: String::from_str(subject) }
    }

    /// The class that the failure belongs to.
    pub fn kind(&self) -> (res: ErrorKind)
        ensures
            res == self.error.spec_kind(),
    {
        self.error.kind()
    }

    /// The message that tells the user what went wrong, and with what.
    pub fn message(&self) -> (res: String)
        ensures
            res@ == self@.message(),
    {
        self.error.message_for(self.subject.as_str())
    }
}

} // verus!
