use beamcli::error::BeamError;
use beamcli::error::ErrorKind;
use beamcli::error::Failure;

#[test]
fn failures_have_their_class() {
    assert_eq!(BeamError::NoDefaultProfile.kind(), ErrorKind::Integrity);
    assert_eq!(BeamError::MultipleDefaultProfiles.kind(), ErrorKind::Integrity);
    assert_eq!(BeamError::StoreMissing.kind(), ErrorKind::NotFound);
    assert_eq!(BeamError::NoProfiles.kind(), ErrorKind::NotFound);
    assert_eq!(BeamError::ProfileNotFound.kind(), ErrorKind::NotFound);
    assert_eq!(BeamError::HostNotFound.kind(), ErrorKind::NotFound);
    assert_eq!(BeamError::MissingProxy.kind(), ErrorKind::MissingRequiredField);
    assert_eq!(BeamError::MissingListenPort.kind(), ErrorKind::MissingRequiredField);
    assert_eq!(BeamError::MissingRemoteHost.kind(), ErrorKind::MissingRequiredField);
    assert_eq!(BeamError::MissingRemotePort.kind(), ErrorKind::MissingRequiredField);
    assert_eq!(BeamError::EmptyDirectory.kind(), ErrorKind::EmptyDirectory);
    assert_eq!(BeamError::CacheCorrupt.kind(), ErrorKind::CacheCorrupt);
    assert_eq!(BeamError::InvalidPattern.kind(), ErrorKind::InvalidInput);
    assert_eq!(BeamError::InvalidCacheTtl.kind(), ErrorKind::InvalidInput);
    assert_eq!(BeamError::UnsupportedShell.kind(), ErrorKind::InvalidInput);
    assert_eq!(BeamError::ProfileExists.kind(), ErrorKind::InvalidInput);
    assert_eq!(BeamError::LastProfile.kind(), ErrorKind::Refused);
    assert_eq!(BeamError::ReplacementRequired.kind(), ErrorKind::Refused);
    assert_eq!(BeamError::LoginFailed.kind(), ErrorKind::AuthRequired);
    assert_eq!(BeamError::AuthRequired.kind(), ErrorKind::AuthRequired);
    assert_eq!(BeamError::DirectoryUnavailable.kind(), ErrorKind::DirectoryUnavailable);
}

#[test]
fn failures_have_their_message() {
    assert_eq!(BeamError::NoProfiles.message(), "No profiles found");
    assert_eq!(
        BeamError::NoDefaultProfile.message(),
        "No default profile found. Please create a default profile."
    );
    assert_eq!(
        BeamError::MultipleDefaultProfiles.message(),
        "Multiple default profiles found. Please fix your profiles.toml"
    );
    assert_eq!(BeamError::HostNotFound.message(), "Host not found in teleport");
    assert_eq!(
        BeamError::EmptyDirectory.message(),
        "This proxy does not seem to have any nodes"
    );
    assert_eq!(BeamError::LoginFailed.message(), "Login failed");
    assert_eq!(BeamError::UnsupportedShell.message(), "Unsupported shell");
    let all = [
        BeamError::StoreMissing,
        BeamError::NoProfiles,
        BeamError::NoDefaultProfile,
        BeamError::MultipleDefaultProfiles,
        BeamError::ProfileNotFound,
        BeamError::ProfileExists,
        BeamError::LastProfile,
        BeamError::ReplacementRequired,
        BeamError::HostNotFound,
        BeamError::MissingProxy,
        BeamError::MissingListenPort,
        BeamError::MissingRemoteHost,
        BeamError::MissingRemotePort,
        BeamError::EmptyDirectory,
        BeamError::CacheCorrupt,
        BeamError::InvalidPattern,
        BeamError::InvalidCacheTtl,
        BeamError::UnsupportedShell,
        BeamError::LoginFailed,
        BeamError::AuthRequired,
        BeamError::DirectoryUnavailable,
    ];
    for (i, a) in all.iter().enumerate() {
        assert!(!a.message().is_empty());
        for b in all.iter().skip(i + 1) {
            assert_ne!(a.message(), b.message());
        }
    }
}

#[test]
fn failures_name_what_they_concern() {
    assert_eq!(
        BeamError::ProfileNotFound.message_for("work"),
        "Could not find profile work"
    );
    assert_eq!(
        BeamError::ProfileExists.message_for("work"),
        "Profile with name work already exists"
    );
    assert_eq!(
        BeamError::MissingListenPort.message_for("work"),
        "port forwarding was activated for profile work, but listen_port property was not set"
    );
    assert_eq!(
        BeamError::MissingRemoteHost.message_for("work"),
        "port forwarding was activated for profile work, but remote_host property was not set"
    );
    assert_eq!(
        BeamError::MissingRemotePort.message_for("work"),
        "port forwarding was activated for profile work, but remote_port property was not set"
    );
    assert_eq!(
        BeamError::UnsupportedShell.message_for("tcsh"),
        "Unsupported shell: tcsh"
    );
    assert_eq!(BeamError::ProfileNotFound.message_for(""), "Could not find profile ");
    assert_eq!(BeamError::LoginFailed.message_for("work"), "Login failed");
    assert_eq!(
        BeamError::EmptyDirectory.message_for("work"),
        BeamError::EmptyDirectory.message()
    );
    let failure = Failure::new(BeamError::ProfileNotFound, "home");
    assert_eq!(failure.error, BeamError::ProfileNotFound);
    assert_eq!(failure.subject, "home");
    assert_eq!(failure.message(), "Could not find profile home");
    assert_eq!(failure.kind(), ErrorKind::NotFound);
}
