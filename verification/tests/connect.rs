use beamcli::config::PortForwardingConfig;
use beamcli::error::BeamError;
use beamcli::error::Failure;
use beamcli::ssh::connect::get_tsh_command;

#[test]
fn test_get_tsh_command_port_forwarding() {
    let username = "testuser";
    let profile_name = "test";

    let port_forwarding_config = PortForwardingConfig {
        enabled: true,
        listen_port: Some(8080),
        remote_host: Some("localhost".into()),
        remote_port: Some(80),
    };

    let args = get_tsh_command("t-test", username, profile_name, &port_forwarding_config).unwrap();

    assert_eq!(args[0], "tsh");
    assert_eq!(args[1], "ssh");
    assert_eq!(args[2], "-L");
    assert_eq!(args[3], "8080:localhost:80");
    assert_eq!(args[4], "testuser@t-test");
}

#[test]
fn test_get_tsh_command() {
    let username = "testuser";
    let profile_name = "test";

    let port_forwarding_config = PortForwardingConfig {
        enabled: false,
        listen_port: None,
        remote_host: None,
        remote_port: None,
    };

    let args = get_tsh_command("t-test", username, profile_name, &port_forwarding_config).unwrap();

    assert_eq!(args[0], "tsh");
    assert_eq!(args[1], "ssh");
    assert_eq!(args[2], "testuser@t-test");
}

#[test]
fn forwarding_without_a_setting_is_refused() {
    let mut forwarding = PortForwardingConfig {
        enabled: true,
        listen_port: None,
        remote_host: None,
        remote_port: None,
    };
    assert_eq!(
        get_tsh_command("h", "u", "p", &forwarding),
        Err(Failure::new(BeamError::MissingListenPort, "p"))
    );
    assert_eq!(
        get_tsh_command("h", "u", "work", &forwarding)
            .unwrap_err()
            .message(),
        "port forwarding was activated for profile work, but listen_port property was not set"
    );
    forwarding.listen_port = Some(0);
    assert_eq!(
        get_tsh_command("h", "u", "p", &forwarding),
        Err(Failure::new(BeamError::MissingRemoteHost, "p"))
    );
    assert_eq!(
        get_tsh_command("h", "u", "work", &forwarding)
            .unwrap_err()
            .message(),
        "port forwarding was activated for profile work, but remote_host property was not set"
    );
    forwarding.remote_host = Some("db".to_string());
    assert_eq!(
        get_tsh_command("h", "u", "p", &forwarding),
        Err(Failure::new(BeamError::MissingRemotePort, "p"))
    );
    assert_eq!(
        get_tsh_command("h", "u", "work", &forwarding)
            .unwrap_err()
            .message(),
        "port forwarding was activated for profile work, but remote_port property was not set"
    );
    forwarding.remote_port = Some(65535);
    assert_eq!(
        get_tsh_command("h", "u", "p", &forwarding).unwrap(),
        vec!["tsh", "ssh", "-L", "0:db:65535", "u@h"]
    );
}
