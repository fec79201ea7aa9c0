//! The arguments of the command that connects to a host.

use vstd::prelude::*;
use vstd::string::*;
use crate::config::PortForwardingConfig;
use crate::config::PortForwardingView;
use crate::error::BeamError;
use crate::error::Failure;
use crate::error::FailureView;
use crate::text::decimal;
use crate::text::number_text;

verus! {

/// The argument that forwards the local port `listen` to `host:remote`.
pub open spec fn forward_argument(listen: u16, host: Seq<char>, remote: u16) -> Seq<char> {
    decimal(listen as nat) + ":"@ + host + ":"@ + decimal(remote as nat)
}

/// The argument that names the user and the host.
pub open spec fn login_argument(username: Seq<char>, host: Seq<char>) -> Seq<char> {
    username + "@"@ + host
}

/// The command line that connects `username` to `host`, with the port
/// forwarding `forwarding` of the profile `profile_name`; the failure where
/// the forwarding is enabled and lacks a setting, which names the profile.
pub open spec fn spec_tsh_command(
    host: Seq<char>,
    username: Seq<char>,
    profile_name: Seq<char>,
    forwarding: PortForwardingView,
) -> Result<Seq<Seq<char>>, FailureView> {
    if !forwarding.enabled {
        Ok(seq!["tsh"@, "ssh"@, login_argument(username, host)])
    } else if forwarding.listen_port is None {
        Err(FailureView { error: BeamError::MissingListenPort, subject: profile_name })
    } else if forwarding.remote_host is None {
        Err(FailureView { error: BeamError::MissingRemoteHost, subject: profile_name })
    } else if forwarding.remote_port is None {
        Err(FailureView { error: BeamError::MissingRemotePort, subject: profile_name })
    } else {
        Ok(
            seq![
                "tsh"@,
                "ssh"@,
                "-L"@,
                forward_argument(
                    forwarding.listen_port->0,
                    forwarding.remote_host->0,
                    forwarding.remote_port->0,
                ),
                login_argument(username, host),
            ],
        )
    }
}

/// The command line that connects `username` to `host`. `profile_name` is
/// the profile that the forwarding comes from: a failure names it.
pub fn get_tsh_command(
    host: &str,
    username: &str,
    profile_name: &str,
    port_forwarding_config: &PortForwardingConfig,
) -> (res: Result<Vec<String>, Failure>)
    ensures
        match res {
            Ok(args) => spec_tsh_command(host@, username@, profile_name@, port_forwarding_config@)
                == Ok::<Seq<Seq<char>>, FailureView>(args.deep_view()),
            Err(f) => spec_tsh_command(host@, username@, profile_name@, port_forwarding_config@)
                == Err::<Seq<Seq<char>>, FailureView>(f@),
        },
{
    let mut args: Vec<String> = Vec::new();
    args.push(String::from_str("tsh"));
    args.push(String::from_str("ssh"));
    if port_forwarding_config.enabled {
        let listen_port = match port_forwarding_config.listen_port {
            Some(port) => port,
            None => {
                return Err(Failure::new(BeamError::MissingListenPort, profile_name));
            },
        };
        let remote_host = match &port_forwarding_config.remote_host {
            Some(remote) => remote,
            None => {
                return Err(Failure::new(BeamError::MissingRemoteHost, profile_name));
            },
        };
        let remote_port = match port_forwarding_config.remote_port {
            Some(port) => port,
            None => {
                return Err(Failure::new(BeamError::MissingRemotePort, profile_name));
            },
        };
        let mut forward = number_text(listen_port as u64);
        forward.append(":");
        forward.append(remote_host.as_str());
        forward.append(":");
        forward.append(number_text(remote_port as u64).as_str());
        args.push(String::from_str("-L"));
        args.push(forward);
    }
    let mut login = String::from_str(username);
    login.append("@");
    login.append(host);
    args.push(login);
    proof {
        let expected = spec_tsh_command(
            host@,
            username@,
            profile_name@,
            port_forwarding_config@,
        )->Ok_0;
        assert(args.deep_view() =~= expected);
    }
    Ok(args)
}

} // verus!
