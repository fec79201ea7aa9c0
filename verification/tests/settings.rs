use beamcli::app::settings;
use beamcli::app::App;
use beamcli::config::Config;
use beamcli::config::ConfigBuilder;
use beamcli::config::ConfigVersion;
use beamcli::config::PortForwardingConfig;
use beamcli::config::DEFAULT_CACHE_TTL;
use beamcli::context::RuntimeContext;
use beamcli::context::RuntimeContextBuilder;
use beamcli::context::RuntimeFlags;
use beamcli::context::RuntimeMeta;
use beamcli::error::BeamError;
use beamcli::error::Failure;
use beamcli::utils::config::Config as Preferences;
use beamcli::utils::profile::Profile;

fn app() -> App {
    App {
        profile: None,
        user: None,
        proxy: None,
        auth: None,
        clear_cache: false,
        cmd: None,
        tsh: false,
    }
}

fn stored(name: &str, default: bool, pattern: Option<&str>, proxy: Option<&str>) -> Profile {
    Profile {
        name: name.to_string(),
        default,
        host_pattern: pattern.map(|p| p.to_string()),
        priority: None,
        config: Preferences {
            username: Some(format!("{}-user", name)),
            proxy: proxy.map(|p| p.to_string()),
            auth: Some(format!("{}-auth", name)),
            cache_ttl: Some(60),
            label_whitelist: Some(vec!["env".to_string()]),
            enable_port_forwarding: Some(true),
            listen_port: Some(8080),
            remote_port: Some(80),
            remote_host: Some("localhost".to_string()),
        },
    }
}

#[test]
fn builder_collects_the_settings() {
    let forwarding = PortForwardingConfig {
        enabled: true,
        listen_port: Some(1),
        remote_port: Some(2),
        remote_host: Some("h".to_string()),
    };
    let config = Config::builder()
        .username("me")
        .proxy("proxy.example.com")
        .auth("github")
        .cache_ttl(5)
        .label_whitelist(vec!["env".to_string()])
        .port_forwarding_config(forwarding.clone())
        .build_for("os".to_string())
        .unwrap();
    assert_eq!(
        config,
        Config {
            username: "me".to_string(),
            proxy: "proxy.example.com".to_string(),
            auth: Some("github".to_string()),
            cache_ttl: 5,
            label_whitelist: Some(vec!["env".to_string()]),
            port_forwarding_config: Some(forwarding),
        }
    );
}

#[test]
fn builder_falls_back() {
    let config = ConfigBuilder::new()
        .proxy("p")
        .build_for("os-user".to_string())
        .unwrap();
    assert_eq!(
        config,
        Config {
            username: "os-user".to_string(),
            proxy: "p".to_string(),
            auth: None,
            cache_ttl: 86400,
            label_whitelist: None,
            port_forwarding_config: None,
        }
    );
    assert_eq!(DEFAULT_CACHE_TTL, 60 * 60 * 24);
    assert_eq!(ConfigBuilder::new(), ConfigBuilder::default());
    assert_eq!(ConfigBuilder::new().proxy, None);
}

#[test]
fn builder_asks_the_operating_system_only_without_a_user() {
    let named = ConfigBuilder::new().username("me").proxy("p").build().unwrap();
    assert_eq!(named.username, "me");
    assert_eq!(named.proxy, "p");
    assert_eq!(named.cache_ttl, 86400);
    let unnamed = ConfigBuilder::new().proxy("p").cache_ttl(1).build().unwrap();
    assert_eq!(unnamed.proxy, "p");
    assert_eq!(unnamed.cache_ttl, 1);
    assert_eq!(unnamed.auth, None);
}

#[test]
fn builder_without_a_proxy_fails() {
    assert_eq!(
        ConfigBuilder::new().build_for("os".to_string()),
        Err(BeamError::MissingProxy)
    );
    assert_eq!(ConfigBuilder::new().build(), Err(BeamError::MissingProxy));
    assert_eq!(
        ConfigBuilder::new()
            .username("me")
            .auth("github")
            .cache_ttl(5)
            .label_whitelist(vec!["env".to_string()])
            .port_forwarding_config(PortForwardingConfig::default())
            .build_for("os".to_string()),
        Err(BeamError::MissingProxy)
    );
    assert_eq!(Config::builder().build(), Err(BeamError::MissingProxy));
    assert!(Config::builder().proxy("").build_for("os".to_string()).is_ok());
}

#[test]
fn later_calls_of_the_builder_win() {
    let config = ConfigBuilder::new()
        .username("a")
        .username("b")
        .cache_ttl(1)
        .cache_ttl(2)
        .proxy("p")
        .build_for("os".to_string())
        .unwrap();
    assert_eq!(config.username, "b");
    assert_eq!(config.cache_ttl, 2);
}

#[test]
fn context_builder() {
    let config = ConfigBuilder::new()
        .username("u")
        .proxy("p")
        .build_for("os".to_string())
        .unwrap();
    let context = RuntimeContext::builder()
        .clear_cache(true)
        .tsh(true)
        .config(config.clone())
        .profile_name("work")
        .build();
    assert_eq!(
        context,
        RuntimeContext {
            flags: RuntimeFlags { tsh: true, clear_cache: true },
            meta: RuntimeMeta { profile_name: "work".to_string(), is_logged_in: false },
            config,
        }
    );
    let blank = RuntimeContextBuilder::new().build();
    assert_eq!(blank.flags, RuntimeFlags { tsh: false, clear_cache: false });
    assert_eq!(blank.meta.profile_name, "");
    assert_eq!(blank.config, Config::default());
    assert_eq!(
        RuntimeContextBuilder::new().tsh(true).tsh(false).build().flags,
        RuntimeFlags::default()
    );
}

#[test]
fn places_of_the_stored_profiles() {
    assert_eq!(ConfigVersion::V1.get_path("/home/me"), "/home/me/.beam/profiles.toml");
    assert_eq!(
        ConfigVersion::V2.get_path("/home/me"),
        "/home/me/.config/beam/profiles.toml"
    );
    assert_eq!(ConfigVersion::Default.get_path(""), "/.beam/profiles.toml");
    assert_eq!(ConfigVersion::Missing.get_path("/x"), "/x/.beam/profiles.toml");
    assert_eq!(Config::find_current_version(true, true), ConfigVersion::V2);
    assert_eq!(Config::find_current_version(true, false), ConfigVersion::V2);
    assert_eq!(Config::find_current_version(false, true), ConfigVersion::V1);
    assert_eq!(Config::find_current_version(false, false), ConfigVersion::Missing);
}

#[test]
fn merging_prefers_the_first_layer() {
    let first = Preferences {
        username: Some("first".to_string()),
        cache_ttl: Some(1),
        listen_port: Some(10),
        ..Preferences::default()
    };
    let next = Preferences {
        username: Some("next".to_string()),
        proxy: Some("next-proxy".to_string()),
        cache_ttl: Some(2),
        label_whitelist: Some(vec!["l".to_string()]),
        enable_port_forwarding: Some(true),
        remote_port: Some(20),
        remote_host: Some("h".to_string()),
        ..Preferences::default()
    };
    assert_eq!(
        first.merge(&next),
        Preferences {
            username: Some("first".to_string()),
            proxy: Some("next-proxy".to_string()),
            auth: None,
            cache_ttl: Some(1),
            label_whitelist: Some(vec!["l".to_string()]),
            enable_port_forwarding: Some(true),
            listen_port: Some(10),
            remote_port: Some(20),
            remote_host: Some("h".to_string()),
        }
    );
    assert_eq!(Preferences::default().merge(&next), next);
    assert_eq!(next.merge(&Preferences::default()), next);
    assert_eq!(first.clone(), first);
}

#[test]
fn settings_need_a_proxy() {
    assert_eq!(
        settings(Preferences::default(), "os".to_string()),
        Err(BeamError::MissingProxy)
    );
    let only_proxy = Preferences {
        proxy: Some("p".to_string()),
        ..Preferences::default()
    };
    assert_eq!(
        settings(only_proxy, "os".to_string()),
        Ok(Config {
            username: "os".to_string(),
            proxy: "p".to_string(),
            auth: None,
            cache_ttl: 86400,
            label_whitelist: None,
            port_forwarding_config: Some(PortForwardingConfig::default()),
        })
    );
}

#[test]
fn command_line_comes_before_the_profile() {
    let profiles = [stored("work", true, None, Some("work-proxy"))];
    let mut asked = app();
    asked.user = Some("cli-user".to_string());
    asked.proxy = Some("cli-proxy".to_string());
    asked.tsh = true;
    asked.clear_cache = true;
    let context = asked.context_for(&profiles, None, "os".to_string()).unwrap();
    assert_eq!(context.config.username, "cli-user");
    assert_eq!(context.config.proxy, "cli-proxy");
    assert_eq!(context.config.auth, Some("work-auth".to_string()));
    assert_eq!(context.config.cache_ttl, 60);
    assert_eq!(context.config.label_whitelist, Some(vec!["env".to_string()]));
    assert_eq!(
        context.config.port_forwarding_config,
        Some(PortForwardingConfig {
            enabled: true,
            listen_port: Some(8080),
            remote_port: Some(80),
            remote_host: Some("localhost".to_string()),
        })
    );
    assert_eq!(context.meta.profile_name, "work");
    assert!(!context.meta.is_logged_in);
    assert_eq!(context.flags, RuntimeFlags { tsh: true, clear_cache: true });
}

#[test]
fn profile_is_named_or_matched_or_the_default() {
    let profiles = [
        stored("main", true, None, Some("main-proxy")),
        stored("db", false, Some("^db-"), Some("db-proxy")),
        stored("spare", false, None, Some("spare-proxy")),
    ];
    let plain = app();
    let by_default = plain.context_for(&profiles, None, "os".to_string()).unwrap();
    assert_eq!(by_default.meta.profile_name, "main");
    assert_eq!(by_default.config.proxy, "main-proxy");
    let by_host = plain.context_for(&profiles, Some("db-01"), "os".to_string()).unwrap();
    assert_eq!(by_host.meta.profile_name, "db");
    assert_eq!(by_host.config.proxy, "db-proxy");
    assert_eq!(by_host.config.username, "db-user");
    let unmatched = plain.context_for(&profiles, Some("web-01"), "os".to_string()).unwrap();
    assert_eq!(unmatched.meta.profile_name, "main");
    let mut named = app();
    named.profile = Some("spare".to_string());
    let by_name = named.context_for(&profiles, Some("db-01"), "os".to_string()).unwrap();
    assert_eq!(by_name.meta.profile_name, "spare");
    assert_eq!(by_name.config.proxy, "spare-proxy");
    named.profile = Some("absent".to_string());
    assert_eq!(
        named.context_for(&profiles, None, "os".to_string()),
        Err(Failure::new(BeamError::ProfileNotFound, "absent"))
    );
    assert_eq!(
        named
            .context_for(&profiles, None, "os".to_string())
            .unwrap_err()
            .message(),
        "Could not find profile absent"
    );
}

#[test]
fn context_fails_as_its_parts_fail() {
    let plain = app();
    assert_eq!(
        plain.context_for(&[], None, "os".to_string()),
        Err(Failure::new(BeamError::MissingProxy, ""))
    );
    let mut with_proxy = app();
    with_proxy.proxy = Some("p".to_string());
    let context = with_proxy.context_for(&[], Some("h"), "os".to_string()).unwrap();
    assert_eq!(context.config.username, "os");
    assert_eq!(context.config.proxy, "p");
    assert_eq!(context.config.cache_ttl, 86400);
    assert_eq!(context.meta.profile_name, "");
    let no_default = [stored("a", false, None, Some("p"))];
    assert_eq!(
        plain.context_for(&no_default, None, "os".to_string()),
        Err(Failure::new(BeamError::NoDefaultProfile, ""))
    );
    let two_defaults = [
        stored("a", true, None, Some("p")),
        stored("b", true, None, Some("p")),
    ];
    assert_eq!(
        plain.context_for(&two_defaults, Some("h"), "os".to_string()),
        Err(Failure::new(BeamError::MultipleDefaultProfiles, ""))
    );
    let bad_pattern = [
        stored("a", true, None, Some("p")),
        stored("b", false, Some("("), Some("p")),
    ];
    assert_eq!(
        plain.context_for(&bad_pattern, Some("h"), "os".to_string()),
        Err(Failure::new(BeamError::InvalidPattern, ""))
    );
    assert!(plain.context_for(&bad_pattern, None, "os".to_string()).is_ok());
    let without_proxy = [stored("a", true, None, None)];
    assert_eq!(
        plain.context_for(&without_proxy, None, "os".to_string()),
        Err(Failure::new(BeamError::MissingProxy, ""))
    );
    let mut asked = app();
    asked.profile = Some("a".to_string());
    assert_eq!(
        asked.context_for(&without_proxy, None, "os".to_string()),
        Err(Failure::new(BeamError::MissingProxy, "a"))
    );
    assert_eq!(App::default_profile(&[]), Ok(None));
    let mut named = app();
    named.user = Some("cli-user".to_string());
    named.proxy = Some("p".to_string());
    let context = named.context(&[], None).unwrap();
    assert_eq!(context.config.username, "cli-user");
    assert_eq!(context.config.proxy, "p");
    assert_eq!(
        plain.overrides(),
        Preferences::default()
    );
}
