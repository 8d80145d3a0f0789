use imessage_rs::config::{
    config_file_request, parse_webhook_args, resolve_config, unparsable_config, unreadable_config,
    CliArgs, ConfigFile,
    ConfigFileRequest, ConfigFlags, WebhookConfigEntry, YamlConfig,
};

fn default_cli() -> CliArgs {
    CliArgs { command: None, config: None, flags: ConfigFlags::default() }
}

/// Reads the file the resolution asks for, as the application does: a
/// missing path gives `Missing`.
fn file_for(cli: &CliArgs) -> Option<ConfigFile> {
    match config_file_request(cli) {
        None => None,
        Some(ConfigFileRequest::Explicit(p)) => {
            if std::path::Path::new(&p).exists() {
                Some(unparsable_config(&p))
            } else {
                Some(ConfigFile::Missing)
            }
        }
        Some(ConfigFileRequest::Default) => Some(ConfigFile::Missing),
    }
}

#[test]
fn flags_has_any_detects_password() {
    let flags = ConfigFlags { password: Some("secret".to_string()), ..Default::default() };
    assert!(flags.has_any());
}

#[test]
fn flags_has_any_detects_webhook() {
    let flags =
        ConfigFlags { webhook: vec!["http://localhost/hook".to_string()], ..Default::default() };
    assert!(flags.has_any());
}

#[test]
fn flags_has_any_empty() {
    assert!(!ConfigFlags::default().has_any());
}

#[test]
fn flags_to_yaml_config() {
    let flags = ConfigFlags {
        password: Some("pass".to_string()),
        socket_port: Some(8080),
        enable_private_api: Some(true),
        ..Default::default()
    };
    let yaml = flags.to_yaml_config();
    assert_eq!(yaml.password.as_deref(), Some("pass"));
    assert_eq!(yaml.socket_port, Some(8080));
    assert_eq!(yaml.enable_private_api, Some(true));
    assert!(yaml.server_address.is_none());
    assert!(yaml.webhooks.is_none());
}

#[test]
fn flags_to_yaml_config_with_webhooks() {
    let flags = ConfigFlags {
        webhook: vec![
            "http://localhost:3000/hook".to_string(),
            "http://localhost:4000/hook;new-message,updated-message".to_string(),
        ],
        ..Default::default()
    };
    let yaml = flags.to_yaml_config();
    let wh = yaml.webhooks.unwrap();
    assert_eq!(wh.len(), 2);
    match &wh[0] {
        WebhookConfigEntry::Simple(url) => assert_eq!(url, "http://localhost:3000/hook"),
        _ => panic!("Expected Simple variant"),
    }
    match &wh[1] {
        WebhookConfigEntry::Detailed { url, events } => {
            assert_eq!(url, "http://localhost:4000/hook");
            assert_eq!(events.as_ref().unwrap(), &["new-message", "updated-message"]);
        }
        _ => panic!("Expected Detailed variant"),
    }
}

#[test]
fn resolve_with_flags_skips_yaml() {
    let cli = CliArgs {
        flags: ConfigFlags {
            password: Some("from-flags".to_string()),
            socket_port: Some(9999),
            ..Default::default()
        },
        ..default_cli()
    };
    assert!(config_file_request(&cli).is_none());
    let config = resolve_config(&cli, file_for(&cli)).unwrap();
    assert_eq!(config.password, "from-flags");
    assert_eq!(config.socket_port, 9999);
    assert!(!config.enable_private_api);
}

#[test]
fn resolve_no_flags_uses_defaults() {
    let cli = default_cli();
    let config = resolve_config(&cli, file_for(&cli)).unwrap();
    assert_eq!(config.socket_port, 1234);
    assert!(config.password.is_empty());
}

#[test]
fn resolve_config_file_not_found() {
    let cli = CliArgs {
        config: Some("/tmp/nonexistent-imessage-rs-config.yml".to_string()),
        ..default_cli()
    };
    let result = resolve_config(&cli, file_for(&cli));
    assert!(result.is_err());
    assert!(result.unwrap_err().to_string().contains("Config file not found"));
}

#[test]
fn resolve_explicit_config_parse_error() {
    let cli = CliArgs { config: Some("/tmp/bad.yml".to_string()), ..default_cli() };
    let file = Some(ConfigFile::Failed("Failed to parse config file /tmp/bad.yml".to_string()));
    let result = resolve_config(&cli, file);
    assert!(result.is_err());
    assert!(result.unwrap_err().contains("Failed to parse"));
}

#[test]
fn yaml_into_app_config_defaults() {
    let yaml = YamlConfig {
        password: Some("yaml-pass".to_string()),
        socket_port: Some(5678),
        ..Default::default()
    };
    let config = yaml.into_app_config();
    assert_eq!(config.password, "yaml-pass");
    assert_eq!(config.socket_port, 5678);
    assert!(!config.enable_private_api);
}

// --- further cases -------------------------------------------------------------

#[test]
fn explicit_config_is_loaded() {
    let cli = CliArgs { config: Some("/etc/x.yml".to_string()), ..default_cli() };
    let yaml = YamlConfig { socket_port: Some(4321), ..Default::default() };
    let config = resolve_config(&cli, Some(ConfigFile::Loaded(yaml))).unwrap();
    assert_eq!(config.socket_port, 4321);
}

#[test]
fn default_file_failure_falls_back_to_defaults() {
    let cli = default_cli();
    let config =
        resolve_config(&cli, Some(ConfigFile::Failed("unreadable".to_string()))).unwrap();
    assert_eq!(config.socket_port, 1234);
}

#[test]
fn webhook_arguments_parse() {
    let entries = parse_webhook_args(&[
        "http://a;  new-message , ,typing-indicator".to_string(),
        "http://b;".to_string(),
    ]);
    match &entries[0] {
        WebhookConfigEntry::Detailed { url, events } => {
            assert_eq!(url, "http://a");
            assert_eq!(events.as_ref().unwrap(), &["new-message", "typing-indicator"]);
        }
        _ => panic!("Expected Detailed variant"),
    }
    match &entries[1] {
        WebhookConfigEntry::Detailed { url, events } => {
            assert_eq!(url, "http://b");
            assert!(events.as_ref().unwrap().is_empty());
        }
        _ => panic!("Expected Detailed variant"),
    }
}

#[test]
fn failed_config_files_name_the_path() {
    let cli = CliArgs { config: Some("/tmp/bad.yml".to_string()), ..default_cli() };
    let err = resolve_config(&cli, Some(unparsable_config("/tmp/bad.yml"))).unwrap_err();
    assert_eq!(err, "Failed to parse /tmp/bad.yml");
    let err = resolve_config(&cli, Some(unreadable_config("/tmp/bad.yml"))).unwrap_err();
    assert_eq!(err, "Failed to read /tmp/bad.yml");
}
