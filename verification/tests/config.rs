use org_wiki::config::{
    config_file_to_read, oidc_secret_file_to_read, webhook_secret_file_to_read, CliRaw, Config,
    ConfigError, ConfigFileRaw, LogFormat, LogLevel,
};

fn required_cli() -> CliRaw {
    CliRaw {
        content_repo: Some("/srv/wiki".into()),
        oidc_issuer: Some("https://id.example.com".into()),
        oidc_client_id: Some("wiki".into()),
        oidc_client_secret: Some("secret".into()),
        base_url: Some("https://wiki.example.com".into()),
        ..CliRaw::default()
    }
}

#[test]
fn defaults_fill_in() {
    let c = Config::from_cli_and_file(required_cli(), ConfigFileRaw::default(), None, None).unwrap();
    assert_eq!(c.log_level, LogLevel::Info);
    assert_eq!(c.log_format, LogFormat::Text);
    assert_eq!(c.listen_address.to_string(), "127.0.0.1:3000");
    assert_eq!(c.frontend_path, "frontend/public");
    assert_eq!(c.content_repo, "/srv/wiki");
    assert!(c.content_remote.is_none());
    assert_eq!(c.pandoc_bin, "pandoc");
    assert!(c.org_fmt_bin.is_none());
    let expected: tokio_listener::ListenerAddress = "127.0.0.1:3000".parse().unwrap();
    assert_eq!(c.listen_address, expected);
    assert!(c.cache_dir.is_none());
    assert_eq!(c.site_title, "Org Wiki");
    assert_eq!(c.commit_author_name, "Org Wiki");
    assert_eq!(c.commit_author_email, "wiki@localhost");
    assert_eq!(c.oidc_client_secret, "secret");
    assert!(c.webhook_secret.is_none());
}

#[test]
fn command_line_wins_over_file() {
    let cli = CliRaw { site_title: Some("From CLI".into()), log_level: Some("DEBUG".into()), ..required_cli() };
    let file = ConfigFileRaw {
        site_title: Some("From file".into()),
        cache_dir: Some("/var/cache/wiki".into()),
        log_format: Some("json".into()),
        ..ConfigFileRaw::default()
    };
    let c = Config::from_cli_and_file(cli, file, None, None).unwrap();
    assert_eq!(c.site_title, "From CLI");
    assert_eq!(c.cache_dir.as_deref(), Some("/var/cache/wiki"));
    assert_eq!(c.log_level, LogLevel::Debug);
    assert_eq!(c.log_format, LogFormat::Json);
}

#[test]
fn org_fmt_only_when_given() {
    let file = ConfigFileRaw { org_fmt_bin: Some("/usr/bin/org-fmt".into()), ..ConfigFileRaw::default() };
    let c = Config::from_cli_and_file(required_cli(), file, None, None).unwrap();
    assert_eq!(c.org_fmt_bin.as_deref(), Some("/usr/bin/org-fmt"));
    let cli = CliRaw { listen: Some("/run/wiki.sock".into()), ..required_cli() };
    let c = Config::from_cli_and_file(cli, ConfigFileRaw::default(), None, None).unwrap();
    let expected: tokio_listener::ListenerAddress = "/run/wiki.sock".parse().unwrap();
    assert_eq!(c.listen_address, expected);
}

fn validation_message(r: Result<Config, ConfigError>) -> String {
    match r {
        Err(ConfigError::Validation(m)) => m,
        other => panic!("unexpected: {other:?}"),
    }
}

#[test]
fn missing_required_settings_are_reported_in_order() {
    let cli = CliRaw { content_repo: None, oidc_issuer: None, ..required_cli() };
    assert_eq!(
        validation_message(Config::from_cli_and_file(cli, ConfigFileRaw::default(), None, None)),
        "content_repo is required (path to the wiki git repository)"
    );
    let cli = CliRaw { oidc_issuer: None, ..required_cli() };
    assert_eq!(
        validation_message(Config::from_cli_and_file(cli, ConfigFileRaw::default(), None, None)),
        "oidc_issuer is required"
    );
    let cli = CliRaw { oidc_client_id: None, base_url: None, ..required_cli() };
    assert_eq!(
        validation_message(Config::from_cli_and_file(cli, ConfigFileRaw::default(), None, None)),
        "oidc_client_id is required"
    );
    let cli = CliRaw { oidc_client_secret: None, ..required_cli() };
    assert_eq!(
        validation_message(Config::from_cli_and_file(cli, ConfigFileRaw::default(), None, None)),
        "oidc_client_secret or oidc_client_secret_file is required"
    );
    let cli = CliRaw { base_url: None, ..required_cli() };
    assert_eq!(
        validation_message(Config::from_cli_and_file(cli, ConfigFileRaw::default(), None, None)),
        "base_url is required"
    );
}

#[test]
fn bad_log_settings_are_rejected() {
    let cli = CliRaw { log_level: Some("loud".into()), ..required_cli() };
    assert!(validation_message(Config::from_cli_and_file(cli, ConfigFileRaw::default(), None, None))
        .ends_with("loud"));
    let cli = CliRaw { log_format: Some("xml".into()), ..required_cli() };
    assert!(validation_message(Config::from_cli_and_file(cli, ConfigFileRaw::default(), None, None))
        .ends_with("xml"));
}

#[test]
fn bad_listen_address_is_rejected() {
    let cli = CliRaw { listen: Some("not an address".into()), ..required_cli() };
    match Config::from_cli_and_file(cli, ConfigFileRaw::default(), None, None) {
        Err(ConfigError::InvalidListenAddress { address, reason }) => {
            assert_eq!(address, "not an address");
            assert!(!reason.is_empty());
        }
        other => panic!("unexpected: {other:?}"),
    }
}

#[test]
fn secrets_come_from_files_trimmed() {
    let cli = CliRaw {
        oidc_client_secret: None,
        oidc_client_secret_file: Some("/run/secrets/oidc".into()),
        webhook_secret_file: Some("/run/secrets/hook".into()),
        ..required_cli()
    };
    let file = ConfigFileRaw::default();
    assert_eq!(oidc_secret_file_to_read(&cli, &file).as_deref(), Some("/run/secrets/oidc"));
    assert_eq!(webhook_secret_file_to_read(&cli, &file).as_deref(), Some("/run/secrets/hook"));
    let c = Config::from_cli_and_file(
        cli,
        file,
        Some(Ok("  from-file\n".into())),
        Some(Ok("hook-secret\n".into())),
    )
    .unwrap();
    assert_eq!(c.oidc_client_secret, "from-file");
    assert_eq!(c.webhook_secret.as_deref(), Some("hook-secret"));
}

#[test]
fn unreadable_secret_file_is_reported() {
    let cli = CliRaw {
        oidc_client_secret: None,
        oidc_client_secret_file: Some("/run/secrets/oidc".into()),
        ..required_cli()
    };
    match Config::from_cli_and_file(cli, ConfigFileRaw::default(), Some(Err("denied".into())), None) {
        Err(ConfigError::SecretFileRead { path, message }) => {
            assert_eq!(path, "/run/secrets/oidc");
            assert_eq!(message, "denied");
        }
        other => panic!("unexpected: {other:?}"),
    }
}

#[test]
fn direct_secret_needs_no_file() {
    let cli = CliRaw { oidc_client_secret_file: Some("/unused".into()), ..required_cli() };
    assert!(oidc_secret_file_to_read(&cli, &ConfigFileRaw::default()).is_none());
}

#[test]
fn config_file_choice() {
    let cli = CliRaw { config: Some("wiki.toml".into()), ..CliRaw::default() };
    assert_eq!(config_file_to_read(&cli, false).as_deref(), Some("wiki.toml"));
    assert_eq!(config_file_to_read(&CliRaw::default(), true).as_deref(), Some("config.toml"));
    assert!(config_file_to_read(&CliRaw::default(), false).is_none());
}

#[test]
fn log_names_parse() {
    assert_eq!(LogLevel::parse("warn"), Some(LogLevel::Warn));
    assert_eq!(LogLevel::parse("Trace"), Some(LogLevel::Trace));
    assert_eq!(LogLevel::parse("verbose"), None);
    assert_eq!(LogFormat::parse("JSON"), Some(LogFormat::Json));
}
