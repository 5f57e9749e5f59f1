use inscription_pipeline::config::{ConfigError, GeyserPluginPostgresConfig, GeyserPluginPostgresError};

fn host_user() -> GeyserPluginPostgresConfig {
    GeyserPluginPostgresConfig {
        host: Some("db.local".to_string()),
        user: Some("solana".to_string()),
        ..Default::default()
    }
}

#[test]
fn host_and_user_with_default_port() {
    let plan = host_user().connection_plan().ok().unwrap();
    assert_eq!(plan.connection_str, "host=db.local user=solana port=5432");
    assert!(plan.tls.is_none());
}

#[test]
fn host_and_user_with_port() {
    for (port, text) in [(7u16, "7"), (0, "0"), (65535, "65535"), (10, "10")] {
        let c = GeyserPluginPostgresConfig { port: Some(port), ..host_user() };
        let plan = c.connection_plan().ok().unwrap();
        assert_eq!(plan.connection_str, format!("host=db.local user=solana port={}", text));
    }
}

#[test]
fn connection_string_overrides_host() {
    let c = GeyserPluginPostgresConfig {
        connection_str: Some("postgres://x".to_string()),
        ..Default::default()
    };
    assert_eq!(c.connection_plan().ok().unwrap().connection_str, "postgres://x");
}

#[test]
fn missing_target_is_a_configuration_error() {
    let c = GeyserPluginPostgresConfig { host: Some("h".to_string()), ..Default::default() };
    assert_eq!(c.connection_plan().err(), Some(ConfigError::MissingConnectionTarget));
    let c = GeyserPluginPostgresConfig::default();
    assert_eq!(c.connection_plan().err(), Some(ConfigError::MissingConnectionTarget));
    match ConfigError::MissingConnectionTarget.into_plugin_error() {
        GeyserPluginPostgresError::ConfigurationError { msg } => assert!(msg.contains("connection_str")),
        _ => panic!("not a configuration error"),
    }
}

#[test]
fn tls_needs_a_server_ca() {
    let base = GeyserPluginPostgresConfig { use_ssl: Some(true), ..host_user() };
    assert_eq!(base.connection_plan().err(), Some(ConfigError::MissingServerCa));
    let c = GeyserPluginPostgresConfig { client_cert: Some("cert".to_string()), client_key: Some("key".to_string()), ..base };
    assert_eq!(c.connection_plan().err(), Some(ConfigError::MissingServerCa));
}

#[test]
fn tls_with_server_ca_only() {
    let c = GeyserPluginPostgresConfig { use_ssl: Some(true), server_ca: Some("ca".to_string()), ..host_user() };
    let tls = c.connection_plan().ok().unwrap().tls.unwrap();
    assert_eq!(tls.server_ca, "ca");
    assert_eq!(tls.client_cert, None);
    assert_eq!(tls.client_key, None);
}

#[test]
fn tls_with_client_certificate() {
    let base = GeyserPluginPostgresConfig { use_ssl: Some(true), server_ca: Some("ca".to_string()), ..host_user() };
    let c = GeyserPluginPostgresConfig { client_cert: Some("cert".to_string()), ..base.clone() };
    assert_eq!(c.connection_plan().err(), Some(ConfigError::MissingClientKey));
    let c = GeyserPluginPostgresConfig { client_key: Some("key".to_string()), ..base.clone() };
    assert_eq!(c.connection_plan().err(), Some(ConfigError::MissingClientCert));
    let c = GeyserPluginPostgresConfig { client_cert: Some("cert".to_string()), client_key: Some("key".to_string()), ..base };
    let tls = c.connection_plan().ok().unwrap().tls.unwrap();
    assert_eq!(tls.server_ca, "ca");
    assert_eq!(tls.client_cert.as_deref(), Some("cert"));
    assert_eq!(tls.client_key.as_deref(), Some("key"));
}

#[test]
fn tls_off_ignores_missing_files() {
    let c = GeyserPluginPostgresConfig { use_ssl: Some(false), ..host_user() };
    assert!(c.connection_plan().ok().unwrap().tls.is_none());
}

#[test]
fn defaults() {
    let c = GeyserPluginPostgresConfig::default();
    assert_eq!(c.worker_count(), 100);
    assert_eq!(c.resolved_port(), 5432);
    assert_eq!(c.resolved_batch_size(), 10);
    assert!(!c.escalates_db_errors());
    let c = GeyserPluginPostgresConfig {
        threads: Some(3),
        port: Some(6000),
        batch_size: Some(1),
        panic_on_db_errors: Some(true),
        ..Default::default()
    };
    assert_eq!((c.worker_count(), c.resolved_port(), c.resolved_batch_size()), (3, 6000, 1));
    assert!(c.escalates_db_errors());
}

#[test]
fn program_key_is_decoded_from_base58() {
    let c = GeyserPluginPostgresConfig {
        program_id: Some("he11owor1d".to_string()),
        ..Default::default()
    };
    assert_eq!(c.program_key().ok(), Some(vec![0x04, 0x30, 0x5e, 0x2b, 0x24, 0x73, 0xf0, 0x58]));
    let c = GeyserPluginPostgresConfig {
        program_id: Some("11111111111111111111111111111111".to_string()),
        ..Default::default()
    };
    assert_eq!(c.program_key().ok(), Some(vec![0u8; 32]));
    let c = GeyserPluginPostgresConfig { program_id: Some("0OIl".to_string()), ..Default::default() };
    assert_eq!(c.program_key().err(), Some(ConfigError::InvalidProgramId));
    let c = GeyserPluginPostgresConfig::default();
    assert_eq!(c.program_key().err(), Some(ConfigError::MissingProgramId));
}
