use account_service::config::{build_config, ConfigError};

fn full() -> (
    Option<String>,
    Option<String>,
    Option<String>,
    Option<String>,
    Option<String>,
    Option<String>,
    Option<String>,
) {
    (
        Some(String::from("0.0.0.0")),
        Some(String::from("3000")),
        Some(String::from("mongodb://localhost:27017")),
        Some(String::from("accounts")),
        Some(String::from("redis://localhost:6379")),
        Some(String::from("unit-test-signing-key")),
        Some(String::from("3600")),
    )
}

#[test]
fn a_complete_configuration_is_accepted() {
    let (h, p, m, d, s, k, t) = full();
    let c = build_config(h, p, m, d, s, k, t).unwrap();
    assert_eq!(c.host, "0.0.0.0");
    assert_eq!(c.port, 3000);
    assert_eq!(c.database_name, "accounts");
    assert_eq!(c.ttl_seconds, 3600);
}

#[test]
fn each_missing_setting_is_named() {
    let (_, p, m, d, s, k, t) = full();
    assert_eq!(
        build_config(None, p, m, d, s, k, t).err(),
        Some(ConfigError::MissingHost)
    );
    let (h, _, m, d, s, k, t) = full();
    assert_eq!(
        build_config(h, None, m, d, s, k, t).err(),
        Some(ConfigError::MissingPort)
    );
    let (h, p, _, d, s, k, t) = full();
    assert_eq!(
        build_config(h, p, None, d, s, k, t).err(),
        Some(ConfigError::MissingCredentialStoreUri)
    );
    let (h, p, m, _, s, k, t) = full();
    assert_eq!(
        build_config(h, p, m, None, s, k, t).err(),
        Some(ConfigError::MissingDatabaseName)
    );
    let (h, p, m, d, _, k, t) = full();
    assert_eq!(
        build_config(h, p, m, d, None, k, t).err(),
        Some(ConfigError::MissingSessionStoreUri)
    );
    let (h, p, m, d, s, _, t) = full();
    assert_eq!(
        build_config(h, p, m, d, s, None, t).err(),
        Some(ConfigError::MissingSigningKey)
    );
    let (h, p, m, d, s, k, _) = full();
    assert_eq!(
        build_config(h, p, m, d, s, k, None).err(),
        Some(ConfigError::MissingTokenTtl)
    );
}

#[test]
fn a_malformed_port_refuses_to_start() {
    let (h, _, m, d, s, k, t) = full();
    assert_eq!(
        build_config(h, Some(String::from("seventy")), m, d, s, k, t).err(),
        Some(ConfigError::BadPort)
    );
    let (h, _, m, d, s, k, t) = full();
    assert_eq!(
        build_config(h, Some(String::from("70000")), m, d, s, k, t).err(),
        Some(ConfigError::BadPort)
    );
}

#[test]
fn the_token_lifetime_must_be_a_positive_number() {
    let (h, p, m, d, s, k, _) = full();
    assert_eq!(
        build_config(h, p, m, d, s, k, Some(String::from("0"))).err(),
        Some(ConfigError::BadTokenTtl)
    );
    let (h, p, m, d, s, k, _) = full();
    assert_eq!(
        build_config(h, p, m, d, s, k, Some(String::from("soon"))).err(),
        Some(ConfigError::BadTokenTtl)
    );
    let (h, p, m, d, s, k, _) = full();
    let c = build_config(h, p, m, d, s, k, Some(String::from("0005"))).unwrap();
    assert_eq!(c.ttl_seconds, 5);
}
