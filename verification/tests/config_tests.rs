use rdf_editor::config::Config;
use rdf_editor::config::ConfigError;
use rdf_editor::config::RawConfig;
use rdf_editor::config::derive_update_endpoint;
use rdf_editor::config::parse_bool;
use rdf_editor::config::split_origins;

fn raw_with_endpoint(endpoint: &str) -> RawConfig {
    RawConfig {
        sparql_endpoint: Some(endpoint.to_string()),
        sparql_update_endpoint: None,
        sparql_username: None,
        sparql_password: None,
        sparql_password_hashed: None,
        host: None,
        port: None,
        cors_enabled: None,
        max_payload_size: None,
        verify_ssl: None,
        timeout_seconds: None,
        max_retries: None,
        cache_enabled: None,
        cache_ttl_seconds: None,
        cache_max_entries: None,
        enable_auth: None,
        api_key: None,
        allowed_origins: None,
        graph_max_nodes: None,
        graph_max_edges: None,
        graph_expansion_limit: None,
        graph_search_limit: None,
    }
}

#[test]
fn test_default_config() {
    let config = Config::from_values(raw_with_endpoint("http://localhost:3030/ds/sparql"))
        .unwrap();

    assert_eq!(config.host, "127.0.0.1");
    assert_eq!(config.port, 8080);
    assert!(config.cors_enabled);
    assert_eq!(config.timeout_seconds, 30);
    assert!(config.cache_enabled);
    assert_eq!(config.graph_max_nodes, 500);
}

#[test]
fn test_stardog_update_endpoint_derivation() {
    let config = Config::from_values(raw_with_endpoint("http://localhost:5820/myDB/query"))
        .unwrap();

    assert_eq!(
        config.sparql_update_endpoint,
        Some("http://localhost:5820/myDB/update".to_string())
    );
}

#[test]
fn test_password_decoding() {
    let mut raw = raw_with_endpoint("http://test");
    raw.sparql_username = Some("user".to_string());
    raw.sparql_password_hashed = Some("cGFzc3dvcmQ=".to_string()); // "password" in base64

    let config = Config::from_values(raw).unwrap();

    assert_eq!(config.get_password(), Some("password".to_string()));
}

#[test]
fn test_allowed_origins_parsing() {
    let mut raw = raw_with_endpoint("http://test");
    raw.allowed_origins = Some(
        "http://localhost:3000, http://localhost:8080, https://example.com".to_string(),
    );

    let config = Config::from_values(raw).unwrap();

    assert_eq!(config.allowed_origins.len(), 3);
    assert!(config.is_origin_allowed("http://localhost:3000"));
    assert!(config.is_origin_allowed("https://example.com"));
    assert!(!config.is_origin_allowed("http://evil.com"));
}

#[test]
fn missing_endpoint_is_rejected() {
    let mut raw = raw_with_endpoint("x");
    raw.sparql_endpoint = None;
    assert!(matches!(
        Config::from_values(raw),
        Err(ConfigError::MissingEnvVar(_))
    ));
}

#[test]
fn username_without_password_is_rejected() {
    let mut raw = raw_with_endpoint("http://test");
    raw.sparql_username = Some("user".to_string());
    assert!(matches!(
        Config::from_values(raw),
        Err(ConfigError::MissingEnvVar(_))
    ));
}

#[test]
fn bad_port_is_rejected() {
    let mut raw = raw_with_endpoint("http://test");
    raw.port = Some("not-a-port".to_string());
    assert!(matches!(Config::from_values(raw), Err(ConfigError::InvalidPort(_))));

    let mut raw = raw_with_endpoint("http://test");
    raw.port = Some("70000".to_string());
    assert!(matches!(Config::from_values(raw), Err(ConfigError::InvalidPort(_))));
}

#[test]
fn bad_bool_and_number_are_rejected() {
    let mut raw = raw_with_endpoint("http://test");
    raw.cors_enabled = Some("yes".to_string());
    assert!(matches!(
        Config::from_values(raw),
        Err(ConfigError::InvalidBool(_, _))
    ));

    let mut raw = raw_with_endpoint("http://test");
    raw.timeout_seconds = Some("soon".to_string());
    assert!(matches!(
        Config::from_values(raw),
        Err(ConfigError::InvalidNumber(_, _))
    ));
}

#[test]
fn silent_fallbacks_apply() {
    let mut raw = raw_with_endpoint("http://test");
    raw.max_payload_size = Some("garbage".to_string());
    raw.max_retries = Some("also-garbage".to_string());
    raw.cache_ttl_seconds = Some("60".to_string());
    let config = Config::from_values(raw).unwrap();
    assert_eq!(config.max_payload_size, 10485760);
    assert_eq!(config.max_retries, 3);
    assert_eq!(config.cache_ttl_seconds, 60);
}

#[test]
fn update_endpoint_given_wins_over_derivation() {
    let mut raw = raw_with_endpoint("http://localhost:5820/myDB/query");
    raw.sparql_update_endpoint = Some("http://elsewhere/update".to_string());
    let config = Config::from_values(raw).unwrap();
    assert_eq!(
        config.sparql_update_endpoint,
        Some("http://elsewhere/update".to_string())
    );
    assert_eq!(config.get_update_endpoint(), "http://elsewhere/update");
}

#[test]
fn update_endpoint_falls_back_to_query_endpoint() {
    let config = Config::from_values(raw_with_endpoint("http://localhost:3030/ds/sparql"))
        .unwrap();
    assert_eq!(config.sparql_update_endpoint, None);
    assert_eq!(config.get_update_endpoint(), "http://localhost:3030/ds/sparql");
}

#[test]
fn derivation_strips_repeated_query_suffix() {
    assert_eq!(
        derive_update_endpoint("http://h/db/query"),
        Some("http://h/db/update".to_string())
    );
    assert_eq!(derive_update_endpoint("http://h/db/sparql"), None);
}

#[test]
fn parse_bool_accepts_exactly_true_and_false() {
    assert_eq!(parse_bool("true"), Some(true));
    assert_eq!(parse_bool("false"), Some(false));
    assert_eq!(parse_bool("True"), None);
    assert_eq!(parse_bool(""), None);
}

#[test]
fn split_origins_trims_and_drops_empties() {
    let origins = split_origins(" a ,, b ,");
    assert_eq!(origins, vec!["a".to_string(), "b".to_string()]);
    assert_eq!(split_origins("*"), vec!["*".to_string()]);
}

#[test]
fn api_key_validation() {
    let mut raw = raw_with_endpoint("http://test");
    raw.enable_auth = Some("true".to_string());
    raw.api_key = Some("SECRET-REDACTED".to_string());
    let config = Config::from_values(raw).unwrap();
    assert!(config.requires_auth());
    assert!(config.validate_api_key("SECRET-REDACTED"));
    assert!(!config.validate_api_key("wrong"));

    let open = Config::from_values(raw_with_endpoint("http://test")).unwrap();
    assert!(!open.requires_auth());
    assert!(open.validate_api_key("anything"));
}
