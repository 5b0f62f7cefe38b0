use beach::config::Config;

#[test]
fn test_default_config() {
    let config = Config::default();
    assert_eq!(config.session_server, "127.0.0.1:8080");
}

#[test]
fn test_config_from_env_default() {
    let config = Config::from_server_setting(None);
    assert_eq!(config.session_server, "127.0.0.1:8080");
}

#[test]
fn test_config_from_env_custom() {
    let config = Config::from_server_setting(Some("custom-server.example.com".to_string()));
    assert_eq!(config.session_server, "custom-server.example.com");
}

#[test]
fn localhost_is_rewritten_to_ipv4_loopback() {
    let config = Config::from_server_setting(Some("localhost:9000".to_string()));
    assert_eq!(config.session_server, "127.0.0.1:9000");
    assert_eq!(config.session_server_url(), "127.0.0.1:9000");
}

#[test]
fn localhost_without_port_is_kept() {
    let config = Config::from_server_setting(Some("localhost".to_string()));
    assert_eq!(config.session_server, "localhost");
}
