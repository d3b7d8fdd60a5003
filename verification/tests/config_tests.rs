//! Configurations from environment variables.

use html_to_pdf_rust::config::{Config, ConfigError, EnvVars};

fn unset() -> EnvVars {
    EnvVars {
        port: None,
        chrome_path: None,
        rust_log: None,
        allowed_origins: None,
        max_pdf_size_mb: None,
        request_timeout_seconds: None,
        browser_pool_min: None,
        browser_pool_max: None,
    }
}

fn some(s: &str) -> Option<String> {
    Some(s.to_string())
}

fn port_error(port: &str) -> String {
    match Config::from_env(&EnvVars { port: some(port), ..unset() }) {
        Ok(_) => panic!("accepted"),
        Err(ConfigError::InvalidPort(e)) => e,
    }
}

#[test]
fn an_empty_environment_gives_the_defaults() {
    let config = Config::from_env(&unset()).unwrap();
    assert_eq!(config.port, 5000);
    assert_eq!(config.chrome_path, None);
    assert_eq!(config.rust_log, "info");
    assert_eq!(config.allowed_origins, vec!["*"]);
    assert_eq!(config.max_pdf_size_mb, 10);
    assert_eq!(config.request_timeout_seconds, 30);
    assert_eq!(config.browser_pool_min, 2);
    assert_eq!(config.browser_pool_max, 5);
    assert!(config.allows_any_origin());
    assert_eq!(config.listen_address(), "0.0.0.0:5000");
}

#[test]
fn every_variable_is_taken() {
    let config = Config::from_env(&EnvVars {
        port: some("8080"),
        chrome_path: some("/opt/chrome"),
        rust_log: some("debug"),
        allowed_origins: some("https://a.example , https://b.example,"),
        max_pdf_size_mb: some("0"),
        request_timeout_seconds: some("+7"),
        browser_pool_min: some("3"),
        browser_pool_max: some("9"),
    })
    .unwrap();
    assert_eq!(config.port, 8080);
    assert_eq!(config.chrome_path.as_deref(), Some("/opt/chrome"));
    assert_eq!(config.rust_log, "debug");
    assert_eq!(config.allowed_origins, vec!["https://a.example", "https://b.example", ""]);
    assert_eq!(config.max_pdf_size_mb, 0);
    assert_eq!(config.request_timeout_seconds, 7);
    assert_eq!(config.browser_pool_min, 3);
    assert_eq!(config.browser_pool_max, 9);
    assert!(!config.allows_any_origin());
}

#[test]
fn a_port_that_is_no_number_is_reported_as_it_is() {
    assert_eq!(port_error("abc"), "abc");
    assert_eq!(port_error(""), "");
    assert_eq!(port_error("65536"), "65536");
    assert_eq!(port_error("-1"), "-1");
    assert_eq!(
        ConfigError::InvalidPort("abc".to_string()).message(),
        "Invalid port number: abc"
    );
}

#[test]
fn a_reserved_port_is_refused() {
    assert_eq!(port_error("80"), "Port 80 is in reserved range. Use port >= 1024");
    assert_eq!(port_error("1023"), "Port 1023 is in reserved range. Use port >= 1024");
}

#[test]
fn the_bounds_of_the_free_ports_are_accepted() {
    for (text, port) in [("0", 0), ("1024", 1024), ("65535", 65535)] {
        let config = Config::from_env(&EnvVars { port: some(text), ..unset() }).unwrap();
        assert_eq!(config.port, port);
    }
}

#[test]
fn a_number_that_does_not_parse_falls_back_to_its_default() {
    let config = Config::from_env(&EnvVars {
        max_pdf_size_mb: some("ten"),
        request_timeout_seconds: some("-1"),
        browser_pool_min: some(" 4"),
        browser_pool_max: some(""),
        ..unset()
    })
    .unwrap();
    assert_eq!(config.max_pdf_size_mb, 10);
    assert_eq!(config.request_timeout_seconds, 30);
    assert_eq!(config.browser_pool_min, 2);
    assert_eq!(config.browser_pool_max, 5);
}

#[test]
fn the_pool_keeps_one_browser_and_may_hold_what_it_keeps() {
    let config = Config::from_env(&EnvVars { browser_pool_min: some("0"), ..unset() }).unwrap();
    assert_eq!(config.browser_pool_min, 1);
    let config = Config::from_env(&EnvVars {
        browser_pool_min: some("8"),
        browser_pool_max: some("3"),
        ..unset()
    })
    .unwrap();
    assert_eq!((config.browser_pool_min, config.browser_pool_max), (8, 8));
    let config = Config::from_env(&EnvVars { browser_pool_min: some("8"), ..unset() }).unwrap();
    assert_eq!((config.browser_pool_min, config.browser_pool_max), (8, 8));
}

#[test]
fn the_wildcard_may_stand_among_other_origins() {
    let config =
        Config::from_env(&EnvVars { allowed_origins: some("https://a.example, * "), ..unset() })
            .unwrap();
    assert!(config.allows_any_origin());
}
