use agent_collaboration::LoggingConfig;

#[test]
fn test_default_config() {
    let config = LoggingConfig::default();
    assert!(config.with_ansi);
    assert!(config.with_target);
}

#[test]
fn test_config_builder() {
    let config = LoggingConfig::new()
        .with_filter("debug")
        .without_ansi()
        .without_target();
    assert!(!config.with_ansi);
    assert!(!config.with_target);
}

#[test]
fn default_filter_is_info_with_crate_debug() {
    let config = LoggingConfig::new();
    assert_eq!(config.env_filter, "info,agent_collaboration=debug");
    assert!(!config.with_thread_ids);
    assert_eq!(LoggingConfig::new().with_filter("warn").env_filter, "warn");
}
