use log_inspector::config::{Config, ConfigError, ConfigSource, LoadStep, SourceReading};

fn settings(api_key: Option<&str>, host: Option<&str>) -> SourceReading {
    SourceReading::Settings {
        api_key: api_key.map(|s| s.to_string()),
        host: host.map(|s| s.to_string()),
    }
}

fn config(api_key: &str, host: &str) -> Config {
    Config { openai_api_key: api_key.to_string(), openai_host: host.to_string() }
}

#[test]
fn search_starts_at_the_environment() {
    assert_eq!(Config::first_source(), ConfigSource::Environment);
}

#[test]
fn key_and_host_settle_the_search_anywhere() {
    for source in [ConfigSource::Environment, ConfigSource::UserFile, ConfigSource::LocalFile] {
        assert_eq!(
            Config::decide(source, settings(Some("sk-test"), Some("https://example.test"))),
            LoadStep::Use(config("sk-test", "https://example.test"))
        );
    }
}

#[test]
fn incomplete_environment_leads_to_the_user_file() {
    for reading in [
        settings(None, None),
        settings(Some("sk-test"), None),
        settings(None, Some("https://example.test")),
        SourceReading::NoFile,
        SourceReading::NoHomeDirectory,
        SourceReading::Unreadable { reason: "odd".to_string() },
    ] {
        assert_eq!(
            Config::decide(ConfigSource::Environment, reading),
            LoadStep::Consult(ConfigSource::UserFile)
        );
    }
}

#[test]
fn user_file_readings() {
    assert_eq!(
        Config::decide(ConfigSource::UserFile, SourceReading::NoHomeDirectory),
        LoadStep::Fail(ConfigError::NoHomeDirectory)
    );
    assert_eq!(
        Config::decide(ConfigSource::UserFile, SourceReading::Unreadable { reason: "line 3".to_string() }),
        LoadStep::Fail(ConfigError::UnreadableFile { reason: "line 3".to_string() })
    );
    for reading in [
        SourceReading::NoFile,
        settings(None, None),
        settings(Some("sk-test"), None),
        settings(None, Some("https://example.test")),
    ] {
        assert_eq!(
            Config::decide(ConfigSource::UserFile, reading),
            LoadStep::Consult(ConfigSource::LocalFile)
        );
    }
}

#[test]
fn local_file_needs_the_key_only() {
    assert_eq!(
        Config::decide(ConfigSource::LocalFile, settings(Some("sk-test"), None)),
        LoadStep::Use(config("sk-test", "https://api.openai.com"))
    );
    for reading in [
        settings(None, None),
        settings(None, Some("https://example.test")),
        SourceReading::NoFile,
        SourceReading::NoHomeDirectory,
        SourceReading::Unreadable { reason: "odd".to_string() },
    ] {
        assert_eq!(
            Config::decide(ConfigSource::LocalFile, reading),
            LoadStep::Fail(ConfigError::NotFound)
        );
    }
}

#[test]
fn names_and_messages() {
    assert_eq!(Config::default_host(), "https://api.openai.com");
    assert_eq!(Config::user_file_name(), ".log-inspector.cnf");
    assert_eq!(ConfigError::NoHomeDirectory.message(), "Could not find home directory");
    assert_eq!(
        ConfigError::NotFound.message(),
        "No configuration found. Please set environment variables, create ~/.log-inspector.cnf, or provide .env file"
    );
    assert_eq!(ConfigError::UnreadableFile { reason: "line 3".to_string() }.message(), "line 3");
}
