//! Tests for the source descriptors: environment, file, and remote.

use hotswap_config::sources::env::EnvSource;
use hotswap_config::sources::file::FileSource;
use hotswap_config::sources::remote::HttpSource;

#[test]
fn test_env_source_creation() {
    let source = EnvSource::new("APP", "__");
    assert_eq!(source.prefix, "APP");
    assert_eq!(source.separator, "__");
    assert_eq!(source.priority(), 300);
}

#[test]
fn env_test_with_priority() {
    let source = EnvSource::new("APP", "__").with_priority(400);
    assert_eq!(source.priority(), 400);
}

#[test]
fn env_test_name() {
    let source = EnvSource::new("APP", "__");
    assert_eq!(source.name(), "env:APP*");
}

#[test]
fn test_validate_extension_yaml() {
    let source = FileSource::new("config.yaml");
    assert!(source.validate_extension().is_ok());

    let source = FileSource::new("config.yml");
    assert!(source.validate_extension().is_ok());
}

#[test]
fn test_validate_extension_toml() {
    let source = FileSource::new("config.toml");
    assert!(source.validate_extension().is_ok());
}

#[test]
fn test_validate_extension_json() {
    let source = FileSource::new("config.json");
    assert!(source.validate_extension().is_ok());
}

#[test]
fn test_validate_extension_unknown() {
    let source = FileSource::new("config.txt");
    assert!(source.validate_extension().is_err());
}

#[test]
fn test_validate_extension_nested_path() {
    let source = FileSource::new("config/production.yaml");
    assert!(source.validate_extension().is_ok());
}

#[test]
fn test_validate_extension_hidden_file() {
    let source = FileSource::new(".yaml");
    assert!(source.validate_extension().is_err());
}

#[test]
fn test_validate_extension_no_extension() {
    let source = FileSource::new("config");
    assert!(source.validate_extension().is_err());
}

#[test]
fn file_test_with_priority() {
    let source = FileSource::new("config.yaml").with_priority(200);
    assert_eq!(source.priority(), 200);
}

#[test]
fn file_test_name() {
    let source = FileSource::new("config.yaml");
    assert!(source.name().contains("config.yaml"));
}

#[test]
fn test_builder() {
    let builder = HttpSource::builder()
        .with_url("https://example.com/config")
        .with_auth_token("token123")
        .with_timeout(5000)
        .with_priority(200);

    let source = builder.build();
    assert!(source.is_ok());

    let source = source.unwrap();
    assert_eq!(source.url, "https://example.com/config");
    assert_eq!(source.priority(), 200);
}

#[test]
fn test_builder_no_url() {
    let builder = HttpSource::builder();
    let source = builder.build();
    assert!(source.is_err());
}

#[test]
fn test_builder_with_basic_auth() {
    let source = HttpSource::builder()
        .with_url("https://example.com/config")
        .with_basic_auth("user", "pass")
        .build();

    assert!(source.is_ok());
}
