use std::path::PathBuf;

use dsh_shell::config::{load_config, DshConfig};
use dsh_shell::paths::{
    expand_path, home_env, node_resource_name, plain_text, resolve_resource,
    strip_verbatim_prefix, Platform,
};

fn sample() -> DshConfig {
    DshConfig {
        port: Some(4000),
        max_wait_ms: Some(5_000),
        poll_ms: Some(50),
        data_home: Some("~/data".to_string()),
    }
}

#[test]
fn defaults_are_those_of_the_documentation() {
    let config = DshConfig::default();
    assert_eq!(config.port(), 3090);
    assert_eq!(config.max_wait_ms(), 90_000);
    assert_eq!(config.poll_ms(), 800);
    assert_eq!(config.data_home(Platform::Other, Some("/home/u"), None), "/home/u/.dsh");
    assert_eq!(config.data_home(Platform::Windows, Some("C:\\u"), Some("A")), "C:\\u/.dsh");
    assert_eq!(config.data_home(Platform::Other, None, None), "~/.dsh");
}

#[test]
fn settings_override_the_defaults() {
    let config = sample();
    assert_eq!(config.port(), 4000);
    assert_eq!(config.max_wait_ms(), 5_000);
    assert_eq!(config.poll_ms(), 50);
    assert_eq!(config.data_home(Platform::Macos, Some("/Users/u"), None), "/Users/u/data");
}

#[test]
fn packaged_configuration_comes_first() {
    let other = DshConfig { port: Some(1), ..DshConfig::default() };
    assert_eq!(load_config(Some(sample()), Some(other.clone())).port(), 4000);
    assert_eq!(load_config(None, Some(other)).port(), 1);
    assert_eq!(load_config(None, None).port(), 3090);
}

#[test]
fn home_comes_from_the_variable_of_the_system() {
    let text = |text: &str| Some(text.to_string());
    assert_eq!(home_env(Platform::Windows, text("/u"), text("/h")), text("/u"));
    assert_eq!(home_env(Platform::Windows, None, text("/h")), None);
    assert_eq!(home_env(Platform::Macos, text("/u"), text("/h")), text("/h"));
    assert_eq!(home_env(Platform::Other, text("/u"), text("/h")), text("/h"));
    assert_eq!(home_env(Platform::Other, text("/u"), None), None);
}

#[test]
fn templates_are_expanded() {
    let (h, a) = (Some("H"), Some("A"));
    assert_eq!(expand_path("~/x~", Platform::Other, Some("/h"), a), "/h/x/h");
    assert_eq!(expand_path("%APPDATA%/x", Platform::Other, Some("/h"), a), "%APPDATA%/x");
    assert_eq!(expand_path("%APPDATA%/%APPDATA%/~", Platform::Windows, h, a), "A/A/H");
    assert_eq!(expand_path("%APPDATA", Platform::Windows, h, a), "%APPDATA");
    assert_eq!(expand_path("%%APPDATA%%", Platform::Windows, h, a), "%A%");
    assert_eq!(expand_path("/plain", Platform::Windows, h, a), "/plain");
}

#[test]
fn unknown_directories_are_left_as_written() {
    assert_eq!(expand_path("~/.dsh", Platform::Other, None, None), "~/.dsh");
    assert_eq!(expand_path("~/.dsh", Platform::Windows, None, Some("A")), "~/.dsh");
    assert_eq!(expand_path("~/%APPDATA%", Platform::Windows, Some("H"), None), "H/%APPDATA%");
    assert_eq!(expand_path("~/%APPDATA%", Platform::Windows, None, Some("A")), "~/A");
}

#[test]
fn verbatim_prefixes_are_removed() {
    let strip = |text: &str| strip_verbatim_prefix(PathBuf::from(text));
    assert_eq!(strip("\\\\?\\C:\\app"), PathBuf::from("C:\\app"));
    assert_eq!(strip("\\\\?\\UNC\\server\\share"), PathBuf::from("\\\\server\\share"));
    for path in ["C:\\app", "/opt/app", "\\\\?", "\\\\server\\share", "/a\\\\?\\b", ""] {
        assert_eq!(strip(path), PathBuf::from(path));
        assert_eq!(plain_text(path), None);
    }
    assert_eq!(plain_text("\\\\?\\C:").as_deref(), Some("C:"));
    assert_eq!(plain_text("\\\\?\\UNC\\s").as_deref(), Some("\\\\s"));
}

#[test]
fn packaged_resource_comes_first() {
    let path = |text: &str| Some(PathBuf::from(text));
    assert_eq!(
        resolve_resource("r", path("\\\\?\\C:\\r"), path("dev")),
        Ok(PathBuf::from("C:\\r"))
    );
    assert_eq!(resolve_resource("r", None, path("dev")), Ok(PathBuf::from("dev")));
    assert_eq!(
        resolve_resource("vendor/dsh", None, None),
        Err("找不到资源 vendor/dsh（resource_dir 与本工程 resources/ 均不存在，请先运行 build-runtime 装配运行时）".to_string())
    );
}

#[test]
fn node_has_an_extension_on_windows_only() {
    assert_eq!(node_resource_name(Platform::Windows), "node/node.exe");
    assert_eq!(node_resource_name(Platform::Macos), "node/node");
    assert_eq!(node_resource_name(Platform::Other), "node/node");
}
