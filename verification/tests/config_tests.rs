use timesplit::config::{
    add_server, change_config, list_servers, mask_key, remove_server, set_main_server, timesplit_host_url,
    validate_server_index, validate_startup, wakatime_config_content, AppConfig, ConfigCommand, ConfigEffect,
    ConfigError, ServerOperation, StartupError,
};

fn config_with(servers: &[(&str, &str)]) -> AppConfig {
    AppConfig {
        host: "127.0.0.1:25893".to_string(),
        timeout: 10,
        servers: servers.iter().map(|(u, k)| (u.to_string(), k.to_string())).collect(),
    }
}

fn urls(config: &AppConfig) -> Vec<&str> {
    config.servers.iter().map(|(u, _)| u.as_str()).collect()
}

#[test]
fn default_config_values() {
    let config = AppConfig::default();
    assert_eq!(config.host, "127.0.0.1:25893");
    assert_eq!(config.timeout, 10);
    assert_eq!(config.servers, vec![("https://example.com".to_string(), "key_goes_here".to_string())]);
}

#[test]
fn add_server_appends_trimmed_url() {
    let mut config = config_with(&[("https://main.example", "k0")]);
    let stored = add_server(&mut config, "  https://clone.example \n".to_string(), "k1".to_string(), false);
    assert_eq!(stored, Ok("https://clone.example".to_string()));
    assert_eq!(urls(&config), vec!["https://main.example", "https://clone.example"]);
    assert_eq!(config.servers[1].1, "k1");
}

#[test]
fn add_server_as_main_goes_first() {
    let mut config = config_with(&[("https://main.example", "k0")]);
    let stored = add_server(&mut config, "https://new.example".to_string(), " k1 ".to_string(), true);
    assert_eq!(stored, Ok("https://new.example".to_string()));
    assert_eq!(urls(&config), vec!["https://new.example", "https://main.example"]);
    assert_eq!(config.servers[0].1, " k1 ");
}

#[test]
fn add_server_trims_unicode_whitespace() {
    let mut config = config_with(&[]);
    let stored = add_server(&mut config, "\u{3000}https://a.example\u{a0}".to_string(), "k".to_string(), false);
    assert_eq!(stored, Ok("https://a.example".to_string()));
}

#[test]
fn add_server_refuses_empty_url() {
    let mut config = config_with(&[("https://main.example", "k0")]);
    assert_eq!(add_server(&mut config, " \t ".to_string(), "k".to_string(), false), Err(ConfigError::EmptyUrl));
    assert_eq!(urls(&config), vec!["https://main.example"]);
}

#[test]
fn add_server_refuses_empty_key() {
    let mut config = config_with(&[("https://main.example", "k0")]);
    assert_eq!(add_server(&mut config, "https://x.example".to_string(), "  ".to_string(), true), Err(ConfigError::EmptyKey));
    assert_eq!(config.servers.len(), 1);
}

#[test]
fn validate_index_errors() {
    let empty = config_with(&[]);
    assert_eq!(validate_server_index(&empty, 0, ServerOperation::Remove), Err(ConfigError::NoServers(ServerOperation::Remove)));
    let one = config_with(&[("a", "b")]);
    assert_eq!(validate_server_index(&one, 1, ServerOperation::SetMain), Err(ConfigError::IndexOutOfRange(1)));
    assert_eq!(validate_server_index(&one, 0, ServerOperation::SetMain), Ok(()));
}

#[test]
fn remove_server_removes_and_returns() {
    let mut config = config_with(&[("a", "1"), ("b", "2"), ("c", "3")]);
    assert_eq!(remove_server(&mut config, 1), Ok(("b".to_string(), "2".to_string())));
    assert_eq!(urls(&config), vec!["a", "c"]);
}

#[test]
fn remove_server_errors() {
    let mut empty = config_with(&[]);
    assert_eq!(remove_server(&mut empty, 0), Err(ConfigError::NoServers(ServerOperation::Remove)));
    let mut two = config_with(&[("a", "1"), ("b", "2")]);
    assert_eq!(remove_server(&mut two, 5), Err(ConfigError::IndexOutOfRange(5)));
    let mut one = config_with(&[("a", "1")]);
    assert_eq!(remove_server(&mut one, 0), Err(ConfigError::LastServer));
    assert_eq!(urls(&one), vec!["a"]);
}

#[test]
fn set_main_server_moves_to_front() {
    let mut config = config_with(&[("a", "1"), ("b", "2"), ("c", "3")]);
    assert_eq!(set_main_server(&mut config, 2), Ok(true));
    assert_eq!(urls(&config), vec!["c", "a", "b"]);
    assert_eq!(config.servers[0].1, "3");
}

#[test]
fn set_main_server_already_main() {
    let mut config = config_with(&[("a", "1"), ("b", "2")]);
    assert_eq!(set_main_server(&mut config, 0), Ok(false));
    assert_eq!(urls(&config), vec!["a", "b"]);
}

#[test]
fn set_main_server_errors() {
    let mut empty = config_with(&[]);
    assert_eq!(set_main_server(&mut empty, 0), Err(ConfigError::NoServers(ServerOperation::SetMain)));
    let mut one = config_with(&[("a", "1")]);
    assert_eq!(set_main_server(&mut one, 3), Err(ConfigError::IndexOutOfRange(3)));
}

#[test]
fn mask_short_keys() {
    assert_eq!(mask_key(""), "");
    assert_eq!(mask_key("abc"), "***");
    assert_eq!(mask_key("12345678"), "********");
    assert_eq!(mask_key("héllo"), "******");
}

#[test]
fn mask_long_keys() {
    assert_eq!(mask_key("key_goes_here"), "key_...here");
    assert_eq!(mask_key("123456789"), "1234...6789");
    assert_eq!(mask_key("ééééé"), "éé...éé");
}

#[test]
fn list_no_servers() {
    assert_eq!(list_servers(&config_with(&[])), vec!["No servers configured.".to_string()]);
}

#[test]
fn list_marks_main_and_masks_keys() {
    let config = config_with(&[("https://main.example", "secret-key-1234"), ("https://b.example", "abc")]);
    assert_eq!(
        list_servers(&config),
        vec![
            "Configured servers:".to_string(),
            "0: https://main.example (main) [key secr...1234]".to_string(),
            "1: https://b.example [key ***]".to_string(),
        ]
    );
}

#[test]
fn change_config_list_leaves_config() {
    let mut config = AppConfig::default();
    match change_config(&mut config, ConfigCommand::List) {
        Ok(ConfigEffect::Listed(lines)) => assert_eq!(
            lines,
            vec!["Configured servers:".to_string(), "0: https://example.com (main) [key key_...here]".to_string()]
        ),
        _ => panic!("listing expected"),
    }
    assert_eq!(config.servers.len(), 1);
}

#[test]
fn change_config_add_remove_main() {
    let mut config = AppConfig::default();
    match change_config(&mut config, ConfigCommand::Add { url: " https://w.example ".to_string(), key: "k".to_string(), main: true }) {
        Ok(ConfigEffect::Added(url)) => assert_eq!(url, "https://w.example"),
        _ => panic!("addition expected"),
    }
    assert_eq!(urls(&config), vec!["https://w.example", "https://example.com"]);
    match change_config(&mut config, ConfigCommand::Main { index: 1 }) {
        Ok(ConfigEffect::MainSet(moved)) => assert!(moved),
        _ => panic!("main change expected"),
    }
    assert_eq!(urls(&config), vec!["https://example.com", "https://w.example"]);
    match change_config(&mut config, ConfigCommand::Remove { index: 0 }) {
        Ok(ConfigEffect::Removed((url, key))) => {
            assert_eq!(url, "https://example.com");
            assert_eq!(key, "key_goes_here");
        }
        _ => panic!("removal expected"),
    }
    assert_eq!(urls(&config), vec!["https://w.example"]);
    assert!(matches!(change_config(&mut config, ConfigCommand::Remove { index: 0 }), Err(ConfigError::LastServer)));
    assert!(matches!(
        change_config(&mut config, ConfigCommand::Add { url: "".to_string(), key: "k".to_string(), main: false }),
        Err(ConfigError::EmptyUrl)
    ));
}

#[test]
fn startup_refuses_default_and_empty() {
    assert_eq!(validate_startup(&AppConfig::default()), Err(StartupError::PlaceholderMainServer));
    assert_eq!(validate_startup(&config_with(&[])), Err(StartupError::NoServers));
    assert_eq!(validate_startup(&config_with(&[("https://wakatime.com/api/v1", "k")])), Ok(()));
    assert_eq!(validate_startup(&config_with(&[("https://wakatime.com/api/v1", "k"), ("https://example.com", "k")])), Ok(()));
}

#[test]
fn host_url_and_wakatime_content() {
    assert_eq!(timesplit_host_url("127.0.0.1:25893"), "http://127.0.0.1:25893");
    assert_eq!(
        wakatime_config_content("127.0.0.1:25893"),
        "[settings]\napi_url = \"http://127.0.0.1:25893\"\napi_key = \"9542e1b0-59c3-4238-b51a-e4e4757038ad\"\nheartbeat_rate_limit_seconds = 30\n"
    );
}

use timesplit::config::list_servers_before;

#[test]
fn listing_before_a_server() {
    let config = config_with(&[("https://a.example", "abc"), ("https://b.example", "x")]);
    assert_eq!(list_servers_before(&config, 0), vec!["Configured servers:".to_string()]);
    assert_eq!(
        list_servers_before(&config, 1),
        vec!["Configured servers:".to_string(), "0: https://a.example (main) [key ***]".to_string()]
    );
}
