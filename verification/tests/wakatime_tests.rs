use ini::Ini;
use timesplit::config::{wakatime_config_content, AppConfig};
use timesplit::wakatime::{read_wakatime_settings, sync_main_server_from_wakatime, wakatime_settings, SyncOutcome, WakatimeConfigError};

fn pair(u: &str, k: &str) -> Option<(String, String)> {
    Some((u.to_string(), k.to_string()))
}

#[test]
fn reads_url_and_key() {
    let text = "[settings]\napi_url = https://wakatime.com/api/v1\napi_key = abc-123\n";
    assert_eq!(read_wakatime_settings(text), Ok(pair("https://wakatime.com/api/v1", "abc-123")));
}

#[test]
fn reads_quoted_values_and_bom() {
    let text = "\u{feff}[settings]\napi_url = \"https://a.example\"\napi_key = \"k\"\n";
    assert_eq!(read_wakatime_settings(text), Ok(pair("https://a.example", "k")));
}

#[test]
fn reads_back_the_relay_configuration() {
    let text = wakatime_config_content("127.0.0.1:25893");
    assert_eq!(
        read_wakatime_settings(&text),
        Ok(pair("http://127.0.0.1:25893", "9542e1b0-59c3-4238-b51a-e4e4757038ad"))
    );
}

#[test]
fn missing_key_gives_nothing() {
    assert_eq!(read_wakatime_settings("[settings]\napi_url = https://a.example\n"), Ok(None));
}

#[test]
fn missing_section_is_an_error() {
    assert_eq!(read_wakatime_settings("[other]\napi_key = x\n"), Err(WakatimeConfigError::NoSettingsSection));
    assert_eq!(read_wakatime_settings(""), Err(WakatimeConfigError::NoSettingsSection));
}

#[test]
fn unparsable_text_is_an_error() {
    assert!(matches!(read_wakatime_settings("=value\n"), Err(WakatimeConfigError::Unparsable(_))));
}

#[test]
fn settings_from_built_document() {
    let mut doc = Ini::new();
    doc.with_section(Some("settings")).set("api_url", "https://u.example").set("api_key", "kk");
    assert_eq!(wakatime_settings(&doc), Ok(pair("https://u.example", "kk")));
    let empty = Ini::new();
    assert_eq!(wakatime_settings(&empty), Err(WakatimeConfigError::NoSettingsSection));
}

#[test]
fn sync_without_settings() {
    let mut config = AppConfig::default();
    assert_eq!(sync_main_server_from_wakatime(&mut config, None), SyncOutcome::NoLegacySettings);
    assert_eq!(config.servers[0].0, "https://example.com");
}

#[test]
fn sync_skips_the_relay_itself() {
    let mut config = AppConfig::default();
    assert_eq!(sync_main_server_from_wakatime(&mut config, pair("http://127.0.0.1:25893", "k")), SyncOutcome::AlreadyRelayed);
    assert_eq!(config.servers[0].0, "https://example.com");
}

#[test]
fn sync_skips_empty_values() {
    let mut config = AppConfig::default();
    assert_eq!(sync_main_server_from_wakatime(&mut config, pair("", "k")), SyncOutcome::EmptyLegacyValues);
    assert_eq!(sync_main_server_from_wakatime(&mut config, pair("https://a.example", "")), SyncOutcome::EmptyLegacyValues);
    assert_eq!(config.servers[0].0, "https://example.com");
}

#[test]
fn sync_replaces_main_server() {
    let mut config = AppConfig::default();
    config.servers.push(("https://b.example".to_string(), "b".to_string()));
    assert_eq!(sync_main_server_from_wakatime(&mut config, pair("https://wakatime.com/api/v1", "wk")), SyncOutcome::MainServerUpdated);
    assert_eq!(
        config.servers,
        vec![
            ("https://wakatime.com/api/v1".to_string(), "wk".to_string()),
            ("https://b.example".to_string(), "b".to_string()),
        ]
    );
}

#[test]
fn sync_fills_empty_list() {
    let mut config = AppConfig::default();
    config.servers.clear();
    assert_eq!(sync_main_server_from_wakatime(&mut config, pair("https://w.example", "k")), SyncOutcome::MainServerUpdated);
    assert_eq!(config.servers, vec![("https://w.example".to_string(), "k".to_string())]);
}

#[test]
fn parse_failure_reports_position() {
    match read_wakatime_settings("[settings]\n=value\n") {
        Err(WakatimeConfigError::Unparsable(failure)) => {
            assert_eq!(failure.line, 2);
            assert!(!failure.message.is_empty());
        }
        other => panic!("parse failure expected, got {:?}", other),
    }
}
