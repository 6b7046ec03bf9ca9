use timesplit::config::{add_server, remove_server, set_main_server, validate_startup, AppConfig, StartupError};
use axum::http::{HeaderMap, HeaderValue};
use timesplit::headers::get_modified_user_agent;
use timesplit::relay::{request, RequestMethod};
use timesplit::wakatime::sync_main_server_from_wakatime;

fn servers(config: &AppConfig) -> Vec<(String, String)> {
    config.servers.clone()
}

#[test]
fn remove_undoes_add_at_end() {
    let mut config = AppConfig::default();
    let before = servers(&config);
    add_server(&mut config, "https://x.example".to_string(), "k".to_string(), false).unwrap();
    remove_server(&mut config, before.len()).unwrap();
    assert_eq!(servers(&config), before);
}

#[test]
fn remove_undoes_add_as_main() {
    let mut config = AppConfig::default();
    let before = servers(&config);
    add_server(&mut config, "https://x.example".to_string(), "k".to_string(), true).unwrap();
    remove_server(&mut config, 0).unwrap();
    assert_eq!(servers(&config), before);
}

#[test]
fn set_main_keeps_the_servers() {
    let mut config = AppConfig::default();
    add_server(&mut config, "https://a.example".to_string(), "a".to_string(), false).unwrap();
    add_server(&mut config, "https://b.example".to_string(), "b".to_string(), false).unwrap();
    let mut before = servers(&config);
    set_main_server(&mut config, 2).unwrap();
    let mut after = servers(&config);
    assert_eq!(after[0].0, "https://b.example");
    before.sort();
    after.sort();
    assert_eq!(before, after);
}

#[test]
fn default_config_cannot_start() {
    assert_eq!(validate_startup(&AppConfig::default()), Err(StartupError::PlaceholderMainServer));
}

#[test]
fn added_main_server_can_start() {
    let mut config = AppConfig::default();
    add_server(&mut config, "https://wakatime.com/api/v1".to_string(), "k".to_string(), true).unwrap();
    assert_eq!(validate_startup(&config), Ok(()));
}

#[test]
fn hop_headers_never_forwarded() {
    let mut list = HeaderMap::new();
    for name in ["Host", "CONTENT-LENGTH", "authorization", "Content-Encoding", "x-keep"] {
        list.append(name, HeaderValue::from_static("v"));
    }
    list.append("x-keep", HeaderValue::from_static("w"));
    let r = request(RequestMethod::Get, "u", list, "ua", "k", false);
    assert_eq!(r.headers.len(), 2);
    let kept: Vec<&str> = r.headers.get_all("x-keep").iter().map(|v| v.to_str().unwrap()).collect();
    assert_eq!(kept, vec!["v", "w"]);
}

#[test]
fn user_agent_always_ends_with_product() {
    let mut list = HeaderMap::new();
    list.append("user-agent", HeaderValue::from_static("anything"));
    assert!(get_modified_user_agent(&list).ends_with(" timesplit/0.1.0"));
    assert!(get_modified_user_agent(&HeaderMap::new()).ends_with(" timesplit/0.1.0"));
}

#[test]
fn sync_twice_is_sync_once() {
    let mut config = AppConfig::default();
    let legacy = Some(("https://w.example".to_string(), "k".to_string()));
    sync_main_server_from_wakatime(&mut config, legacy.clone());
    let once = servers(&config);
    sync_main_server_from_wakatime(&mut config, legacy);
    assert_eq!(servers(&config), once);
}

use timesplit::config::mask_key;
use timesplit::relay::{heartbeat_step, HeartbeatAction, HeartbeatEvent, HeartbeatState};

fn final_answer(servers: usize, main: Option<u16>, clones: &[Option<u16>], json_read: bool) -> HeartbeatState {
    let mut state = heartbeat_step(servers, HeartbeatState::AwaitingMain, HeartbeatEvent::Replied(main)).0;
    for c in clones {
        state = heartbeat_step(servers, state, HeartbeatEvent::Replied(*c)).0;
    }
    heartbeat_step(servers, state, HeartbeatEvent::JsonRead(json_read)).0
}

#[test]
fn clone_replies_never_change_the_answer() {
    let a = final_answer(3, Some(202), &[Some(200), Some(201)], true);
    let b = final_answer(3, Some(202), &[None, Some(503)], true);
    assert_eq!(a, b);
    assert_eq!(a, HeartbeatState::Answered { status: 202 });
    let c = final_answer(3, Some(500), &[Some(200), Some(200)], true);
    let d = final_answer(3, Some(500), &[None, None], true);
    assert_eq!(c, d);
    assert_eq!(c, HeartbeatState::Answered { status: 500 });
    let _ = HeartbeatAction::Ignore;
}

#[test]
fn mask_shows_only_length_or_ends() {
    assert_eq!(mask_key("abcd"), mask_key("wxyz"));
    assert_eq!(mask_key("abcd-1111-wxyz"), mask_key("abcd-2-wxyz"));
    assert_ne!(mask_key("abcd-1111-wxyz"), mask_key("abce-1111-wxyz"));
}
