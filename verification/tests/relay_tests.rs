use axum::http::{HeaderMap, HeaderValue};
use timesplit::headers::{copy_headers, get_modified_user_agent, remove_header, NAME, VERSION};
use timesplit::relay::{
    authorization_for_key, basic_authorization, clone_server_url, get_formatted_url, heartbeat_requests,
    is_success, main_reply_step, relayed_status, request, statusbar_request, Endpoint, ReplyStep, RequestMethod,
    RequestUri,
};

fn headers(pairs: &[(&'static str, &[u8])]) -> HeaderMap {
    let mut map = HeaderMap::new();
    for (name, value) in pairs {
        map.append(*name, HeaderValue::from_bytes(value).unwrap());
    }
    map
}

fn names(map: &HeaderMap) -> Vec<String> {
    let mut names: Vec<String> = map.keys().map(|k| k.as_str().to_string()).collect();
    names.sort();
    names
}

fn uri(path: &str, query: Option<&str>) -> RequestUri {
    RequestUri { path: path.to_string(), query: query.map(|q| q.to_string()) }
}

#[test]
fn product_constants() {
    assert_eq!(NAME, "timesplit");
    assert_eq!(VERSION, "0.1.0");
}

#[test]
fn header_remove_and_copy() {
    let mut map = headers(&[("host", b"a"), ("x-one", b"1"), ("Host", b"b"), ("x-two", b"2")]);
    remove_header(&mut map, "HOST");
    assert_eq!(names(&map), vec!["x-one", "x-two"]);
    let copy = copy_headers(&map);
    assert_eq!(copy, map);
}

#[test]
fn user_agent_from_client() {
    let list = headers(&[("user-agent", b"wakatime/v1.98 vscode/1.90")]);
    assert_eq!(get_modified_user_agent(&list), "wakatime/v1.98 vscode/1.90 timesplit/0.1.0");
}

#[test]
fn user_agent_unknown() {
    assert_eq!(get_modified_user_agent(&HeaderMap::new()), "Unknown timesplit/0.1.0");
    let list = headers(&[("user-agent", b"caf\xc3\xa9")]);
    assert_eq!(get_modified_user_agent(&list), "Unknown timesplit/0.1.0");
}

#[test]
fn user_agent_first_value_counts() {
    let list = headers(&[("User-Agent", b"first"), ("user-agent", b"second")]);
    assert_eq!(get_modified_user_agent(&list), "first timesplit/0.1.0");
}

#[test]
fn formatted_urls() {
    assert_eq!(
        get_formatted_url(&uri("/statusbar/today", Some("a=1&b=2")), "https://hackatime.example/api/hackatime/v1"),
        "https://hackatime.example/api/hackatime/v1/users/current/statusbar/today?a=1&b=2"
    );
    assert_eq!(
        get_formatted_url(&uri("/heartbeats", None), "https://wakatime.com/api/v1"),
        "https://wakatime.com/api/v1/users/current/heartbeats"
    );
    assert_eq!(clone_server_url("https://b.example", "/heartbeats.bulk"), "https://b.example/users/current/heartbeats.bulk");
}

#[test]
fn authorization_values() {
    assert_eq!(authorization_for_key("key"), "Basic a2V5");
    assert_eq!(authorization_for_key("ab"), "Basic YWI=");
    assert_eq!(authorization_for_key(""), "Basic ");
    assert_eq!(authorization_for_key("39949664-5a5f-4c7d-95b2-44a864f67b6a"), "Basic Mzk5NDk2NjQtNWE1Zi00YzdkLTk1YjItNDRhODY0ZjY3YjZh");
    assert_eq!(basic_authorization("Zm9v"), "Basic Zm9v");
}

#[test]
fn request_drops_hop_headers() {
    let list = headers(&[
        ("content-type", b"application/json"),
        ("host", b"localhost:25893"),
        ("Authorization", b"Basic old"),
        ("content-length", b"12"),
        ("accept", b"*/*"),
        ("content-encoding", b"gzip"),
    ]);
    let r = request(RequestMethod::Post, "https://s.example/x", list, "ua", "key", true);
    assert_eq!(r.method, RequestMethod::Post);
    assert_eq!(r.url, "https://s.example/x");
    assert_eq!(names(&r.headers), vec!["accept", "content-type"]);
    assert_eq!(r.user_agent, "ua");
    assert_eq!(r.authorization, "Basic a2V5");
    assert!(r.json_body);
}

fn servers() -> Vec<(String, String)> {
    vec![
        ("https://main.example/api".to_string(), "key".to_string()),
        ("https://b.example".to_string(), "ab".to_string()),
    ]
}

#[test]
fn statusbar_goes_to_main_server() {
    let list = headers(&[("user-agent", b"agent"), ("host", b"h")]);
    let r = statusbar_request(&servers(), &list, &uri("/statusbar/today", Some("x=1")));
    assert_eq!(r.method, RequestMethod::Get);
    assert_eq!(r.url, "https://main.example/api/users/current/statusbar/today?x=1");
    assert_eq!(names(&r.headers), vec!["user-agent"]);
    assert_eq!(r.user_agent, "agent timesplit/0.1.0");
    assert_eq!(r.authorization, "Basic a2V5");
    assert!(!r.json_body);
}

#[test]
fn heartbeats_go_to_every_server() {
    let list = headers(&[("user-agent", b"agent")]);
    let rs = heartbeat_requests(&servers(), &list, &uri("/heartbeats.bulk", Some("q=1")));
    assert_eq!(rs.len(), 2);
    assert_eq!(rs[0].url, "https://main.example/api/users/current/heartbeats.bulk?q=1");
    assert_eq!(rs[0].authorization, "Basic a2V5");
    assert_eq!(rs[1].url, "https://b.example/users/current/heartbeats.bulk");
    assert_eq!(rs[1].authorization, "Basic YWI=");
    for r in &rs {
        assert_eq!(r.method, RequestMethod::Post);
        assert!(r.json_body);
        assert_eq!(r.user_agent, "agent timesplit/0.1.0");
    }
}

#[test]
fn reply_steps() {
    assert_eq!(main_reply_step(None), ReplyStep::InternalError);
    assert_eq!(main_reply_step(Some(404)), ReplyStep::ReportBodyThenInternalError);
    assert_eq!(main_reply_step(Some(199)), ReplyStep::ReportBodyThenInternalError);
    assert_eq!(main_reply_step(Some(300)), ReplyStep::ReportBodyThenInternalError);
    assert_eq!(main_reply_step(Some(200)), ReplyStep::ReadJson);
    assert_eq!(main_reply_step(Some(202)), ReplyStep::ReadJson);
    assert!(is_success(299));
    assert!(!is_success(500));
}

#[test]
fn relayed_statuses() {
    assert_eq!(relayed_status(Endpoint::StatusBar, 201, true), 200);
    assert_eq!(relayed_status(Endpoint::Heartbeats, 201, true), 201);
    assert_eq!(relayed_status(Endpoint::Heartbeats, 201, false), 500);
    assert_eq!(relayed_status(Endpoint::StatusBar, 200, false), 500);
}

use timesplit::relay::{heartbeat_step, HeartbeatAction, HeartbeatEvent, HeartbeatState};

fn relay_heartbeat(servers: usize, main: Option<u16>, clones: &[Option<u16>], json_read: bool) -> Vec<HeartbeatAction> {
    let mut actions = Vec::new();
    let (mut state, mut action) = heartbeat_step(servers, HeartbeatState::AwaitingMain, HeartbeatEvent::Replied(main));
    actions.push(action);
    let mut replies = clones.iter();
    loop {
        let event = match action {
            HeartbeatAction::SendClone(_) => HeartbeatEvent::Replied(*replies.next().unwrap()),
            HeartbeatAction::ReadJson => HeartbeatEvent::JsonRead(json_read),
            _ => break,
        };
        let next = heartbeat_step(servers, state, event);
        state = next.0;
        action = next.1;
        actions.push(action);
    }
    actions
}

#[test]
fn heartbeat_steps_through_clones() {
    assert_eq!(
        relay_heartbeat(3, Some(201), &[Some(200), None], true),
        vec![HeartbeatAction::SendClone(1), HeartbeatAction::SendClone(2), HeartbeatAction::ReadJson, HeartbeatAction::Answer(201)]
    );
    assert_eq!(relay_heartbeat(1, None, &[], true), vec![HeartbeatAction::Answer(500)]);
    assert_eq!(relay_heartbeat(1, Some(404), &[], true), vec![HeartbeatAction::ReportBodyThenAnswer(500)]);
    assert_eq!(relay_heartbeat(2, Some(200), &[Some(200)], false), vec![HeartbeatAction::SendClone(1), HeartbeatAction::ReadJson, HeartbeatAction::Answer(500)]);
}

#[test]
fn heartbeat_ignores_unexpected_events() {
    let state = HeartbeatState::Answered { status: 200 };
    assert_eq!(heartbeat_step(2, state, HeartbeatEvent::JsonRead(true)), (state, HeartbeatAction::Ignore));
}

#[test]
fn authorization_for_two_bytes() {
    assert_eq!(authorization_for_key("k0"), "Basic azA=");
}
