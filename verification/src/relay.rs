use vstd::prelude::*;
use vstd::utf8::*;
use base64::Engine;
use crate::config::server_view;
use axum::http::HeaderMap;
use crate::headers::{copy_headers, get_modified_user_agent, header_map_contents, is_plain_header_name, lower_text, modified_user_agent, remove_header};

verus! {

/// The target of a request that reached the relay: its path and its query,
/// if it has one.
pub struct RequestUri {
    pub path: String,
    pub query: Option<String>,
}

impl View for RequestUri {
    type V = (Seq<char>, Option<Seq<char>>);

    open spec fn view(&self) -> (Seq<char>, Option<Seq<char>>) {
        (self.path@, match self.query {
            Some(q) => Some(q@),
            None => None,
        })
    }
}

/// The URL under a server's base URL that answers for the current user at
/// `path`.
pub open spec fn current_user_url(base_url: Seq<char>, path: Seq<char>) -> Seq<char> {
    base_url + "/users/current"@ + path
}

/// The URL of the main server for a request to `uri`: the current user's URL
/// at the same path, with the same query.
pub open spec fn formatted_url(uri: (Seq<char>, Option<Seq<char>>), base_url: Seq<char>) -> Seq<char> {
    match uri.1 {
        Some(query) => current_user_url(base_url, uri.0) + seq!['?'] + query,
        None => current_user_url(base_url, uri.0),
    }
}

/// The URL at the server `base_url` to which a request to `uri` is forwarded.
pub fn get_formatted_url(uri: &RequestUri, base_url: &str) -> (url: String)
    ensures
        url@ == formatted_url(uri@, base_url@),
{
    let mut url = base_url.to_owned();
    url.append("/users/current");
    url.append(uri.path.as_str());
    match &uri.query {
        Some(query) => {
            proof {
                reveal_strlit("?");
            }
            url.append("?");
            url.append(query.as_str());
        },
        None => {},
    }
    url
}

/// The URL at a further server `base_url` to which a heartbeat sent to `path`
/// is copied: the query is not copied.
pub fn clone_server_url(base_url: &str, path: &str) -> (url: String)
    ensures
        url@ == current_user_url(base_url@, path@),
{
    let mut url = base_url.to_owned();
    url.append("/users/current");
    url.append(path);
    url
}

/// The character of the standard Base64 alphabet for the 6-bit value `v`.
pub open spec fn base64_symbol(v: int) -> char {
    if v < 26 {
        (65 + v) as char
    } else if v < 52 {
        (97 + (v - 26)) as char
    } else if v < 62 {
        (48 + (v - 52)) as char
    } else if v == 62 {
        '+'
    } else {
        '/'
    }
}

/// The standard Base64 encoding, with `=` padding, of `bytes` (RFC 4648):
/// each group of 3 bytes gives 4 symbols of 6 bits each; a last group of 1 or
/// 2 bytes gives 2 or 3 symbols and `==` or `=`.
pub open spec fn base64_bytes(bytes: Seq<u8>) -> Seq<char>
    decreases bytes.len(),
{
    if bytes.len() == 0 {
        Seq::empty()
    } else if bytes.len() == 1 {
        seq![base64_symbol((bytes[0] as int) / 4), base64_symbol(((bytes[0] as int) % 4) * 16), '=', '=']
    } else if bytes.len() == 2 {
        seq![
            base64_symbol((bytes[0] as int) / 4),
            base64_symbol(((bytes[0] as int) % 4) * 16 + (bytes[1] as int) / 16),
            base64_symbol(((bytes[1] as int) % 16) * 4),
            '=',
        ]
    } else {
        seq![
            base64_symbol((bytes[0] as int) / 4),
            base64_symbol(((bytes[0] as int) % 4) * 16 + (bytes[1] as int) / 16),
            base64_symbol(((bytes[1] as int) % 16) * 4 + (bytes[2] as int) / 64),
            base64_symbol((bytes[2] as int) % 64),
        ] + base64_bytes(bytes.skip(3))
    }
}

/// The standard Base64 encoding, with padding, of the UTF-8 bytes of `text`.
pub open spec fn base64_standard(text: Seq<char>) -> Seq<char> {
    base64_bytes(encode_utf8(text))
}

/// A character of the standard Base64 alphabet, or the padding `=`.
pub open spec fn is_base64_char(c: char) -> bool {
    ||| ('A' <= c && c <= 'Z')
    ||| ('a' <= c && c <= 'z')
    ||| ('0' <= c && c <= '9')
    ||| c == '+'
    ||| c == '/'
    ||| c == '='
}

/// The length of the padded Base64 encoding of `n` bytes.
pub open spec fn base64_len(n: nat) -> nat {
    4 * ((n + 2) / 3)
}

/// Whether the Base64 encoding of `text` has a length that fits in `usize`.
pub open spec fn base64_encodable(text: Seq<char>) -> bool {
    base64_len(encode_utf8(text).len()) <= usize::MAX
}

proof fn lemma_base64_symbol(v: int)
    requires
        0 <= v < 64,
    ensures
        is_base64_char(base64_symbol(v)),
{
    if v < 26 {
        assert(((65 + v) as char) as u32 == 65 + v);
    } else if v < 52 {
        assert(((97 + (v - 26)) as char) as u32 == 97 + (v - 26));
    } else if v < 62 {
        assert(((48 + (v - 52)) as char) as u32 == 48 + (v - 52));
    }
}

/// The Base64 encoding of `n` bytes has `4 * ceil(n / 3)` characters, all of
/// the standard alphabet or `=`.
pub proof fn lemma_base64_shape(bytes: Seq<u8>)
    ensures
        base64_bytes(bytes).len() == base64_len(bytes.len()),
        forall|i: int| 0 <= i < base64_bytes(bytes).len() ==> is_base64_char(#[trigger] base64_bytes(bytes)[i]),
    decreases bytes.len(),
{
    if bytes.len() == 0 {
    } else if bytes.len() == 1 {
        lemma_base64_symbol((bytes[0] as int) / 4);
        lemma_base64_symbol(((bytes[0] as int) % 4) * 16);
    } else if bytes.len() == 2 {
        lemma_base64_symbol((bytes[0] as int) / 4);
        lemma_base64_symbol(((bytes[0] as int) % 4) * 16 + (bytes[1] as int) / 16);
        lemma_base64_symbol(((bytes[1] as int) % 16) * 4);
    } else {
        lemma_base64_symbol((bytes[0] as int) / 4);
        lemma_base64_symbol(((bytes[0] as int) % 4) * 16 + (bytes[1] as int) / 16);
        lemma_base64_symbol(((bytes[1] as int) % 16) * 4 + (bytes[2] as int) / 64);
        lemma_base64_symbol((bytes[2] as int) % 64);
        lemma_base64_shape(bytes.skip(3));
        let head = seq![
            base64_symbol((bytes[0] as int) / 4),
            base64_symbol(((bytes[0] as int) % 4) * 16 + (bytes[1] as int) / 16),
            base64_symbol(((bytes[1] as int) % 16) * 4 + (bytes[2] as int) / 64),
            base64_symbol((bytes[2] as int) % 64),
        ];
        let tail = base64_bytes(bytes.skip(3));
        assert forall|i: int| 0 <= i < base64_bytes(bytes).len() implies is_base64_char(#[trigger] base64_bytes(bytes)[i]) by {
            if i >= 4 {
                assert(base64_bytes(bytes)[i] == tail[i - 4]);
            }
        }
    }
}

/// `base64::Engine::encode` with the `STANDARD` engine, on the bytes of
/// `text`. Claimed: the result is the standard padded Base64 encoding of
/// those bytes, `base64_standard`. The call panics when the length of the
/// encoding overflows `usize`, which `requires` excludes.
#[verifier::external_body]
fn base64_encode(text: &str) -> (encoded: String)
    requires
        base64_encodable(text@),
    ensures
        encoded@ == base64_standard(text@),
{
    base64::engine::general_purpose::STANDARD.encode(text)
}

/// The `Authorization` value of HTTP Basic authentication with the
/// credentials `encoded`.
pub open spec fn basic_authorization_value(encoded: Seq<char>) -> Seq<char> {
    "Basic "@ + encoded
}

/// The `Authorization` value for already encoded credentials.
pub fn basic_authorization(encoded: &str) -> (value: String)
    ensures
        value@ == basic_authorization_value(encoded@),
{
    let mut value = "Basic ".to_owned();
    value.append(encoded);
    value
}

/// The `Authorization` value that presents `key` to a server: Basic
/// authentication with the Base64 encoding of the key alone.
pub open spec fn key_authorization(key: Seq<char>) -> Seq<char> {
    basic_authorization_value(base64_standard(key))
}

/// The `Authorization` value that presents `key` to a server; it is printable
/// ASCII, so a valid header value.
pub fn authorization_for_key(key: &str) -> (value: String)
    requires
        base64_encodable(key@),
    ensures
        value@ == key_authorization(key@),
        forall|i: int| 0 <= i < value@.len() ==> ' ' <= #[trigger] value@[i] <= '~',
{
    let encoded = base64_encode(key);
    let value = basic_authorization(encoded.as_str());
    proof {
        lemma_base64_shape(encode_utf8(key@));
        reveal_strlit("Basic ");
        assert forall|i: int| 0 <= i < value@.len() implies ' ' <= #[trigger] value@[i] <= '~' by {
            if i >= 6 {
                assert(value@[i] == encoded@[i - 6]);
                assert(is_base64_char(encoded@[i - 6]));
            }
        }
    }
    value
}

/// The method of a forwarded request.
#[derive(PartialEq, Eq, Structural, Debug, Clone, Copy)]
pub enum RequestMethod {
    Get,
    Post,
}

/// A request for a server, as the relay sends it: the client's headers that
/// are forwarded, then the user agent and the authorization; the JSON body
/// that the client sent goes with it when `json_body` holds.
pub struct OutgoingRequest {
    pub method: RequestMethod,
    pub url: String,
    pub headers: HeaderMap,
    pub user_agent: String,
    pub authorization: String,
    pub json_body: bool,
}

/// The value of an outgoing request.
pub struct OutgoingRequestView {
    pub method: RequestMethod,
    pub url: Seq<char>,
    pub headers: Map<Seq<char>, Seq<Seq<u8>>>,
    pub user_agent: Seq<char>,
    pub authorization: Seq<char>,
    pub json_body: bool,
}

impl View for OutgoingRequest {
    type V = OutgoingRequestView;

    open spec fn view(&self) -> OutgoingRequestView {
        OutgoingRequestView {
            method: self.method,
            url: self.url@,
            headers: header_map_contents(self.headers),
            user_agent: self.user_agent@,
            authorization: self.authorization@,
            json_body: self.json_body,
        }
    }
}

/// The client's headers that are forwarded: all but `Content-Encoding`,
/// `Content-Length`, `Host` and `Authorization`.
pub open spec fn forwarded_headers(headers: Map<Seq<char>, Seq<Seq<u8>>>) -> Map<Seq<char>, Seq<Seq<u8>>> {
    headers.remove(lower_text("content-encoding"@)).remove(lower_text("content-length"@)).remove(lower_text("host"@)).remove(
        lower_text("authorization"@),
    )
}

/// The request that `request` prepares.
pub open spec fn planned_request(
    method: RequestMethod,
    url: Seq<char>,
    headers: Map<Seq<char>, Seq<Seq<u8>>>,
    user_agent: Seq<char>,
    key: Seq<char>,
    json_body: bool,
) -> OutgoingRequestView {
    OutgoingRequestView {
        method,
        url,
        headers: forwarded_headers(headers),
        user_agent,
        authorization: key_authorization(key),
        json_body,
    }
}

/// Prepares a request to `url` that forwards the client's `headers`, presents
/// `user_agent` and authenticates with `key`.
pub fn request(
    method: RequestMethod,
    url: &str,
    headers: HeaderMap,
    user_agent: &str,
    key: &str,
    json_body: bool,
) -> (r: OutgoingRequest)
    requires
        base64_encodable(key@),
    ensures
        r@ == planned_request(method, url@, header_map_contents(headers), user_agent@, key@, json_body),
{
    let mut headers = headers;
    proof {
        reveal_strlit("content-encoding");
        reveal_strlit("content-length");
        reveal_strlit("host");
        reveal_strlit("authorization");
    }
    assert(is_plain_header_name("content-encoding"@));
    assert(is_plain_header_name("content-length"@));
    assert(is_plain_header_name("host"@));
    assert(is_plain_header_name("authorization"@));
    remove_header(&mut headers, "content-encoding");
    remove_header(&mut headers, "content-length");
    remove_header(&mut headers, "host");
    remove_header(&mut headers, "authorization");
    let authorization = authorization_for_key(key);
    OutgoingRequest {
        method,
        url: url.to_owned(),
        headers,
        user_agent: user_agent.to_owned(),
        authorization,
        json_body,
    }
}

/// Whether every key of `servers` can be encoded for authorization.
pub open spec fn keys_encodable(servers: Seq<(Seq<char>, Seq<char>)>) -> bool {
    forall|i: int| 0 <= i < servers.len() ==> base64_encodable(#[trigger] servers[i].1)
}

/// The request for the status bar that goes to the main server.
pub open spec fn statusbar_plan(
    servers: Seq<(Seq<char>, Seq<char>)>,
    headers: Map<Seq<char>, Seq<Seq<u8>>>,
    uri: (Seq<char>, Option<Seq<char>>),
) -> OutgoingRequestView {
    planned_request(RequestMethod::Get, formatted_url(uri, servers[0].0), headers, modified_user_agent(headers), servers[0].1, false)
}

/// Prepares the request that asks the main server for the status bar.
pub fn statusbar_request(servers: &Vec<(String, String)>, headers: &HeaderMap, uri: &RequestUri) -> (r: OutgoingRequest)
    requires
        servers@.len() >= 1,
        base64_encodable(servers@[0].1@),
    ensures
        r@ == statusbar_plan(servers@.map_values(|s: (String, String)| server_view(s)), header_map_contents(*headers), uri@),
{
    let user_agent = get_modified_user_agent(headers);
    let main = &servers[0];
    let url = get_formatted_url(uri, main.0.as_str());
    request(RequestMethod::Get, url.as_str(), copy_headers(headers), user_agent.as_str(), main.1.as_str(), false)
}

/// The heartbeat request for the server at `index`: the main server gets the
/// path and query of the client's request, the others the path alone.
pub open spec fn heartbeat_plan(
    servers: Seq<(Seq<char>, Seq<char>)>,
    headers: Map<Seq<char>, Seq<Seq<u8>>>,
    uri: (Seq<char>, Option<Seq<char>>),
    index: int,
) -> OutgoingRequestView {
    let url = if index == 0 {
        formatted_url(uri, servers[0].0)
    } else {
        current_user_url(servers[index].0, uri.0)
    };
    planned_request(RequestMethod::Post, url, headers, modified_user_agent(headers), servers[index].1, true)
}

/// Prepares the heartbeat requests, one for each server in the order of the
/// servers: the main server's first.
pub fn heartbeat_requests(servers: &Vec<(String, String)>, headers: &HeaderMap, uri: &RequestUri) -> (r: Vec<OutgoingRequest>)
    requires
        servers@.len() >= 1,
        keys_encodable(servers@.map_values(|s: (String, String)| server_view(s))),
    ensures
        r@.len() == servers@.len(),
        forall|i: int| 0 <= i < r@.len() ==> #[trigger] r@[i]@ == heartbeat_plan(servers@.map_values(|s: (String, String)| server_view(s)), header_map_contents(*headers), uri@, i),
{
    let ghost sv = servers@.map_values(|s: (String, String)| server_view(s));
    let user_agent = get_modified_user_agent(headers);
    let mut requests: Vec<OutgoingRequest> = Vec::new();
    let n = servers.len();
    let mut i: usize = 0;
    while i < n
        invariant
            i <= n,
            n == servers@.len(),
            sv == servers@.map_values(|s: (String, String)| server_view(s)),
            keys_encodable(sv),
            user_agent@ == modified_user_agent(header_map_contents(*headers)),
            requests@.len() == i,
            forall|k: int| 0 <= k < i ==> #[trigger] requests@[k]@ == heartbeat_plan(sv, header_map_contents(*headers), uri@, k),
        decreases n - i,
    {
        let server = &servers[i];
        assert(sv[i as int] == server_view(*server));
        assert(base64_encodable(sv[i as int].1));
        let url = if i == 0 {
            get_formatted_url(uri, server.0.as_str())
        } else {
            clone_server_url(server.0.as_str(), uri.path.as_str())
        };
        let planned = request(RequestMethod::Post, url.as_str(), copy_headers(headers), user_agent.as_str(), server.1.as_str(), true);
        requests.push(planned);
        i = i + 1;
    }
    requests
}

/// Whether an HTTP status is a success, in `200..=299`.
pub open spec fn success_status(status: u16) -> bool {
    200 <= status <= 299
}

/// Whether an HTTP status is a success, in `200..=299`.
pub fn is_success(status: u16) -> (b: bool)
    ensures
        b == success_status(status),
{
    200 <= status && status <= 299
}

/// The status with which the relay answers when the main server cannot be
/// relayed.
pub const INTERNAL_SERVER_ERROR: u16 = 500;

/// The endpoint that a client called.
#[derive(PartialEq, Eq, Structural, Debug, Clone, Copy)]
pub enum Endpoint {
    /// `GET .../statusbar/today`: the main server's answer is relayed as JSON.
    StatusBar,
    /// `POST .../heartbeats`: sent to every server; the main server's status
    /// and JSON are relayed.
    Heartbeats,
}

/// The next step after the main server's reply, `None` when the request
/// failed.
#[derive(PartialEq, Eq, Structural, Debug, Clone, Copy)]
pub enum ReplyStep {
    /// Answer `500 Internal Server Error`.
    InternalError,
    /// Read the body of the failed reply, to report it, then answer
    /// `500 Internal Server Error`.
    ReportBodyThenInternalError,
    /// Read the reply's body as JSON.
    ReadJson,
}

/// The step after the main server's reply: `status` is `None` when no reply
/// came.
pub open spec fn reply_step(status: Option<u16>) -> ReplyStep {
    match status {
        None => ReplyStep::InternalError,
        Some(s) => if success_status(s) { ReplyStep::ReadJson } else { ReplyStep::ReportBodyThenInternalError },
    }
}

/// Decides what to do with the main server's reply.
pub fn main_reply_step(status: Option<u16>) -> (step: ReplyStep)
    ensures
        step == reply_step(status),
{
    match status {
        None => ReplyStep::InternalError,
        Some(s) => if is_success(s) { ReplyStep::ReadJson } else { ReplyStep::ReportBodyThenInternalError },
    }
}

/// The status of the relay's answer once the main server's successful reply,
/// of status `main_status`, was read: its JSON is relayed under `200` for the
/// status bar and under the main server's status for heartbeats, and
/// `500` answers a body that is not JSON.
pub open spec fn answer_status(endpoint: Endpoint, main_status: u16, json_read: bool) -> u16 {
    if !json_read {
        INTERNAL_SERVER_ERROR
    } else {
        match endpoint {
            Endpoint::StatusBar => 200,
            Endpoint::Heartbeats => main_status,
        }
    }
}

/// The status of the relay's answer after the main server's body was read.
pub fn relayed_status(endpoint: Endpoint, main_status: u16, json_read: bool) -> (status: u16)
    ensures
        status == answer_status(endpoint, main_status, json_read),
{
    if !json_read {
        INTERNAL_SERVER_ERROR
    } else {
        match endpoint {
            Endpoint::StatusBar => 200,
            Endpoint::Heartbeats => main_status,
        }
    }
}


/// Where the relaying of a heartbeat stands. The main server's request goes
/// first, then those of the further servers one by one; only then is the main
/// server's reply looked at.
#[derive(PartialEq, Eq, Structural, Debug, Clone, Copy)]
pub enum HeartbeatState {
    /// The main server's reply is awaited.
    AwaitingMain,
    /// The reply of the further server at `index` is awaited; `main` is the
    /// main server's status, `None` when its request failed.
    AwaitingClone { index: usize, main: Option<u16> },
    /// The main server's successful reply, of status `status`, is being read
    /// as JSON.
    ReadingJson { status: u16 },
    /// The client was answered with `status`.
    Answered { status: u16 },
}

/// What happened while relaying a heartbeat.
#[derive(PartialEq, Eq, Structural, Debug, Clone, Copy)]
pub enum HeartbeatEvent {
    /// The awaited server replied with a status, or its request failed (`None`).
    Replied(Option<u16>),
    /// The main server's body was read, as JSON or not.
    JsonRead(bool),
}

/// What to do next while relaying a heartbeat.
#[derive(PartialEq, Eq, Structural, Debug, Clone, Copy)]
pub enum HeartbeatAction {
    /// Send the heartbeat to the further server at this index.
    SendClone(usize),
    /// Read the main server's failed reply to report it, then answer with
    /// this status.
    ReportBodyThenAnswer(u16),
    /// Read the main server's reply as JSON.
    ReadJson,
    /// Answer the client with this status and the main server's JSON, or with
    /// an error when the status is `500`.
    Answer(u16),
    /// The event was not awaited; nothing changes.
    Ignore,
}

/// The state and action once the main server's reply, `main`, is looked at.
pub open spec fn after_main_reply(main: Option<u16>) -> (HeartbeatState, HeartbeatAction) {
    match reply_step(main) {
        ReplyStep::InternalError => (HeartbeatState::Answered { status: INTERNAL_SERVER_ERROR }, HeartbeatAction::Answer(INTERNAL_SERVER_ERROR)),
        ReplyStep::ReportBodyThenInternalError => (HeartbeatState::Answered { status: INTERNAL_SERVER_ERROR }, HeartbeatAction::ReportBodyThenAnswer(INTERNAL_SERVER_ERROR)),
        ReplyStep::ReadJson => (HeartbeatState::ReadingJson { status: main->0 }, HeartbeatAction::ReadJson),
    }
}

/// One step of relaying a heartbeat to `servers` servers.
pub open spec fn heartbeat_next(servers: usize, state: HeartbeatState, event: HeartbeatEvent) -> (HeartbeatState, HeartbeatAction) {
    match (state, event) {
        (HeartbeatState::AwaitingMain, HeartbeatEvent::Replied(main)) => if servers > 1 {
            (HeartbeatState::AwaitingClone { index: 1, main }, HeartbeatAction::SendClone(1))
        } else {
            after_main_reply(main)
        },
        (HeartbeatState::AwaitingClone { index, main }, HeartbeatEvent::Replied(_)) => if index + 1 < servers {
            (HeartbeatState::AwaitingClone { index: (index + 1) as usize, main }, HeartbeatAction::SendClone((index + 1) as usize))
        } else {
            after_main_reply(main)
        },
        (HeartbeatState::ReadingJson { status }, HeartbeatEvent::JsonRead(json_read)) => {
            let answer = answer_status(Endpoint::Heartbeats, status, json_read);
            (HeartbeatState::Answered { status: answer }, HeartbeatAction::Answer(answer))
        },
        _ => (state, HeartbeatAction::Ignore),
    }
}

/// Takes one step of relaying a heartbeat to `servers` servers.
pub fn heartbeat_step(servers: usize, state: HeartbeatState, event: HeartbeatEvent) -> (r: (HeartbeatState, HeartbeatAction))
    ensures
        r == heartbeat_next(servers, state, event),
{
    match (state, event) {
        (HeartbeatState::AwaitingMain, HeartbeatEvent::Replied(main)) => if servers > 1 {
            (HeartbeatState::AwaitingClone { index: 1, main }, HeartbeatAction::SendClone(1))
        } else {
            main_reply_transition(main)
        },
        (HeartbeatState::AwaitingClone { index, main }, HeartbeatEvent::Replied(_)) => if servers > 0 && index < servers - 1 {
            (HeartbeatState::AwaitingClone { index: index + 1, main }, HeartbeatAction::SendClone(index + 1))
        } else {
            main_reply_transition(main)
        },
        (HeartbeatState::ReadingJson { status }, HeartbeatEvent::JsonRead(json_read)) => {
            let answer = relayed_status(Endpoint::Heartbeats, status, json_read);
            (HeartbeatState::Answered { status: answer }, HeartbeatAction::Answer(answer))
        },
        _ => (state, HeartbeatAction::Ignore),
    }
}

fn main_reply_transition(main: Option<u16>) -> (r: (HeartbeatState, HeartbeatAction))
    ensures
        r == after_main_reply(main),
{
    match main_reply_step(main) {
        ReplyStep::InternalError => (HeartbeatState::Answered { status: INTERNAL_SERVER_ERROR }, HeartbeatAction::Answer(INTERNAL_SERVER_ERROR)),
        ReplyStep::ReportBodyThenInternalError => (HeartbeatState::Answered { status: INTERNAL_SERVER_ERROR }, HeartbeatAction::ReportBodyThenAnswer(INTERNAL_SERVER_ERROR)),
        ReplyStep::ReadJson => (HeartbeatState::ReadingJson { status: main.unwrap() }, HeartbeatAction::ReadJson),
    }
}

/// The state after the events, one step each, from `state`.
pub open spec fn heartbeat_run(servers: usize, state: HeartbeatState, events: Seq<HeartbeatEvent>) -> HeartbeatState
    decreases events.len(),
{
    if events.len() == 0 {
        state
    } else {
        heartbeat_run(servers, heartbeat_next(servers, state, events[0]).0, events.drop_first())
    }
}

/// The replies of further servers as events.
pub open spec fn clone_replies(statuses: Seq<Option<u16>>) -> Seq<HeartbeatEvent> {
    statuses.map_values(|s: Option<u16>| HeartbeatEvent::Replied(s))
}

} // verus!
