use vstd::prelude::*;
use vstd::utf8::encode_utf8;
use crate::config::{
    server_listing, wakatime_config, ConfigError, key_maskable, masked, add_server_error, index_check, remove_server_check, servers_after_add, servers_after_set_main,
    startup_check, AppConfigView, ServerOperation, StartupError,
};
use crate::headers::{first_header_value, lower_text, modified_user_agent, product_token};
use crate::relay::{
    base64_standard, after_main_reply, answer_status, clone_replies, forwarded_headers, heartbeat_plan, heartbeat_run, key_authorization,
    reply_step, statusbar_plan, Endpoint, HeartbeatEvent, HeartbeatState, ReplyStep, RequestMethod,
};
use crate::wakatime::{first_property, first_section, settings_of_sections, synced_config, sync_outcome, SectionEntries, SettingsFailure, SyncOutcome};
use crate::text::{decimal, digit_char, header_text, is_whitespace, trim, trim_end, trim_start};

verus! {

/// Removing the server that was just added gives back the servers there were:
/// the last one when it was added at the end, the first one when it was added
/// as the main server; and the removal is allowed whenever there were servers.
pub proof fn remove_undoes_add(servers: Seq<(Seq<char>, Seq<char>)>, url: Seq<char>, key: Seq<char>, main: bool)
    requires
        add_server_error(url, key) is None,
        servers.len() >= 1,
    ensures
        ({
            let added = servers_after_add(servers, url, key, main);
            let index: int = if main { 0 } else { servers.len() as int };
            &&& index <= usize::MAX ==> remove_server_check(added.len(), index as usize) is Ok
            &&& added.remove(index) == servers
        }),
{
    let added = servers_after_add(servers, url, key, main);
    if main {
        assert(added.remove(0) =~= servers);
    } else {
        assert(added.remove(servers.len() as int) =~= servers);
    }
}

/// Making a server the main one keeps the same servers, puts the chosen one
/// first and leaves the others in their order.
pub proof fn set_main_keeps_servers(servers: Seq<(Seq<char>, Seq<char>)>, index: usize)
    requires
        index_check(servers.len(), index, ServerOperation::SetMain) is Ok,
    ensures
        ({
            let after = servers_after_set_main(servers, index as int);
            &&& after.len() == servers.len()
            &&& after[0] == servers[index as int]
            &&& after.remove(0) == servers.remove(index as int)
            &&& after.to_multiset() == servers.to_multiset()
        }),
{
    let after = servers_after_set_main(servers, index as int);
    if index == 0 {
        assert(after.remove(0) =~= servers.remove(0));
    } else {
        assert(after.remove(0) =~= servers.remove(index as int));
        vstd::seq_lib::lemma_seq_union_to_multiset_commutative(seq![servers[index as int]], servers.remove(index as int));
        assert(servers =~= servers.subrange(0, index as int) + servers.subrange(index as int, servers.len() as int));
        lemma_remove_to_multiset(servers, index as int);
    }
}

proof fn lemma_remove_to_multiset(s: Seq<(Seq<char>, Seq<char>)>, i: int)
    requires
        0 <= i < s.len(),
    ensures
        (seq![s[i]] + s.remove(i)).to_multiset() == s.to_multiset(),
{
    broadcast use vstd::seq_lib::group_to_multiset_ensures;
    assert(s.remove(i).to_multiset() == s.to_multiset().remove(s[i]));
    assert((seq![s[i]] + s.remove(i)).to_multiset() == seq![s[i]].to_multiset().add(s.remove(i).to_multiset())) by {
        vstd::seq_lib::lemma_multiset_commutative(seq![s[i]], s.remove(i));
    }
    assert(seq![s[i]].to_multiset() =~= vstd::multiset::Multiset::singleton(s[i])) by {
        assert(seq![s[i]] =~= Seq::<(Seq<char>, Seq<char>)>::empty().push(s[i]));
    }
    assert(s.to_multiset().contains(s[i]));
    assert(s.to_multiset() =~= s.to_multiset().remove(s[i]).insert(s[i]));
}

/// The configuration written when there is none cannot be started: its main
/// server is the placeholder.
pub proof fn default_config_not_runnable()
    ensures
        startup_check(seq![("https://example.com"@, "key_goes_here"@)]) == Err::<(), StartupError>(StartupError::PlaceholderMainServer),
{
}

/// A server added as main whose trimmed URL is not the placeholder makes the
/// configuration one that can start.
pub proof fn added_main_server_is_runnable(servers: Seq<(Seq<char>, Seq<char>)>, url: Seq<char>, key: Seq<char>)
    requires
        add_server_error(url, key) is None,
        crate::text::trim(url) != crate::config::placeholder_url(),
    ensures
        startup_check(servers_after_add(servers, url, key, true)) == Ok::<(), StartupError>(()),
{
}

/// The relay forwards exactly the client's headers other than
/// `Content-Encoding`, `Content-Length`, `Host` and `Authorization`: no header
/// of those names reaches a server, and every other header does, with all its
/// values.
pub proof fn forwarded_headers_are_the_end_to_end_ones(headers: Map<Seq<char>, Seq<Seq<u8>>>)
    ensures
        forall|name: Seq<char>| #[trigger] forwarded_headers(headers).contains_key(name) <==> {
            &&& headers.contains_key(name)
            &&& name != lower_text("content-encoding"@)
            &&& name != lower_text("content-length"@)
            &&& name != lower_text("host"@)
            &&& name != lower_text("authorization"@)
        },
        forall|name: Seq<char>| #[trigger] forwarded_headers(headers).contains_key(name) ==> forwarded_headers(headers)[name] == headers[name],
{
}

/// Whatever the client sent, the user agent forwarded to the servers ends
/// with a space and the relay's product token.
pub proof fn user_agent_names_the_relay(headers: Map<Seq<char>, Seq<Seq<u8>>>)
    ensures
        ({
            let agent = modified_user_agent(headers);
            let suffix = seq![' '] + product_token();
            &&& agent.len() >= suffix.len()
            &&& agent.skip(agent.len() - suffix.len()) == suffix
        }),
{
    let agent = modified_user_agent(headers);
    let suffix = seq![' '] + product_token();
    assert(agent.skip(agent.len() - suffix.len()) =~= suffix);
}

/// Taking the main server from the WakaTime configuration a second time
/// changes nothing more.
pub proof fn sync_is_idempotent(config: AppConfigView, legacy: Option<(Seq<char>, Seq<char>)>)
    ensures
        synced_config(synced_config(config, legacy), legacy) == synced_config(config, legacy),
{
    let once = synced_config(config, legacy);
    if let Some(server) = legacy {
        if sync_outcome(config.host, legacy) == SyncOutcome::MainServerUpdated {
            assert(once.host == config.host);
            assert(once.servers.update(0, server) =~= once.servers);
        }
    }
}


/// A masked key shows nothing of a key of at most 8 bytes but its length, and
/// nothing of a longer key but its first and last 4 bytes: two keys that agree
/// on these are shown alike.
pub proof fn mask_reveals_only_length_or_ends(k1: Seq<char>, k2: Seq<char>)
    requires
        key_maskable(k1),
        key_maskable(k2),
        ({
            let b1 = encode_utf8(k1);
            let b2 = encode_utf8(k2);
            ||| (b1.len() <= 8 && b2.len() == b1.len())
            ||| (b1.len() > 8 && b2.len() > 8 && b1.take(4) == b2.take(4) && b1.skip(b1.len() - 4) == b2.skip(b2.len() - 4))
        }),
    ensures
        masked(k1) == masked(k2),
{
}


proof fn lemma_clone_replies_lead_to_main(
    servers: usize,
    index: usize,
    main: Option<u16>,
    statuses: Seq<Option<u16>>,
    rest: Seq<HeartbeatEvent>,
)
    requires
        1 <= index,
        statuses.len() >= 1,
        index + statuses.len() == servers,
    ensures
        heartbeat_run(servers, HeartbeatState::AwaitingClone { index, main }, clone_replies(statuses) + rest)
            == heartbeat_run(servers, after_main_reply(main).0, rest),
    decreases statuses.len(),
{
    let events = clone_replies(statuses) + rest;
    assert(events[0] == HeartbeatEvent::Replied(statuses[0]));
    assert(events.drop_first() =~= clone_replies(statuses.drop_first()) + rest);
    if statuses.len() == 1 {
        assert(clone_replies(statuses.drop_first()) + rest =~= rest);
    } else {
        lemma_clone_replies_lead_to_main(servers, (index + 1) as usize, main, statuses.drop_first(), rest);
    }
}

/// A further server never changes what the client is answered: relaying a
/// heartbeat to `servers` servers ends in the same state whatever the further
/// servers replied, or whether their requests failed, as long as the main
/// server's reply and the reading of its body are the same.
pub proof fn clone_replies_never_change_the_answer(
    servers: usize,
    main: Option<u16>,
    statuses1: Seq<Option<u16>>,
    statuses2: Seq<Option<u16>>,
    rest: Seq<HeartbeatEvent>,
)
    requires
        servers >= 1,
        statuses1.len() == servers - 1,
        statuses2.len() == servers - 1,
    ensures
        heartbeat_run(servers, HeartbeatState::AwaitingMain, seq![HeartbeatEvent::Replied(main)] + clone_replies(statuses1) + rest)
            == heartbeat_run(servers, HeartbeatState::AwaitingMain, seq![HeartbeatEvent::Replied(main)] + clone_replies(statuses2) + rest),
        heartbeat_run(servers, HeartbeatState::AwaitingMain, seq![HeartbeatEvent::Replied(main)] + clone_replies(statuses1) + rest)
            == heartbeat_run(servers, after_main_reply(main).0, rest),
{
    let e1 = seq![HeartbeatEvent::Replied(main)] + clone_replies(statuses1) + rest;
    let e2 = seq![HeartbeatEvent::Replied(main)] + clone_replies(statuses2) + rest;
    assert(e1[0] == HeartbeatEvent::Replied(main));
    assert(e2[0] == HeartbeatEvent::Replied(main));
    assert(e1.drop_first() =~= clone_replies(statuses1) + rest);
    assert(e2.drop_first() =~= clone_replies(statuses2) + rest);
    if servers == 1 {
        assert(clone_replies(statuses1) + rest =~= rest);
        assert(clone_replies(statuses2) + rest =~= rest);
    } else {
        lemma_clone_replies_lead_to_main(servers, 1, main, statuses1, rest);
        lemma_clone_replies_lead_to_main(servers, 1, main, statuses2, rest);
    }
}


/// Every further server gets its own copy of a heartbeat: the request at index
/// `i >= 1` goes to that server's base URL, then `/users/current` and the
/// path of the client's request (without its query), with that server's key;
/// the main server's request (index 0) goes to the main server's base URL,
/// `/users/current`, the path and the client's query, if any. All are `POST`
/// requests that carry the client's JSON.
pub proof fn heartbeats_reach_each_server(
    servers: Seq<(Seq<char>, Seq<char>)>,
    headers: Map<Seq<char>, Seq<Seq<u8>>>,
    uri: (Seq<char>, Option<Seq<char>>),
    i: int,
)
    requires
        0 <= i < servers.len(),
    ensures
        ({
            let plan = heartbeat_plan(servers, headers, uri, i);
            &&& plan.method == RequestMethod::Post
            &&& plan.json_body
            &&& plan.authorization == key_authorization(servers[i].1)
            &&& i >= 1 ==> plan.url == servers[i].0 + "/users/current"@ + uri.0
            &&& i == 0 ==> plan.url == match uri.1 {
                Some(query) => servers[0].0 + "/users/current"@ + uri.0 + seq!['?'] + query,
                None => servers[0].0 + "/users/current"@ + uri.0,
            }
        }),
{
}

/// The status bar is always asked of the main server: a `GET` to the main
/// server's base URL, `/users/current`, the path and the client's query, if
/// any, with the main server's key and no body.
pub proof fn statusbar_asks_the_main_server(
    servers: Seq<(Seq<char>, Seq<char>)>,
    headers: Map<Seq<char>, Seq<Seq<u8>>>,
    uri: (Seq<char>, Option<Seq<char>>),
)
    requires
        servers.len() >= 1,
    ensures
        ({
            let plan = statusbar_plan(servers, headers, uri);
            &&& plan.method == RequestMethod::Get
            &&& !plan.json_body
            &&& plan.authorization == key_authorization(servers[0].1)
            &&& plan.url == match uri.1 {
                Some(query) => servers[0].0 + "/users/current"@ + uri.0 + seq!['?'] + query,
                None => servers[0].0 + "/users/current"@ + uri.0,
            }
        }),
{
}

/// Taking the main server from the WakaTime configuration replaces the main
/// server in place: the list keeps its length, its first server becomes the
/// WakaTime one and the others stay as they were; an empty list gets that
/// server alone. The address and timeout do not change. It happens exactly
/// when the WakaTime URL is not the relay's own address and neither the URL
/// nor the key is empty.
pub proof fn sync_replaces_only_the_main_server(config: AppConfigView, url: Seq<char>, key: Seq<char>)
    ensures
        ({
            let after = synced_config(config, Some((url, key)));
            let updates = url != "http://"@ + config.host && url.len() > 0 && key.len() > 0;
            &&& (sync_outcome(config.host, Some((url, key))) == SyncOutcome::MainServerUpdated) == updates
            &&& after.host == config.host
            &&& after.timeout == config.timeout
            &&& !updates ==> after.servers == config.servers
            &&& updates && config.servers.len() == 0 ==> after.servers == seq![(url, key)]
            &&& updates && config.servers.len() > 0 ==> {
                &&& after.servers.len() == config.servers.len()
                &&& after.servers[0] == (url, key)
                &&& forall|j: int| 1 <= j < config.servers.len() ==> after.servers[j] == config.servers[j]
            }
        }),
{
}

/// A successful addition grows the list by exactly one server, the trimmed URL
/// with the key: at the end, or in front when it is to be the main server; the
/// other servers keep their order. This holds of every list, the empty one
/// too.
pub proof fn add_grows_the_list_by_one(servers: Seq<(Seq<char>, Seq<char>)>, url: Seq<char>, key: Seq<char>, main: bool)
    ensures
        ({
            let after = servers_after_add(servers, url, key, main);
            let entry = (trim(url), key);
            &&& after.len() == servers.len() + 1
            &&& after.contains(entry)
            &&& main ==> after[0] == entry && forall|j: int| 0 <= j < servers.len() ==> after[j + 1] == servers[j]
            &&& !main ==> after[servers.len() as int] == entry && forall|j: int| 0 <= j < servers.len() ==> after[j] == servers[j]
        }),
{
    let after = servers_after_add(servers, url, key, main);
    if main {
        assert(after[0] == (trim(url), key));
    } else {
        assert(after[servers.len() as int] == (trim(url), key));
    }
}

/// The relay refuses to start exactly when there is no server, or when the
/// main (first) server is still `https://example.com`, whatever the other
/// servers are.
pub proof fn startup_refuses_placeholder_main(servers: Seq<(Seq<char>, Seq<char>)>)
    ensures
        servers.len() == 0 ==> startup_check(servers) == Err::<(), StartupError>(StartupError::NoServers),
        servers.len() >= 1 && servers[0].0 == "https://example.com"@ ==> startup_check(servers) == Err::<(), StartupError>(
            StartupError::PlaceholderMainServer,
        ),
        servers.len() >= 1 && servers[0].0 != "https://example.com"@ ==> startup_check(servers) == Ok::<(), StartupError>(()),
{
}

/// A server is removed only when the index names one of at least two servers;
/// an index check fails exactly when there are no servers or the index is past
/// the end.
pub proof fn removal_needs_another_server(len: nat, index: usize, operation: ServerOperation)
    ensures
        remove_server_check(len, index) is Ok <==> (index < len && len >= 2),
        index_check(len, index, operation) is Ok <==> index < len,
        len == 0 ==> index_check(len, index, operation) == Err::<(), crate::config::ConfigError>(
            crate::config::ConfigError::NoServers(operation),
        ),
{
}

/// The main server's reply decides the answer: a failed request answers
/// `500`, a reply outside `200..=299` is reported and answers `500`, a
/// successful one is read as JSON; once read, the status bar answers `200`,
/// heartbeats answer the main server's status, and a body that is not JSON
/// answers `500`.
pub proof fn main_reply_decides_the_answer(status: u16, json_read: bool)
    ensures
        reply_step(None) == ReplyStep::InternalError,
        (200 <= status <= 299) ==> reply_step(Some(status)) == ReplyStep::ReadJson,
        !(200 <= status <= 299) ==> reply_step(Some(status)) == ReplyStep::ReportBodyThenInternalError,
        answer_status(Endpoint::StatusBar, status, json_read) == (if json_read { 200u16 } else { 500u16 }),
        answer_status(Endpoint::Heartbeats, status, json_read) == (if json_read { status } else { 500u16 }),
{
}


proof fn trim_start_index(s: Seq<char>) -> (i: int)
    ensures
        0 <= i <= s.len(),
        trim_start(s) == s.skip(i),
        forall|k: int| 0 <= k < i ==> is_whitespace(#[trigger] s[k]),
        i < s.len() ==> !is_whitespace(s[i]),
    decreases s.len(),
{
    if s.len() > 0 && is_whitespace(s[0]) {
        let j = trim_start_index(s.drop_first());
        assert(s.drop_first().skip(j) =~= s.skip(j + 1));
        assert forall|k: int| 0 <= k < j + 1 implies is_whitespace(#[trigger] s[k]) by {
            if k > 0 {
                assert(s[k] == s.drop_first()[k - 1]);
            }
        }
        j + 1
    } else {
        assert(s.skip(0) =~= s);
        0
    }
}

proof fn trim_end_index(s: Seq<char>) -> (j: int)
    ensures
        0 <= j <= s.len(),
        trim_end(s) == s.take(j),
        forall|k: int| j <= k < s.len() ==> is_whitespace(#[trigger] s[k]),
        j > 0 ==> !is_whitespace(s[j - 1]),
    decreases s.len(),
{
    if s.len() > 0 && is_whitespace(s.last()) {
        let j = trim_end_index(s.drop_last());
        assert(s.drop_last().take(j) =~= s.take(j));
        assert forall|k: int| j <= k < s.len() implies is_whitespace(#[trigger] s[k]) by {
            if k < s.len() - 1 {
                assert(s[k] == s.drop_last()[k]);
            }
        }
        j
    } else {
        assert(s.take(s.len() as int) =~= s);
        s.len() as int
    }
}

/// Trimming takes off exactly the whitespace at both ends: the result is a
/// stretch of the text, everything before and after it is whitespace, and it
/// neither starts nor ends with whitespace. It is empty exactly when the text
/// is all whitespace.
pub proof fn trim_removes_only_outer_whitespace(s: Seq<char>)
    ensures
        exists|i: int, j: int| {
            &&& 0 <= i <= j <= s.len()
            &&& trim(s) == s.subrange(i, j)
            &&& forall|k: int| 0 <= k < i ==> is_whitespace(#[trigger] s[k])
            &&& forall|k: int| j <= k < s.len() ==> is_whitespace(#[trigger] s[k])
        },
        trim(s).len() > 0 ==> !is_whitespace(trim(s)[0]) && !is_whitespace(trim(s).last()),
        trim(s).len() == 0 <==> forall|k: int| 0 <= k < s.len() ==> is_whitespace(#[trigger] s[k]),
{
    let i = trim_start_index(s);
    let t = s.skip(i);
    let j = trim_end_index(t);
    assert(trim(s) == t.take(j));
    assert(t.take(j) =~= s.subrange(i, i + j));
    assert forall|k: int| i + j <= k < s.len() implies is_whitespace(#[trigger] s[k]) by {
        assert(s[k] == t[k - i]);
    }
    if j > 0 {
        assert(trim(s)[0] == s[i]);
        assert(trim(s).last() == t[j - 1]);
    }
    if trim(s).len() == 0 {
        assert(j == 0);
        assert forall|k: int| 0 <= k < s.len() implies is_whitespace(#[trigger] s[k]) by {
            if k >= i {
                assert(s[k] == t[k - i]);
            }
        }
    }
    if forall|k: int| 0 <= k < s.len() ==> is_whitespace(#[trigger] s[k]) {
        if i < s.len() {
            assert(is_whitespace(s[i]));
        }
        assert(t.len() == 0);
    }
}

/// A key of at most 8 bytes is shown as one `*` per byte; a longer key as
/// its first 4 bytes, `...` and its last 4 bytes.
pub proof fn mask_shape(key: Seq<char>)
    ensures
        ({
            let b = encode_utf8(key);
            &&& b.len() <= 8 ==> masked(key).len() == b.len() && forall|i: int| 0 <= i < masked(key).len() ==> #[trigger] masked(key)[i] == '*'
            &&& b.len() > 8 ==> masked(key) == vstd::utf8::decode_utf8(b.take(4)) + seq!['.', '.', '.'] + vstd::utf8::decode_utf8(b.skip(b.len() - 4))
        }),
{
}

/// The user agent forwarded is the client's own when its first `User-Agent`
/// header is visible ASCII text, `Unknown` otherwise, followed by a space and
/// `timesplit/` with the version.
pub proof fn user_agent_keeps_the_clients(headers: Map<Seq<char>, Seq<Seq<u8>>>)
    ensures
        ({
            let agent = modified_user_agent(headers);
            let suffix = seq![' '] + product_token();
            match first_header_value(headers, "User-Agent"@) {
                Some(value) => match header_text(value) {
                    Some(text) => agent == text + suffix,
                    None => agent == "Unknown"@ + suffix,
                },
                None => agent == "Unknown"@ + suffix,
            }
        }),
{
}


/// The number that the decimal digits `s` stand for.
pub open spec fn digits_value(s: Seq<char>) -> int
    decreases s.len(),
{
    if s.len() == 0 {
        0
    } else {
        digits_value(s.drop_last()) * 10 + (s.last() as int - '0' as int)
    }
}

proof fn lemma_digit_value(d: nat)
    requires
        d < 10,
    ensures
        digit_char(d) as int - '0' as int == d,
        '0' <= digit_char(d) <= '9',
{
}

/// The decimal notation of `n` is made of digits, starts with a digit other
/// than `0` unless it is `0` itself, and stands for `n`.
pub proof fn decimal_stands_for_the_number(n: nat)
    ensures
        decimal(n).len() >= 1,
        forall|i: int| 0 <= i < decimal(n).len() ==> '0' <= #[trigger] decimal(n)[i] <= '9',
        n >= 10 ==> decimal(n)[0] != '0',
        digits_value(decimal(n)) == n,
    decreases n,
{
    lemma_digit_value(n % 10);
    if n < 10 {
        assert(decimal(n).drop_last() =~= Seq::<char>::empty());
        assert(digits_value(Seq::<char>::empty()) == 0);
        assert(decimal(n).last() == digit_char(n));
        assert(n % 10 == n);
        assert(digits_value(decimal(n)) == digits_value(decimal(n).drop_last()) * 10 + (decimal(n).last() as int - '0' as int));
    } else {
        decimal_stands_for_the_number(n / 10);
        let d = decimal(n);
        assert(d.drop_last() =~= decimal(n / 10));
        assert forall|i: int| 0 <= i < d.len() implies '0' <= #[trigger] d[i] <= '9' by {
            if i < d.len() - 1 {
                assert(d[i] == decimal(n / 10)[i]);
            }
        }
        assert(d[0] == decimal(n / 10)[0]);
        if n / 10 < 10 {
            assert(n / 10 >= 1);
        }
        assert((n / 10) * 10 + n % 10 == n);
        assert(d.last() == digit_char(n % 10));
        assert(digits_value(d) == digits_value(d.drop_last()) * 10 + (d.last() as int - '0' as int));
    }
}


/// A server cannot be added with a URL or a key that is empty once trimmed;
/// the URL is checked first.
pub proof fn add_refuses_empty_url_or_key(url: Seq<char>, key: Seq<char>)
    ensures
        trim(url).len() == 0 ==> add_server_error(url, key) == Some(ConfigError::EmptyUrl),
        trim(url).len() > 0 && trim(key).len() == 0 ==> add_server_error(url, key) == Some(ConfigError::EmptyKey),
        trim(url).len() > 0 && trim(key).len() > 0 ==> add_server_error(url, key) is None,
{
}

/// The listing has a heading and one line for each server, in order: its
/// index, its URL, ` (main)` for the first one only, and its masked key; with
/// no servers it is a single line that says so.
pub proof fn listing_shows_each_server(servers: Seq<(Seq<char>, Seq<char>)>)
    ensures
        servers.len() == 0 ==> server_listing(servers) == seq!["No servers configured."@],
        servers.len() > 0 ==> {
            &&& server_listing(servers).len() == servers.len() + 1
            &&& server_listing(servers)[0] == "Configured servers:"@
            &&& forall|i: int| 0 <= i < servers.len() ==> #[trigger] server_listing(servers)[i + 1] == decimal(i as nat)
                + seq![':', ' '] + servers[i].0 + (if i == 0 { " (main)"@ } else { Seq::<char>::empty() }) + " [key "@
                + masked(servers[i].1) + seq![']']
        },
{
}

/// The WakaTime settings are the `api_url` and `api_key` of the first
/// `[settings]` section; a document without that section is refused, and a
/// section that lacks either key gives no server.
pub proof fn settings_come_from_the_settings_section(sections: SectionEntries)
    ensures
        first_section(sections, "settings"@) is None ==> settings_of_sections(sections) == Err::<
            Option<(Seq<char>, Seq<char>)>,
            SettingsFailure,
        >(SettingsFailure::NoSettingsSection),
        first_section(sections, "settings"@) matches Some(p) ==> settings_of_sections(sections) == match (
            first_property(p, "api_url"@),
            first_property(p, "api_key"@),
        ) {
            (Some(url), Some(key)) => Ok(Some((url, key))),
            _ => Ok::<Option<(Seq<char>, Seq<char>)>, SettingsFailure>(None),
        },
{
}

/// The WakaTime configuration written by `setup` points the plugins at
/// `http://` and the relay's address.
pub proof fn wakatime_config_points_to_the_relay(host: Seq<char>)
    ensures
        wakatime_config(host) == "[settings]\napi_url = \""@ + ("http://"@ + host)
            + "\"\napi_key = \"9542e1b0-59c3-4238-b51a-e4e4757038ad\"\nheartbeat_rate_limit_seconds = 30\n"@,
{
}

/// A server is presented with HTTP Basic authentication whose credentials
/// are the standard Base64 encoding of its key alone.
pub proof fn authorization_is_basic_with_the_key(key: Seq<char>)
    ensures
        key_authorization(key) == "Basic "@ + base64_standard(key),
{
}

} // verus!
