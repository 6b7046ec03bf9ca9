use vstd::prelude::*;
use vstd::utf8::*;
use crate::text::{asterisks, decimal, decimal_string, repeat_char, same_text, trim, trim_whitespace};

verus! {

/// What a configured server is: its base URL and its API key.
pub open spec fn server_view(server: (String, String)) -> (Seq<char>, Seq<char>) {
    (server.0@, server.1@)
}

/// The servers of a configuration, as text.
pub open spec fn servers_view(servers: Seq<(String, String)>) -> Seq<(Seq<char>, Seq<char>)> {
    servers.map_values(|s: (String, String)| server_view(s))
}

/// The settings of the relay: the address it listens on, the timeout of the
/// outgoing requests in seconds, and the servers; the first server is the main one.
pub struct AppConfig {
    pub host: String,
    pub timeout: u64,
    pub servers: Vec<(String, String)>,
}

/// The mathematical value of a configuration.
pub struct AppConfigView {
    pub host: Seq<char>,
    pub timeout: u64,
    pub servers: Seq<(Seq<char>, Seq<char>)>,
}

impl View for AppConfig {
    type V = AppConfigView;

    open spec fn view(&self) -> AppConfigView {
        AppConfigView { host: self.host@, timeout: self.timeout, servers: servers_view(self.servers@) }
    }
}

impl AppConfig {
    /// The configuration written when none exists yet: listen on
    /// `127.0.0.1:25893`, a timeout of 10 seconds, and one placeholder server.
    pub fn default() -> (config: Self)
        ensures
            config@.host == "127.0.0.1:25893"@,
            config@.timeout == 10,
            config@.servers == seq![("https://example.com"@, "key_goes_here"@)],
    {
        let mut servers: Vec<(String, String)> = Vec::new();
        servers.push(("https://example.com".to_owned(), "key_goes_here".to_owned()));
        let config = AppConfig { host: "127.0.0.1:25893".to_owned(), timeout: 10, servers };
        assert(servers_view(config.servers@) =~= seq![("https://example.com"@, "key_goes_here"@)]);
        config
    }
}


/// The operation that needed a server index, named in the error when there
/// are no servers at all.
#[derive(PartialEq, Eq, Structural, Debug, Clone, Copy)]
pub enum ServerOperation {
    Remove,
    SetMain,
}

/// Why a change of the server list was refused.
#[derive(PartialEq, Eq, Structural, Debug, Clone, Copy)]
pub enum ConfigError {
    /// The URL of a new server is empty once trimmed.
    EmptyUrl,
    /// The key of a new server is empty once trimmed.
    EmptyKey,
    /// There are no servers to apply the operation to.
    NoServers(ServerOperation),
    /// The index names no server.
    IndexOutOfRange(usize),
    /// The only server left cannot be removed.
    LastServer,
}

/// The configuration `config` with `servers` in place of its servers.
pub open spec fn with_servers(config: AppConfigView, servers: Seq<(Seq<char>, Seq<char>)>) -> AppConfigView {
    AppConfigView { servers, ..config }
}

/// The check of an index into a list of `len` servers before `operation`.
pub open spec fn index_check(len: nat, index: usize, operation: ServerOperation) -> Result<(), ConfigError> {
    if len == 0 {
        Err(ConfigError::NoServers(operation))
    } else if index >= len {
        Err(ConfigError::IndexOutOfRange(index))
    } else {
        Ok(())
    }
}

/// Checks that `index` names one of the servers, before `operation`.
pub fn validate_server_index(settings: &AppConfig, index: usize, operation: ServerOperation) -> (r: Result<(), ConfigError>)
    ensures
        r == index_check(settings@.servers.len(), index, operation),
{
    if settings.servers.len() == 0 {
        return Err(ConfigError::NoServers(operation));
    }
    if index >= settings.servers.len() {
        return Err(ConfigError::IndexOutOfRange(index));
    }
    Ok(())
}

/// Why a server with this URL and key cannot be added, if it cannot.
pub open spec fn add_server_error(url: Seq<char>, key: Seq<char>) -> Option<ConfigError> {
    if trim(url).len() == 0 {
        Some(ConfigError::EmptyUrl)
    } else if trim(key).len() == 0 {
        Some(ConfigError::EmptyKey)
    } else {
        None
    }
}

/// The servers after adding the server `(trim(url), key)`: in front when it is
/// to be the main server, else at the end.
pub open spec fn servers_after_add(
    servers: Seq<(Seq<char>, Seq<char>)>,
    url: Seq<char>,
    key: Seq<char>,
    main: bool,
) -> Seq<(Seq<char>, Seq<char>)> {
    if main {
        seq![(trim(url), key)] + servers
    } else {
        servers.push((trim(url), key))
    }
}

/// Adds a server with the trimmed `url` and with `key`, as the main server when
/// `main` holds. Gives back the URL that was stored.
pub fn add_server(settings: &mut AppConfig, url: String, key: String, main: bool) -> (r: Result<String, ConfigError>)
    ensures
        match r {
            Ok(stored) => {
                &&& add_server_error(url@, key@) is None
                &&& stored@ == trim(url@)
                &&& final(settings)@ == with_servers(old(settings)@, servers_after_add(old(settings)@.servers, url@, key@, main))
            },
            Err(e) => {
                &&& add_server_error(url@, key@) == Some(e)
                &&& final(settings)@ == old(settings)@
            },
        },
{
    let trimmed_url = trim_whitespace(url.as_str());
    if trimmed_url.as_str().is_empty() {
        return Err(ConfigError::EmptyUrl);
    }
    let trimmed_key = trim_whitespace(key.as_str());
    if trimmed_key.as_str().is_empty() {
        return Err(ConfigError::EmptyKey);
    }
    let stored = trimmed_url.clone();
    let ghost before = settings.servers@;
    if main {
        settings.servers.insert(0, (trimmed_url, key));
        assert(servers_view(settings.servers@) =~= seq![(trim(url@), key@)] + servers_view(before));
    } else {
        settings.servers.push((trimmed_url, key));
        assert(servers_view(settings.servers@) =~= servers_view(before).push((trim(url@), key@)));
    }
    Ok(stored)
}

/// Why the server at `index` cannot be removed from `len` servers, if it cannot.
pub open spec fn remove_server_check(len: nat, index: usize) -> Result<(), ConfigError> {
    match index_check(len, index, ServerOperation::Remove) {
        Err(e) => Err(e),
        Ok(()) => if len == 1 { Err(ConfigError::LastServer) } else { Ok(()) },
    }
}

/// Removes the server at `index` and gives it back. The last server left is
/// never removed.
pub fn remove_server(settings: &mut AppConfig, index: usize) -> (r: Result<(String, String), ConfigError>)
    ensures
        match r {
            Ok(removed) => {
                &&& remove_server_check(old(settings)@.servers.len(), index) is Ok
                &&& server_view(removed) == old(settings)@.servers[index as int]
                &&& final(settings)@ == with_servers(old(settings)@, old(settings)@.servers.remove(index as int))
                &&& final(settings)@.servers.len() >= 1
            },
            Err(e) => {
                &&& remove_server_check(old(settings)@.servers.len(), index) == Err::<(), ConfigError>(e)
                &&& final(settings)@ == old(settings)@
            },
        },
{
    let checked = validate_server_index(settings, index, ServerOperation::Remove);
    if let Err(e) = checked {
        return Err(e);
    }
    if settings.servers.len() == 1 {
        return Err(ConfigError::LastServer);
    }
    let ghost before = settings.servers@;
    let removed = settings.servers.remove(index);
    assert(servers_view(settings.servers@) =~= servers_view(before).remove(index as int));
    Ok(removed)
}

/// The servers with the one at `index` moved to the front, the others in
/// their order.
pub open spec fn servers_after_set_main(servers: Seq<(Seq<char>, Seq<char>)>, index: int) -> Seq<(Seq<char>, Seq<char>)> {
    if index == 0 {
        servers
    } else {
        seq![servers[index]] + servers.remove(index)
    }
}

/// Makes the server at `index` the main one, the first of the list. Tells
/// whether it moved: it does not when it is the main server already.
pub fn set_main_server(settings: &mut AppConfig, index: usize) -> (r: Result<bool, ConfigError>)
    ensures
        match r {
            Ok(moved) => {
                &&& index_check(old(settings)@.servers.len(), index, ServerOperation::SetMain) is Ok
                &&& moved == (index != 0)
                &&& final(settings)@ == with_servers(old(settings)@, servers_after_set_main(old(settings)@.servers, index as int))
            },
            Err(e) => {
                &&& index_check(old(settings)@.servers.len(), index, ServerOperation::SetMain) == Err::<(), ConfigError>(e)
                &&& final(settings)@ == old(settings)@
            },
        },
{
    let checked = validate_server_index(settings, index, ServerOperation::SetMain);
    if let Err(e) = checked {
        return Err(e);
    }
    if index == 0 {
        return Ok(false);
    }
    let ghost before = settings.servers@;
    let main_server = settings.servers.remove(index);
    settings.servers.insert(0, main_server);
    assert(servers_view(settings.servers@) =~= seq![servers_view(before)[index as int]] + servers_view(before).remove(index as int));
    Ok(true)
}


/// Whether `mask_key` can show `key`: keys of more than 8 bytes are cut 4
/// bytes from each end, which must fall between characters (and the byte
/// length of a string fits in `usize`).
pub open spec fn key_maskable(key: Seq<char>) -> bool {
    let b = encode_utf8(key);
    &&& b.len() <= usize::MAX
    &&& b.len() > 8 ==> is_char_boundary(b, 4) && is_char_boundary(b, b.len() - 4)
}

/// How a key is shown: as many asterisks as it has bytes when it has at most
/// 8 bytes, else its first 4 bytes, `...` and its last 4 bytes.
pub open spec fn masked(key: Seq<char>) -> Seq<char> {
    let b = encode_utf8(key);
    if b.len() <= 8 {
        repeat_char('*', b.len())
    } else {
        decode_utf8(b.take(4)) + seq!['.', '.', '.'] + decode_utf8(b.skip(b.len() - 4))
    }
}

/// The key as it is shown in listings.
pub fn mask_key(key: &str) -> (shown: String)
    requires
        key_maskable(key@),
    ensures
        shown@ == masked(key@),
{
    broadcast use encode_utf8_decode_utf8, encode_utf8_valid_utf8;
    let n = key.len();
    if n <= 8 {
        asterisks(n)
    } else {
        let (head, _) = key.split_at(4);
        let (_, tail) = key.split_at(n - 4);
        let mut shown = head.to_owned();
        proof { reveal_strlit("..."); }
        shown.append("...");
        shown.append(tail);
        assert(encode_utf8(key@).subrange(0, 4) =~= encode_utf8(key@).take(4));
        assert(encode_utf8(key@).subrange(n - 4, n as int) =~= encode_utf8(key@).skip(n - 4));
        shown
    }
}

/// Whether every key of `servers` can be shown.
pub open spec fn keys_maskable(servers: Seq<(Seq<char>, Seq<char>)>) -> bool {
    forall|i: int| 0 <= i < servers.len() ==> key_maskable(#[trigger] servers[i].1)
}

/// The line that lists the server at `index`.
pub open spec fn server_line(index: nat, server: (Seq<char>, Seq<char>)) -> Seq<char> {
    decimal(index) + seq![':', ' '] + server.0 + (if index == 0 { " (main)"@ } else { Seq::empty() })
        + " [key "@ + masked(server.1) + seq![']']
}

/// The heading of a listing and the lines of the first `count` servers.
pub open spec fn listing_prefix(servers: Seq<(Seq<char>, Seq<char>)>, count: nat) -> Seq<Seq<char>> {
    seq!["Configured servers:"@] + Seq::new(count, |i: int| server_line(i as nat, servers[i]))
}

/// The lines that list the servers.
pub open spec fn server_listing(servers: Seq<(Seq<char>, Seq<char>)>) -> Seq<Seq<char>> {
    if servers.len() == 0 {
        seq!["No servers configured."@]
    } else {
        listing_prefix(servers, servers.len())
    }
}

/// The text of each string of `lines`.
pub open spec fn lines_view(lines: Seq<String>) -> Seq<Seq<char>> {
    lines.map_values(|l: String| l@)
}

/// The heading of the listing of the configured servers and the lines of the
/// first `count` of them: what is shown before the server at `count`.
pub fn list_servers_before(settings: &AppConfig, count: usize) -> (lines: Vec<String>)
    requires
        settings@.servers.len() >= 1,
        count <= settings@.servers.len(),
        forall|i: int| 0 <= i < count ==> key_maskable(#[trigger] settings@.servers[i].1),
    ensures
        lines_view(lines@) == listing_prefix(settings@.servers, count as nat),
{
    let mut lines: Vec<String> = Vec::new();
    lines.push("Configured servers:".to_owned());
    let mut i: usize = 0;
    while i < count
        invariant
            i <= count,
            count <= settings@.servers.len(),
            forall|k: int| 0 <= k < count ==> key_maskable(#[trigger] settings@.servers[k].1),
            lines_view(lines@) =~= listing_prefix(settings@.servers, i as nat),
        decreases count - i,
    {
        let server = &settings.servers[i];
        assert(settings@.servers[i as int] == server_view(*server));
        assert(key_maskable(settings@.servers[i as int].1));
        let mut line = decimal_string(i);
        proof { reveal_strlit(": "); }
        line.append(": ");
        line.append(server.0.as_str());
        if i == 0 {
            line.append(" (main)");
        }
        line.append(" [key ");
        let shown = mask_key(server.1.as_str());
        line.append(shown.as_str());
        proof { reveal_strlit("]"); }
        line.append("]");
        assert(line@ =~= server_line(i as nat, settings@.servers[i as int]));
        let ghost prev = lines@;
        lines.push(line);
        assert(lines_view(lines@) =~= lines_view(prev).push(server_line(i as nat, settings@.servers[i as int])));
        i = i + 1;
    }
    lines
}

/// The lines that list the configured servers, keys masked, the main one
/// marked.
pub fn list_servers(settings: &AppConfig) -> (lines: Vec<String>)
    requires
        keys_maskable(settings@.servers),
    ensures
        lines_view(lines@) == server_listing(settings@.servers),
{
    let n = settings.servers.len();
    if n == 0 {
        let mut lines: Vec<String> = Vec::new();
        lines.push("No servers configured.".to_owned());
        assert(lines_view(lines@) =~= server_listing(settings@.servers));
        return lines;
    }
    list_servers_before(settings, n)
}

/// A change asked of the configuration.
pub enum ConfigCommand {
    /// List the configured servers.
    List,
    /// Add a server, as the main one when `main` holds.
    Add { url: String, key: String, main: bool },
    /// Remove the server at an index.
    Remove { index: usize },
    /// Make the server at an index the main one.
    Main { index: usize },
}

/// What a command did, for the caller to show and, but for a listing, to save.
pub enum ConfigEffect {
    /// The lines that list the servers; nothing changed.
    Listed(Vec<String>),
    /// A server was added under this URL.
    Added(String),
    /// This server was removed.
    Removed((String, String)),
    /// The main server was set; `true` when another server became main.
    MainSet(bool),
}

/// Applies `action` to the configuration.
pub fn change_config(settings: &mut AppConfig, action: ConfigCommand) -> (r: Result<ConfigEffect, ConfigError>)
    requires
        action is List ==> keys_maskable(old(settings)@.servers),
    ensures
        match action {
            ConfigCommand::List => {
                &&& r matches Ok(ConfigEffect::Listed(lines)) && lines_view(lines@) == server_listing(old(settings)@.servers)
                &&& final(settings)@ == old(settings)@
            },
            ConfigCommand::Add { url, key, main } => match r {
                Ok(effect) => {
                    &&& add_server_error(url@, key@) is None
                    &&& effect matches ConfigEffect::Added(stored) && stored@ == trim(url@)
                    &&& final(settings)@ == with_servers(old(settings)@, servers_after_add(old(settings)@.servers, url@, key@, main))
                },
                Err(e) => add_server_error(url@, key@) == Some(e) && final(settings)@ == old(settings)@,
            },
            ConfigCommand::Remove { index } => match r {
                Ok(effect) => {
                    &&& remove_server_check(old(settings)@.servers.len(), index) is Ok
                    &&& effect matches ConfigEffect::Removed(removed) && server_view(removed) == old(settings)@.servers[index as int]
                    &&& final(settings)@ == with_servers(old(settings)@, old(settings)@.servers.remove(index as int))
                },
                Err(e) => remove_server_check(old(settings)@.servers.len(), index) == Err::<(), ConfigError>(e)
                    && final(settings)@ == old(settings)@,
            },
            ConfigCommand::Main { index } => match r {
                Ok(effect) => {
                    &&& index_check(old(settings)@.servers.len(), index, ServerOperation::SetMain) is Ok
                    &&& effect == ConfigEffect::MainSet(index != 0)
                    &&& final(settings)@ == with_servers(old(settings)@, servers_after_set_main(old(settings)@.servers, index as int))
                },
                Err(e) => index_check(old(settings)@.servers.len(), index, ServerOperation::SetMain) == Err::<(), ConfigError>(e)
                    && final(settings)@ == old(settings)@,
            },
        },
{
    match action {
        ConfigCommand::List => Ok(ConfigEffect::Listed(list_servers(settings))),
        ConfigCommand::Add { url, key, main } => match add_server(settings, url, key, main) {
            Ok(stored) => Ok(ConfigEffect::Added(stored)),
            Err(e) => Err(e),
        },
        ConfigCommand::Remove { index } => match remove_server(settings, index) {
            Ok(removed) => Ok(ConfigEffect::Removed(removed)),
            Err(e) => Err(e),
        },
        ConfigCommand::Main { index } => match set_main_server(settings, index) {
            Ok(moved) => Ok(ConfigEffect::MainSet(moved)),
            Err(e) => Err(e),
        },
    }
}

/// Why the relay refuses to start with a configuration.
#[derive(PartialEq, Eq, Structural, Debug, Clone, Copy)]
pub enum StartupError {
    /// No server is configured.
    NoServers,
    /// The main server is still the placeholder of the default configuration.
    PlaceholderMainServer,
}

/// The URL of the placeholder server of the default configuration.
pub open spec fn placeholder_url() -> Seq<char> {
    "https://example.com"@
}

/// The verdict on starting the relay with servers `servers`.
pub open spec fn startup_check(servers: Seq<(Seq<char>, Seq<char>)>) -> Result<(), StartupError> {
    if servers.len() == 0 {
        Err(StartupError::NoServers)
    } else if servers[0].0 == placeholder_url() {
        Err(StartupError::PlaceholderMainServer)
    } else {
        Ok(())
    }
}

/// Checks that the relay can start: there is a main server, and it is not
/// the placeholder.
pub fn validate_startup(settings: &AppConfig) -> (r: Result<(), StartupError>)
    ensures
        r == startup_check(settings@.servers),
{
    if settings.servers.len() == 0 {
        return Err(StartupError::NoServers);
    }
    assert(settings@.servers[0].0 == settings.servers@[0].0@);
    if same_text(settings.servers[0].0.as_str(), "https://example.com") {
        return Err(StartupError::PlaceholderMainServer);
    }
    Ok(())
}

/// The URL at which the relay is reached when it listens on `host`.
pub open spec fn host_url(host: Seq<char>) -> Seq<char> {
    "http://"@ + host
}

/// The URL at which the relay is reached when it listens on `host`.
pub fn timesplit_host_url(host: &str) -> (url: String)
    ensures
        url@ == host_url(host@),
{
    let mut url = "http://".to_owned();
    url.append(host);
    url
}

/// The WakaTime configuration that sends the editor plugins to the relay
/// listening on `host`, with a placeholder key.
pub open spec fn wakatime_config(host: Seq<char>) -> Seq<char> {
    "[settings]\napi_url = \""@ + host_url(host)
        + "\"\napi_key = \"9542e1b0-59c3-4238-b51a-e4e4757038ad\"\nheartbeat_rate_limit_seconds = 30\n"@
}

/// The WakaTime configuration file's text for a relay listening on `host`.
pub fn wakatime_config_content(host: &str) -> (content: String)
    ensures
        content@ == wakatime_config(host@),
{
    let mut content = "[settings]\napi_url = \"".to_owned();
    let url = timesplit_host_url(host);
    content.append(url.as_str());
    content.append("\"\napi_key = \"9542e1b0-59c3-4238-b51a-e4e4757038ad\"\nheartbeat_rate_limit_seconds = 30\n");
    content
}

} // verus!
