use vstd::prelude::*;
use ini::{Ini, Properties};
use crate::config::{host_url, servers_view, timesplit_host_url, with_servers, AppConfig, AppConfigView};
use crate::text::same_text;

verus! {

#[verifier::external_type_specification]
#[verifier::external_body]
pub struct ExIni(Ini);

#[verifier::external_type_specification]
#[verifier::external_body]
pub struct ExProperties(Properties);

/// The properties of a section, in the order the document gives them: each
/// key with its value.
pub type PropertyEntries = Seq<(Seq<char>, Seq<char>)>;

/// The sections of an INI document, in order: each with its name (`None` for
/// the section before any header) and its properties.
pub type SectionEntries = Seq<(Option<Seq<char>>, PropertyEntries)>;

/// What an `Ini` holds: its sections in insertion order.
pub uninterp spec fn ini_sections(ini: Ini) -> SectionEntries;

/// What a `Properties` holds: its key and value pairs in insertion order.
pub uninterp spec fn property_entries(properties: Properties) -> PropertyEntries;

/// The sections that `Ini::load_from_str` reads from `text` with the default
/// options, or `None` where it gives a parse error.
pub uninterp spec fn ini_parse(text: Seq<char>) -> Option<SectionEntries>;

/// Where and why a text is not an INI document, as the parser reports it:
/// line, column and message.
#[derive(PartialEq, Eq, Debug)]
pub struct ParseFailure {
    pub line: usize,
    pub col: usize,
    pub message: String,
}

/// `Ini::load_from_str`: parses `text` as an INI document. Claimed: the
/// result is `Ok` exactly when the parse succeeds, and then holds the
/// sections that the name `ini_parse` gives for the text; the parse itself is
/// left to that name. Nothing is claimed of the position and message of a
/// parse error, which are the parser's fields moved over.
#[verifier::external_body]
fn ini_load(text: &str) -> (ini: Result<Ini, ParseFailure>)
    ensures
        ini is Ok <==> ini_parse(text@) is Some,
        ini matches Ok(doc) ==> Some(ini_sections(doc)) == ini_parse(text@),
{
    match Ini::load_from_str(text) {
        Ok(doc) => Ok(doc),
        Err(e) => Err(ParseFailure { line: e.line, col: e.col, message: e.msg.into_owned() }),
    }
}

/// The properties of the first section called `name`, if any.
pub open spec fn first_section(sections: SectionEntries, name: Seq<char>) -> Option<PropertyEntries>
    decreases sections.len(),
{
    if sections.len() == 0 {
        None
    } else if sections[0].0 == Some(name) {
        Some(sections[0].1)
    } else {
        first_section(sections.drop_first(), name)
    }
}

/// The value of the first property called `key`, if any.
pub open spec fn first_property(properties: PropertyEntries, key: Seq<char>) -> Option<Seq<char>>
    decreases properties.len(),
{
    if properties.len() == 0 {
        None
    } else if properties[0].0 == key {
        Some(properties[0].1)
    } else {
        first_property(properties.drop_first(), key)
    }
}

/// `Ini::section(Some(name))`. Claimed, as the crate's source shows (a
/// lookup of the first section of that exact name in an insertion-ordered
/// multimap): the properties of the first section called `name`, if any.
#[verifier::external_body]
fn ini_section<'a>(ini: &'a Ini, name: &str) -> (section: Option<&'a Properties>)
    ensures
        match section {
            Some(p) => first_section(ini_sections(*ini), name@) == Some(property_entries(*p)),
            None => first_section(ini_sections(*ini), name@) is None,
        },
{
    ini.section(Some(name))
}

/// `Properties::get`. Claimed, as the crate's source shows (the first value,
/// by insertion order, of that exact key): the value of the first property
/// called `key`, if any.
#[verifier::external_body]
fn property_value<'a>(properties: &'a Properties, key: &str) -> (value: Option<&'a str>)
    ensures
        match value {
            Some(v) => first_property(property_entries(*properties), key@) == Some(v@),
            None => first_property(property_entries(*properties), key@) is None,
        },
{
    properties.get(key)
}

/// Why the WakaTime configuration gives no server settings.
#[derive(PartialEq, Eq, Debug)]
pub enum WakatimeConfigError {
    /// The text is not an INI document; the parser's report.
    Unparsable(ParseFailure),
    /// The document has no `[settings]` section.
    NoSettingsSection,
}

/// Why the WakaTime configuration gives no server settings, without the
/// parser's report.
#[derive(PartialEq, Eq, Structural, Debug, Clone, Copy)]
pub enum SettingsFailure {
    Unparsable,
    NoSettingsSection,
}

/// The kind of a failure to read the settings.
pub open spec fn failure_kind(e: WakatimeConfigError) -> SettingsFailure {
    match e {
        WakatimeConfigError::Unparsable(_) => SettingsFailure::Unparsable,
        WakatimeConfigError::NoSettingsSection => SettingsFailure::NoSettingsSection,
    }
}

/// The server URL and key of a WakaTime configuration with these sections:
/// `api_url` and `api_key` of the first `[settings]` section, when both are
/// there.
pub open spec fn settings_of_sections(sections: SectionEntries) -> Result<Option<(Seq<char>, Seq<char>)>, SettingsFailure> {
    match first_section(sections, "settings"@) {
        None => Err(SettingsFailure::NoSettingsSection),
        Some(properties) => match (first_property(properties, "api_url"@), first_property(properties, "api_key"@)) {
            (Some(url), Some(key)) => Ok(Some((url, key))),
            _ => Ok(None),
        },
    }
}

/// The text of found settings.
pub open spec fn settings_view(r: Result<Option<(String, String)>, WakatimeConfigError>) -> Result<Option<(Seq<char>, Seq<char>)>, SettingsFailure> {
    match r {
        Ok(Some(pair)) => Ok(Some((pair.0@, pair.1@))),
        Ok(None) => Ok(None),
        Err(e) => Err(failure_kind(e)),
    }
}

/// The server URL and key that a parsed WakaTime configuration names.
pub fn wakatime_settings(ini: &Ini) -> (r: Result<Option<(String, String)>, WakatimeConfigError>)
    ensures
        settings_view(r) == settings_of_sections(ini_sections(*ini)),
{
    match ini_section(ini, "settings") {
        None => Err(WakatimeConfigError::NoSettingsSection),
        Some(section) => {
            let url = property_value(section, "api_url");
            let key = property_value(section, "api_key");
            match (url, key) {
                (Some(u), Some(k)) => Ok(Some((u.to_owned(), k.to_owned()))),
                _ => Ok(None),
            }
        },
    }
}

/// The text without the byte order mark it may start with.
pub open spec fn without_bom(text: Seq<char>) -> Seq<char> {
    if text.len() > 0 && text[0] == '\u{feff}' {
        text.drop_first()
    } else {
        text
    }
}

/// The server URL and key that the text of a WakaTime configuration names.
pub open spec fn settings_of_text(text: Seq<char>) -> Result<Option<(Seq<char>, Seq<char>)>, SettingsFailure> {
    match ini_parse(without_bom(text)) {
        None => Err(SettingsFailure::Unparsable),
        Some(sections) => settings_of_sections(sections),
    }
}

/// Reads the server URL and key from the text of a WakaTime configuration
/// file, as `Ini::load_from_file` would read the file.
pub fn read_wakatime_settings(config_text: &str) -> (r: Result<Option<(String, String)>, WakatimeConfigError>)
    ensures
        settings_view(r) == settings_of_text(config_text@),
{
    let n = config_text.unicode_len();
    let body = if n > 0 && config_text.get_char(0) == '\u{feff}' {
        config_text.substring_char(1, n)
    } else {
        config_text.substring_char(0, n)
    };
    assert(body@ =~= without_bom(config_text@));
    match ini_load(body) {
        Err(failure) => Err(WakatimeConfigError::Unparsable(failure)),
        Ok(ini) => wakatime_settings(&ini),
    }
}

/// What taking the main server from the WakaTime configuration did.
#[derive(PartialEq, Eq, Structural, Debug, Clone, Copy)]
pub enum SyncOutcome {
    /// The WakaTime configuration names no server.
    NoLegacySettings,
    /// The WakaTime configuration points to the relay already.
    AlreadyRelayed,
    /// The URL or the key in the WakaTime configuration is empty.
    EmptyLegacyValues,
    /// The main server is now the one of the WakaTime configuration.
    MainServerUpdated,
}

/// The outcome of taking the server `legacy` as main server.
pub open spec fn sync_outcome(host: Seq<char>, legacy: Option<(Seq<char>, Seq<char>)>) -> SyncOutcome {
    match legacy {
        None => SyncOutcome::NoLegacySettings,
        Some((url, key)) => if url == host_url(host) {
            SyncOutcome::AlreadyRelayed
        } else if url.len() == 0 || key.len() == 0 {
            SyncOutcome::EmptyLegacyValues
        } else {
            SyncOutcome::MainServerUpdated
        },
    }
}

/// The servers with `server` as the main one: in place of the main server, or
/// alone when there was none.
pub open spec fn servers_with_main(servers: Seq<(Seq<char>, Seq<char>)>, server: (Seq<char>, Seq<char>)) -> Seq<(Seq<char>, Seq<char>)> {
    if servers.len() == 0 {
        seq![server]
    } else {
        servers.update(0, server)
    }
}

/// The configuration after taking the server `legacy` as main server.
pub open spec fn synced_config(config: AppConfigView, legacy: Option<(Seq<char>, Seq<char>)>) -> AppConfigView {
    match legacy {
        Some(server) => if sync_outcome(config.host, legacy) == SyncOutcome::MainServerUpdated {
            with_servers(config, servers_with_main(config.servers, server))
        } else {
            config
        },
        None => config,
    }
}

/// The text of a server given as a pair of strings, if any.
pub open spec fn legacy_view(legacy: Option<(String, String)>) -> Option<(Seq<char>, Seq<char>)> {
    match legacy {
        Some(pair) => Some((pair.0@, pair.1@)),
        None => None,
    }
}

/// Makes the server that the WakaTime configuration named, `legacy`, the main
/// server, unless it is the relay itself or has an empty URL or key.
pub fn sync_main_server_from_wakatime(settings: &mut AppConfig, legacy: Option<(String, String)>) -> (outcome: SyncOutcome)
    ensures
        outcome == sync_outcome(old(settings)@.host, legacy_view(legacy)),
        final(settings)@ == synced_config(old(settings)@, legacy_view(legacy)),
{
    let (legacy_url, legacy_key) = match legacy {
        None => return SyncOutcome::NoLegacySettings,
        Some(pair) => pair,
    };
    let relay_url = timesplit_host_url(settings.host.as_str());
    if same_text(legacy_url.as_str(), relay_url.as_str()) {
        return SyncOutcome::AlreadyRelayed;
    }
    if legacy_url.as_str().is_empty() || legacy_key.as_str().is_empty() {
        return SyncOutcome::EmptyLegacyValues;
    }
    let ghost before = settings.servers@;
    let ghost server = (legacy_url@, legacy_key@);
    if settings.servers.len() == 0 {
        settings.servers.push((legacy_url, legacy_key));
        assert(servers_view(settings.servers@) =~= seq![server]);
    } else {
        settings.servers.set(0, (legacy_url, legacy_key));
        assert(servers_view(settings.servers@) =~= servers_view(before).update(0, server));
    }
    SyncOutcome::MainServerUpdated
}

} // verus!
