use vstd::prelude::*;
use axum::http::{HeaderMap, HeaderValue};
use crate::text::{ascii_lower, header_text, header_value_text};

verus! {

/// The name under which the relay presents itself to the servers.
pub const NAME: &'static str = "timesplit";

/// The version under which the relay presents itself to the servers: the
/// version of this package, kept equal to the one in `Cargo.toml`.
pub const VERSION: &'static str = "0.1.0";

#[verifier::external_type_specification]
#[verifier::external_body]
#[verifier::reject_recursive_types(T)]
pub struct ExHeaderMap<T>(HeaderMap<T>);

#[verifier::external_type_specification]
#[verifier::external_body]
pub struct ExHeaderValue(HeaderValue);

/// What a `HeaderMap` holds: for each header name, in lower case as
/// `HeaderName` stores it, the bytes of its values in the order they were
/// added.
pub uninterp spec fn header_map_contents(headers: HeaderMap) -> Map<Seq<char>, Seq<Seq<u8>>>;

/// `s` with its ASCII letters in lower case.
pub open spec fn lower_text(s: Seq<char>) -> Seq<char> {
    s.map_values(|c: char| ascii_lower(c))
}

/// A header name of 1 to 64 ASCII letters, digits and `-`, which `HeaderMap`
/// looks up by its lower-case form.
pub open spec fn is_plain_header_name(name: Seq<char>) -> bool {
    &&& 1 <= name.len() <= 64
    &&& forall|i: int| 0 <= i < name.len() ==> {
        let c = #[trigger] name[i];
        ||| ('a' <= c && c <= 'z')
        ||| ('A' <= c && c <= 'Z')
        ||| ('0' <= c && c <= '9')
        ||| c == '-'
    }
}

/// The first value of the header called `name`, if there is one.
pub open spec fn first_header_value(headers: Map<Seq<char>, Seq<Seq<u8>>>, name: Seq<char>) -> Option<Seq<u8>> {
    let key = lower_text(name);
    if headers.contains_key(key) && headers[key].len() > 0 {
        Some(headers[key][0])
    } else {
        None
    }
}

/// `HeaderMap::get` with a `&str` name, then `HeaderValue::as_bytes`.
/// Claimed, as the crate's source shows (the name is parsed through a table
/// that lower-cases ASCII letters, and the first value of that name is
/// given): the bytes of the first value of the header called `name`, if any.
/// Claimed only of names of ASCII letters, digits and `-` of at most 64
/// characters, which `requires` asks.
#[verifier::external_body]
fn header_map_get<'a>(headers: &'a HeaderMap, name: &str) -> (value: Option<&'a [u8]>)
    requires
        is_plain_header_name(name@),
    ensures
        match value {
            Some(bytes) => first_header_value(header_map_contents(*headers), name@) == Some(bytes@),
            None => first_header_value(header_map_contents(*headers), name@) is None,
        },
{
    match headers.get(name) {
        Some(v) => Some(v.as_bytes()),
        None => None,
    }
}

/// `HeaderMap::remove` with a `&str` name. Claimed, as the crate's source
/// shows (all values of the name are taken out): the headers lose every value
/// of the lower-cased `name` and keep the others. Claimed only of names of
/// ASCII letters, digits and `-` of at most 64 characters, which `requires`
/// asks.
#[verifier::external_body]
fn header_map_remove(headers: &mut HeaderMap, name: &str)
    requires
        is_plain_header_name(name@),
    ensures
        header_map_contents(*final(headers)) == header_map_contents(*old(headers)).remove(lower_text(name@)),
{
    headers.remove(name);
}

/// `HeaderMap::clone` (derived). Claimed: the copy holds the same headers.
#[verifier::external_body]
fn header_map_clone(headers: &HeaderMap) -> (copy: HeaderMap)
    ensures
        header_map_contents(copy) == header_map_contents(*headers),
{
    headers.clone()
}

/// A copy of the headers.
pub fn copy_headers(headers: &HeaderMap) -> (copy: HeaderMap)
    ensures
        header_map_contents(copy) == header_map_contents(*headers),
{
    header_map_clone(headers)
}

/// Takes out every value of the header called `name`, a name of ASCII
/// letters, digits and `-` of at most 64 characters.
pub fn remove_header(headers: &mut HeaderMap, name: &str)
    requires
        is_plain_header_name(name@),
    ensures
        header_map_contents(*final(headers)) == header_map_contents(*old(headers)).remove(lower_text(name@)),
{
    header_map_remove(headers, name);
}

/// The user agent that the client sent: the first `User-Agent` header read
/// as text, or `Unknown` when there is none or it does not read as text.
pub open spec fn client_user_agent(headers: Map<Seq<char>, Seq<Seq<u8>>>) -> Seq<char> {
    match first_header_value(headers, "User-Agent"@) {
        Some(value) => match header_text(value) {
            Some(text) => text,
            None => "Unknown"@,
        },
        None => "Unknown"@,
    }
}

/// The product token of the relay: its name, `/` and its version.
pub open spec fn product_token() -> Seq<char> {
    NAME@ + seq!['/'] + VERSION@
}

/// The user agent forwarded to the servers: the client's, a space, and the
/// relay's product token.
pub open spec fn modified_user_agent(headers: Map<Seq<char>, Seq<Seq<u8>>>) -> Seq<char> {
    client_user_agent(headers) + seq![' '] + product_token()
}

/// The user agent to forward for a request that came with `headers`.
pub fn get_modified_user_agent(headers: &HeaderMap) -> (agent: String)
    ensures
        agent@ == modified_user_agent(header_map_contents(*headers)),
{
    proof {
        reveal_strlit("User-Agent");
    }
    assert(is_plain_header_name("User-Agent"@));
    let client = match header_map_get(headers, "User-Agent") {
        Some(value) => match header_value_text(value) {
            Some(text) => text,
            None => "Unknown".to_owned(),
        },
        None => "Unknown".to_owned(),
    };
    let mut agent = client;
    proof {
        reveal_strlit(" ");
        reveal_strlit("/");
    }
    agent.append(" ");
    agent.append(NAME);
    agent.append("/");
    agent.append(VERSION);
    agent
}

} // verus!
