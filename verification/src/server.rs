//! How the server is set up, and the answer that says it is well.

use vstd::prelude::*;

use crate::number::{parse_u16, read_between};
use crate::outside::{is_utc_time, read_clock};
use crate::split::{pieces, split};
use crate::text::{add_text, same, starts, starts_with, strip_prefix, texts, trim, trimmed};

verus! {

/// The origins that may call the server from a browser.
#[derive(Debug)]
pub enum Origins {
    /// Every origin.
    Any,
    /// These origins.
    Listed(Vec<String>),
}

/// What an [`Origins`] holds: the listed origins, or none for every origin.
impl View for Origins {
    type V = Option<Seq<Seq<char>>>;

    open spec fn view(&self) -> Option<Seq<Seq<char>>> {
        match *self {
            Origins::Any => None,
            Origins::Listed(list) => Some(texts(list@)),
        }
    }
}

/// The state of the server.
#[derive(Debug)]
pub struct Health {
    /// `ok`.
    pub status: String,
    /// The time of the answer.
    pub timestamp: String,
}

/// The text that was configured, or one that stands in for it.
pub open spec fn configured_text(configured: Option<String>, otherwise: Seq<char>) -> Seq<char> {
    match configured {
        Some(text) => text@,
        None => otherwise,
    }
}

/// The origins that a list separated by commas names, without the white space
/// around them; a star alone, or no list, is every origin.
pub open spec fn origins_in(configured: Option<String>) -> Option<Seq<Seq<char>>> {
    let text = configured_text(configured, "*"@);
    if text == "*"@ {
        None
    } else {
        Some(pieces(text, ',').map_values(|origin: Seq<char>| trimmed(origin)))
    }
}

/// The origins that may call the server from a browser.
pub fn allowed_origins(configured: &Option<String>) -> (origins: Origins)
    ensures
        origins@ == origins_in(*configured),
{
    let text: &str = match configured {
        Some(text) => text.as_str(),
        None => "*",
    };
    if same(text, "*") {
        return Origins::Any;
    }
    let parts = split(text, ',');
    let ghost all = pieces(text@, ',').map_values(|origin: Seq<char>| trimmed(origin));
    let mut list: Vec<String> = Vec::new();
    for i in 0..parts.len()
        invariant
            texts(parts@) == pieces(text@, ','),
            all == pieces(text@, ',').map_values(|origin: Seq<char>| trimmed(origin)),
            texts(list@) =~= all.take(i as int),
    {
        assert(texts(parts@)[i as int] == parts@[i as int]@);
        let origin = trim(parts[i].as_str());
        add_text(&mut list, origin.as_str());
        assert(all.take(i + 1) =~= all.take(i as int).push(all[i as int]));
    }
    assert(texts(parts@).len() == parts@.len());
    assert(all.take(parts@.len() as int) =~= all);
    Origins::Listed(list)
}

/// The port that a text names, 6025 where there is none; no port where the text
/// is not a port number.
pub open spec fn port_in(configured: Option<String>) -> Option<int> {
    read_between(configured_text(configured, "6025"@), false, 0, u16::MAX as int)
}

/// The token behind `Bearer `, if a header starts with that.
pub open spec fn token_in(header: Seq<char>) -> Option<Seq<char>> {
    if starts(header, "Bearer "@) {
        Some(header.skip("Bearer "@.len() as int))
    } else {
        None
    }
}

/// The port that the server listens on: 6025 unless another is configured.
/// There is none where the configured text is not a port number.
pub fn port_of(configured: &Option<String>) -> (port: Option<u16>)
    ensures
        match port {
            Some(n) => port_in(*configured) == Some(n as int),
            None => port_in(*configured) is None,
        },
{
    let text: &str = match configured {
        Some(text) => text.as_str(),
        None => "6025",
    };
    parse_u16(text)
}

/// The time now.
pub fn now() -> (time: String)
    ensures
        is_utc_time(time@),
{
    read_clock()
}

/// `GET /health`: the server is well.
pub fn health() -> (health: Health)
    ensures
        health.status@ == "ok"@,
        is_utc_time(health.timestamp@),
{
    Health { status: "ok".to_owned(), timestamp: read_clock() }
}

/// The token in an `Authorization` header, if it holds one.
pub fn bearer_token(header: &str) -> (token: Option<String>)
    ensures
        match token {
            Some(t) => token_in(header@) == Some(t@) && header@ == "Bearer "@ + t@,
            None => token_in(header@) is None && !starts(header@, "Bearer "@),
        },
{
    if starts_with(header, "Bearer ") {
        let token = strip_prefix(header, "Bearer ");
        assert("Bearer "@ + token@ =~= header@);
        assert(token@ =~= header@.skip("Bearer "@.len() as int));
        Some(token)
    } else {
        None
    }
}

} // verus!
