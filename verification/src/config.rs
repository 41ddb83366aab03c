//! Remote-endpoint configuration: the content server, this client's id and
//! its OAuth redirect URI.

use vstd::prelude::*;
use crate::errors::Error;

verus! {

/// Where and as whom the account talks to its servers.
pub struct Config {
    pub content_url: String,
    pub client_id: String,
    pub redirect_uri: String,
}

/// What joining a path and appending one query pair onto a base URL returns:
/// a function of the four texts alone (url's parsing, joining and query
/// serialization).
pub uninterp spec fn url_with_path_and_query(
    base: Seq<char>,
    path: Seq<char>,
    key: Seq<char>,
    value: Seq<char>,
) -> Option<Seq<char>>;

/// Relies on url::Url::parse, Url::join and UrlQuery's append_pair: parse the
/// base, join the relative path, append one query pair, and render the URL.
#[verifier::external_body]
fn build_url_with_query(base: &str, path: &str, key: &str, value: &str) -> (r: Result<
    String,
    Error,
>)
    ensures
        r is Ok <==> url_with_path_and_query(base@, path@, key@, value@) is Some,
        r is Ok ==> r.unwrap()@ == url_with_path_and_query(base@, path@, key@, value@).unwrap(),
        r is Err ==> r.unwrap_err() is IllegalState,
{
    let mut url = url::Url::parse(base)
        .and_then(|u| u.join(path))
        .map_err(|_e| Error::IllegalState(String::from("malformed base url")))?;
    url.query_pairs_mut().append_pair(key, value);
    Ok(String::from(url))
}

/// What joining a relative path onto a base URL returns: a function of the
/// two texts alone (url's parsing and joining).
pub uninterp spec fn url_with_path(base: Seq<char>, path: Seq<char>) -> Option<Seq<char>>;

/// Relies on url::Url::parse and Url::join: parse the base, join the
/// relative path, and render the URL.
#[verifier::external_body]
fn build_url_with_path(base: &str, path: &str) -> (r: Result<String, Error>)
    ensures
        r is Ok <==> url_with_path(base@, path@) is Some,
        r is Ok ==> r.unwrap()@ == url_with_path(base@, path@).unwrap(),
        r is Err ==> r.unwrap_err() is IllegalState,
{
    let url = url::Url::parse(base)
        .and_then(|u| u.join(path))
        .map_err(|_e| Error::IllegalState(String::from("malformed base url")))?;
    Ok(String::from(url))
}

impl Config {
    /// A configuration from its three parts.
    pub fn new(content_url: &str, client_id: &str, redirect_uri: &str) -> (r: Config)
        ensures
            r.content_url@ == content_url@,
            r.client_id@ == client_id@,
            r.redirect_uri@ == redirect_uri@,
    {
        Config {
            content_url: String::from_str(content_url),
            client_id: String::from_str(client_id),
            redirect_uri: String::from_str(redirect_uri),
        }
    }

    /// A URL under the content server.
    pub fn content_url_path(&self, path: &str) -> (r: Result<String, Error>)
        ensures
            r is Ok <==> url_with_path(self.content_url@, path@) is Some,
            r is Ok ==> r.unwrap()@ == url_with_path(self.content_url@, path@).unwrap(),
    {
        build_url_with_path(self.content_url.as_str(), path)
    }

    /// The token-server endpoint used for sync storage. This library carries
    /// no remotely fetched configuration, so the token server is addressed
    /// under the content server.
    pub fn token_server_endpoint_url(&self) -> (r: Result<String, Error>)
        ensures
            r is Ok <==> url_with_path(self.content_url@, "token/1.0/sync/1.5"@) is Some,
            r is Ok ==> r.unwrap()@ == url_with_path(
                self.content_url@,
                "token/1.0/sync/1.5"@,
            ).unwrap(),
    {
        self.content_url_path("token/1.0/sync/1.5")
    }

    /// A URL under the content server with one query pair appended.
    pub fn content_url_path_with_query(&self, path: &str, key: &str, value: &str) -> (r: Result<
        String,
        Error,
    >)
        ensures
            r is Ok <==> url_with_path_and_query(self.content_url@, path@, key@, value@) is Some,
            r is Ok ==> r.unwrap()@ == url_with_path_and_query(
                self.content_url@,
                path@,
                key@,
                value@,
            ).unwrap(),
    {
        build_url_with_query(self.content_url.as_str(), path, key, value)
    }
}

} // verus!
