//! Where the experiment list is fetched from. The request itself is made by
//! the host; the library builds its address and judges its response status.
use vstd::prelude::*;
use crate::config::Config;
use crate::error::Error;

verus! {

/// Base URL of the settings server when the host gives none.
pub const DEFAULT_BASE_URL: &'static str = "https://settings.stage.mozaws.net";

/// Bucket holding the experiments when the host names none.
pub const DEFAULT_BUCKET_NAME: &'static str = "main";

/// Collection holding the experiments when the host names none.
pub const DEFAULT_COLLECTION_NAME: &'static str = "messaging-experiment";

/// `url::Url`, carried through unopened.
#[verifier::external_type_specification]
#[verifier::external_body]
pub struct ExUrl(url::Url);

/// `url::ParseError`, mapped to [`Error::InvalidUrl`].
#[verifier::external_type_specification]
#[verifier::external_body]
pub struct ExParseError(url::ParseError);

/// Whether `url::Url::parse` accepts `s` as an absolute URL.
pub uninterp spec fn url_accepts(s: Seq<char>) -> bool;

/// Relies on `url::Url::parse`: whether it accepts the text depends on the
/// text alone.
#[verifier::external_body]
fn parse_url(s: &str) -> (r: Result<url::Url, url::ParseError>)
    ensures
        r is Ok == url_accepts(s@),
{
    url::Url::parse(s)
}

/// Whether `url::Url::join` accepts `path` against the base URL that
/// `url::Url::parse` reads from `base`.
pub uninterp spec fn url_join_accepts(base: Seq<char>, path: Seq<char>) -> bool;

/// Relies on `url::Url::parse` and `url::Url::join`: parses `base_text`,
/// then resolves `path` against it; whether it succeeds depends on the two
/// texts alone.
#[verifier::external_body]
fn join_url(base_text: &str, path: &str) -> (r: Result<url::Url, url::ParseError>)
    ensures
        r is Ok == url_join_accepts(base_text@, path@),
{
    match url::Url::parse(base_text) {
        Ok(base) => base.join(path),
        Err(e) => Err(e),
    }
}

/// The text of an optional setting, or `default` when it is absent.
pub open spec fn setting_or(value: Option<Config>, pick: spec_fn(Config) -> Option<String>, default: Seq<char>) -> Seq<char> {
    match value {
        Some(c) => match pick(c) {
            Some(s) => s@,
            None => default,
        },
        None => default,
    }
}

/// The base URL text that `config` selects.
pub open spec fn base_url_text(config: Option<Config>) -> Seq<char> {
    setting_or(config, |c: Config| c.server_url, DEFAULT_BASE_URL@)
}

/// The bucket name that `config` selects.
pub open spec fn bucket_text(config: Option<Config>) -> Seq<char> {
    setting_or(config, |c: Config| c.bucket_name, DEFAULT_BUCKET_NAME@)
}

/// The collection name that `config` selects.
pub open spec fn collection_text(config: Option<Config>) -> Seq<char> {
    setting_or(config, |c: Config| c.collection_name, DEFAULT_COLLECTION_NAME@)
}

/// The path of the records of `collection` in `bucket`, relative to the base URL.
pub open spec fn records_path_of(bucket: Seq<char>, collection: Seq<char>) -> Seq<char> {
    "buckets/"@ + bucket + "/collections/"@ + collection + "/records"@
}

/// Whether a response with HTTP status `status` carries a usable body:
/// any success, or "not modified".
pub open spec fn status_accepted(status: u16) -> bool {
    200 <= status < 300 || status == 304
}

/// Whether a response with HTTP status `status` is accepted.
pub fn is_acceptable_status(status: u16) -> (r: bool)
    ensures
        r == status_accepted(status),
{
    (200 <= status && status < 300) || status == 304
}

fn setting_text(value: Option<String>, default: &str) -> (r: String)
    ensures
        r@ == match value {
            Some(s) => s@,
            None => default@,
        },
{
    match value {
        Some(s) => s,
        None => String::from_str(default),
    }
}

/// The settings server's address for the experiment list.
#[derive(Debug)]
pub struct Client {
    base_text: String,
    bucket_name: String,
    collection_name: String,
}

impl Client {
    /// The base URL text this client parsed.
    pub closed spec fn base(&self) -> Seq<char> {
        self.base_text@
    }

    /// The bucket this client reads.
    pub closed spec fn bucket(&self) -> Seq<char> {
        self.bucket_name@
    }

    /// The collection this client reads.
    pub closed spec fn collection(&self) -> Seq<char> {
        self.collection_name@
    }

    fn get_params_from_config(config: Option<Config>) -> (r: Result<(String, String, String), Error>)
        ensures
            r is Ok == url_accepts(base_url_text(config)),
            r matches Err(e) ==> e == Error::InvalidUrl,
            r matches Ok(t) ==> t.0@ == base_url_text(config) && t.1@ == bucket_text(config) && t.2@
                == collection_text(config),
    {
        let (server_url, bucket_name, collection_name) = match config {
            Some(c) => (c.server_url, c.bucket_name, c.collection_name),
            None => (None, None, None),
        };
        let base = setting_text(server_url, DEFAULT_BASE_URL);
        let bucket = setting_text(bucket_name, DEFAULT_BUCKET_NAME);
        let collection = setting_text(collection_name, DEFAULT_COLLECTION_NAME);
        match parse_url(base.as_str()) {
            Ok(_) => Ok((base, bucket, collection)),
            Err(_) => Err(Error::InvalidUrl),
        }
    }

    /// A client for the server, bucket and collection that `config` names,
    /// each falling back to its default. Fails when the base URL does not
    /// parse.
    pub fn new(config: Option<Config>) -> (r: Result<Self, Error>)
        ensures
            r is Ok == url_accepts(base_url_text(config)),
            r matches Err(e) ==> e == Error::InvalidUrl,
            r matches Ok(c) ==> c.bucket() == bucket_text(config) && c.collection() == collection_text(config)
                && c.base() == base_url_text(config),
    {
        let (base_text, bucket_name, collection_name) = Self::get_params_from_config(config)?;
        Ok(Client { base_text, bucket_name, collection_name })
    }

    /// The path of the experiment records, relative to the base URL.
    pub fn records_path(&self) -> (r: String)
        ensures
            r@ == records_path_of(self.bucket(), self.collection()),
    {
        let mut path = String::from_str("buckets/");
        path.append(self.bucket_name.as_str());
        path.append("/collections/");
        path.append(self.collection_name.as_str());
        path.append("/records");
        path
    }

    /// The full URL of the experiment records.
    pub fn records_url(&self) -> (r: Result<url::Url, Error>)
        ensures
            r is Ok == url_join_accepts(self.base(), records_path_of(self.bucket(), self.collection())),
            r matches Err(e) ==> e == Error::InvalidUrl,
    {
        let path = self.records_path();
        match join_url(self.base_text.as_str(), path.as_str()) {
            Ok(u) => Ok(u),
            Err(_) => Err(Error::InvalidUrl),
        }
    }
}

} // verus!
