//! Process configuration: the settings record, the parsing and defaulting
//! rules that build it from raw textual values, and the checks callers
//! make against it. Reading the environment itself is the caller's part;
//! this module turns the raw values into a validated [`Config`].

use vstd::prelude::*;
use base64::Engine;
use crate::text::chars_of;
use crate::text::has_suffix;
use crate::text::is_suffix_of;
use crate::text::parse_u64;
use crate::text::push_chars;
use crate::text::spec_parse_u64;
use crate::text::spec_split_on;
use crate::text::split_on;
use crate::text::str_eq;
use crate::text::string_from_chars;

verus! {

/// A failure to assemble a configuration from raw values.
#[derive(Debug, Clone, PartialEq, Eq)]
pub enum ConfigError {
    /// A required value is absent.
    MissingEnvVar(String),
    /// The port value is not a valid port number.
    InvalidPort(String),
    /// A yes/no setting holds neither `true` nor `false`.
    InvalidBool(String, String),
    /// A numeric setting does not parse.
    InvalidNumber(String, String),
}

/// The validated settings of the service.
#[derive(Debug, Clone)]
pub struct Config {
    pub sparql_endpoint: String,
    pub sparql_update_endpoint: Option<String>,
    pub sparql_username: Option<String>,
    pub sparql_password: Option<String>,
    pub sparql_password_hashed: Option<String>,
    pub host: String,
    pub port: u16,
    pub cors_enabled: bool,
    pub max_payload_size: usize,
    pub verify_ssl: bool,
    pub timeout_seconds: u64,
    pub max_retries: u32,
    pub cache_enabled: bool,
    pub cache_ttl_seconds: u64,
    pub cache_max_entries: usize,
    pub enable_auth: bool,
    pub api_key: Option<String>,
    pub allowed_origins: Vec<String>,
    pub graph_max_nodes: usize,
    pub graph_max_edges: usize,
    pub graph_expansion_limit: usize,
    pub graph_search_limit: usize,
}

/// The raw textual values a configuration is assembled from, each absent
/// or present as found in the process environment.
pub struct RawConfig {
    pub sparql_endpoint: Option<String>,
    pub sparql_update_endpoint: Option<String>,
    pub sparql_username: Option<String>,
    pub sparql_password: Option<String>,
    pub sparql_password_hashed: Option<String>,
    pub host: Option<String>,
    pub port: Option<String>,
    pub cors_enabled: Option<String>,
    pub max_payload_size: Option<String>,
    pub verify_ssl: Option<String>,
    pub timeout_seconds: Option<String>,
    pub max_retries: Option<String>,
    pub cache_enabled: Option<String>,
    pub cache_ttl_seconds: Option<String>,
    pub cache_max_entries: Option<String>,
    pub enable_auth: Option<String>,
    pub api_key: Option<String>,
    pub allowed_origins: Option<String>,
    pub graph_max_nodes: Option<String>,
    pub graph_max_edges: Option<String>,
    pub graph_expansion_limit: Option<String>,
    pub graph_search_limit: Option<String>,
}

/// The boolean a text denotes: exactly `true` or `false`.
pub open spec fn spec_parse_bool(s: Seq<char>) -> Option<bool> {
    if s == "true"@ {
        Some(true)
    } else if s == "false"@ {
        Some(false)
    } else {
        None
    }
}

/// Parses a boolean, as `spec_parse_bool` describes.
pub fn parse_bool(s: &str) -> (r: Option<bool>)
    ensures
        r == spec_parse_bool(s@),
{
    if str_eq(s, "true") {
        Some(true)
    } else if str_eq(s, "false") {
        Some(false)
    } else {
        None
    }
}

/// The suffix that marks a query endpoint.
pub open spec fn spec_query_suffix() -> Seq<char> {
    seq!['/', 'q', 'u', 'e', 'r', 'y']
}

/// The endpoint with every trailing `/query` removed.
pub open spec fn spec_trim_query(s: Seq<char>) -> Seq<char>
    decreases s.len(),
{
    if is_suffix_of(spec_query_suffix(), s) && s.len() >= 6 {
        spec_trim_query(s.subrange(0, s.len() - 6))
    } else {
        s
    }
}

/// The update endpoint derived from a query endpoint: defined only when
/// the query endpoint ends in `/query`, in which case that suffix is
/// replaced by `/update`.
pub open spec fn spec_derive_update_endpoint(s: Seq<char>) -> Option<Seq<char>> {
    if is_suffix_of(spec_query_suffix(), s) {
        Some(spec_trim_query(s) + "/update"@)
    } else {
        None
    }
}

/// Derives the update endpoint from a query endpoint, as
/// `spec_derive_update_endpoint` describes.
pub fn derive_update_endpoint(endpoint: &str) -> (r: Option<String>)
    ensures
        match r {
            Some(u) => spec_derive_update_endpoint(endpoint@) == Some(u@),
            None => spec_derive_update_endpoint(endpoint@) is None,
        },
{
    let suffix = chars_of("/query");
    proof {
        reveal_strlit("/query");
        assert(suffix@ =~= spec_query_suffix());
    }
    let mut v = chars_of(endpoint);
    if !has_suffix(&v, &suffix) {
        return None;
    }
    while has_suffix(&v, &suffix)
        invariant
            suffix@ == spec_query_suffix(),
            spec_trim_query(endpoint@) == spec_trim_query(v@),
        decreases v@.len(),
    {
        let ghost pre = v@;
        let keep = v.len() - suffix.len();
        v.truncate(keep);
        proof {
            assert(v@ =~= pre.subrange(0, pre.len() - 6));
        }
    }
    let mut out = v;
    push_chars(&mut out, "/update");
    Some(string_from_chars(&out))
}

/// A character the configuration reader strips from the ends of a listed
/// origin: ASCII whitespace.
pub open spec fn spec_is_space(c: char) -> bool {
    c == ' ' || c == '\t' || c == '\n' || c == '\r'
}

/// The text with leading whitespace removed.
pub open spec fn spec_trim_front(s: Seq<char>) -> Seq<char>
    decreases s.len(),
{
    if s.len() > 0 && spec_is_space(s[0]) {
        spec_trim_front(s.drop_first())
    } else {
        s
    }
}

/// The text with trailing whitespace removed.
pub open spec fn spec_trim_back(s: Seq<char>) -> Seq<char>
    decreases s.len(),
{
    if s.len() > 0 && spec_is_space(s.last()) {
        spec_trim_back(s.drop_last())
    } else {
        s
    }
}

/// The text with whitespace removed from both ends.
pub open spec fn spec_trim(s: Seq<char>) -> Seq<char> {
    spec_trim_back(spec_trim_front(s))
}

proof fn lemma_trim_front_skip(s: Seq<char>, k: int)
    requires
        0 <= k <= s.len(),
        forall|j: int| 0 <= j < k ==> spec_is_space(#[trigger] s[j]),
        k < s.len() ==> !spec_is_space(s[k]),
    ensures
        spec_trim_front(s) == s.skip(k),
    decreases k,
{
    if k == 0 {
        assert(s.skip(0) =~= s);
    } else {
        assert(spec_is_space(s[0]));
        assert(forall|j: int|
            0 <= j < k - 1 ==> spec_is_space(#[trigger] s.drop_first()[j]) == spec_is_space(
                s[j + 1],
            ));
        lemma_trim_front_skip(s.drop_first(), k - 1);
        assert(s.drop_first().skip(k - 1) =~= s.skip(k));
    }
}

proof fn lemma_trim_back_take(s: Seq<char>, m: int)
    requires
        0 <= m <= s.len(),
        forall|j: int| m <= j < s.len() ==> spec_is_space(#[trigger] s[j]),
        m > 0 ==> !spec_is_space(s[m - 1]),
    ensures
        spec_trim_back(s) == s.take(m),
    decreases s.len(),
{
    if m == s.len() {
        if s.len() == 0 {
            assert(s.take(0) =~= s);
        } else {
            assert(!spec_is_space(s.last()));
            assert(s.take(m) =~= s);
        }
    } else {
        assert(spec_is_space(s.last()));
        assert(forall|j: int| m <= j < s.len() - 1 ==> spec_is_space(#[trigger] s.drop_last()[j]));
        lemma_trim_back_take(s.drop_last(), m);
        assert(s.drop_last().take(m) =~= s.take(m));
    }
}

/// Removes ASCII whitespace from both ends, as `spec_trim` describes.
pub fn trim_chars(v: &Vec<char>) -> (r: Vec<char>)
    ensures
        r@ == spec_trim(v@),
{
    let n = v.len();
    let mut a: usize = 0;
    while a < n && (v[a] == ' ' || v[a] == '\t' || v[a] == '\n' || v[a] == '\r')
        invariant
            0 <= a <= n,
            n == v@.len(),
            forall|j: int| 0 <= j < a ==> spec_is_space(#[trigger] v@[j]),
        decreases n - a,
    {
        a = a + 1;
    }
    let mut b: usize = n;
    while b > a && (v[b - 1] == ' ' || v[b - 1] == '\t' || v[b - 1] == '\n' || v[b - 1] == '\r')
        invariant
            a <= b <= n,
            n == v@.len(),
            forall|j: int| b <= j < n ==> spec_is_space(#[trigger] v@[j]),
        decreases b,
    {
        b = b - 1;
    }
    let mut r: Vec<char> = Vec::new();
    let mut m: usize = a;
    while m < b
        invariant
            a <= m <= b <= n,
            n == v@.len(),
            r@ =~= v@.subrange(a as int, m as int),
        decreases b - m,
    {
        r.push(v[m]);
        proof {
            assert(v@.subrange(a as int, m + 1) =~= v@.subrange(a as int, m as int).push(
                v@[m as int],
            ));
        }
        m = m + 1;
    }
    proof {
        lemma_trim_front_skip(v@, a as int);
        let t = v@.skip(a as int);
        assert(forall|j: int| b - a <= j < t.len() ==> spec_is_space(#[trigger] t[j]));
        if b > a {
            assert(!spec_is_space(t[b - a - 1]));
        }
        lemma_trim_back_take(t, b - a);
        assert(r@ =~= t.take(b - a));
    }
    r
}

/// The origins listed in a comma-separated text: each segment trimmed,
/// empty segments dropped, order kept.
pub open spec fn spec_origin_items(parts: Seq<Seq<char>>, i: int) -> Seq<Seq<char>>
    decreases parts.len() - i,
{
    if i < 0 || i >= parts.len() {
        Seq::empty()
    } else {
        let t = spec_trim(parts[i]);
        (if t.len() > 0 {
            seq![t]
        } else {
            Seq::empty()
        }) + spec_origin_items(parts, i + 1)
    }
}

/// The allowed origins denoted by a comma-separated text.
pub open spec fn spec_origins(s: Seq<char>) -> Seq<Seq<char>> {
    spec_origin_items(spec_split_on(s, ','), 0)
}

/// Splits a comma-separated origin list, trimming each entry and
/// dropping empty ones.
pub fn split_origins(s: &str) -> (r: Vec<String>)
    ensures
        r@.map_values(|o: String| o@) == spec_origins(s@),
{
    let chars = chars_of(s);
    let parts = split_on(&chars, ',');
    let ghost part_views = parts@.map_values(|l: Vec<char>| l@);
    let mut r: Vec<String> = Vec::new();
    let mut i: usize = 0;
    while i < parts.len()
        invariant
            0 <= i <= parts@.len(),
            part_views == parts@.map_values(|l: Vec<char>| l@),
            r@.map_values(|o: String| o@) + spec_origin_items(part_views, i as int)
                =~= spec_origin_items(part_views, 0),
        decreases parts@.len() - i,
    {
        let ghost pre = r@.map_values(|o: String| o@);
        let t = trim_chars(&parts[i]);
        proof {
            assert(part_views[i as int] == parts@[i as int]@);
        }
        if t.len() > 0 {
            r.push(string_from_chars(&t));
            proof {
                assert(r@.map_values(|o: String| o@) =~= pre + seq![spec_trim(
                    part_views[i as int],
                )]);
                assert((pre + seq![spec_trim(part_views[i as int])]) + spec_origin_items(
                    part_views,
                    i + 1,
                ) =~= pre + (seq![spec_trim(part_views[i as int])] + spec_origin_items(
                    part_views,
                    i + 1,
                )));
            }
        } else {
            proof {
                assert(Seq::<Seq<char>>::empty() + spec_origin_items(part_views, i + 1)
                    =~= spec_origin_items(part_views, i + 1));
            }
        }
        i = i + 1;
    }
    proof {
        assert(spec_origin_items(part_views, parts@.len() as int) =~= Seq::<Seq<char>>::empty());
        assert(r@.map_values(|o: String| o@) + Seq::<Seq<char>>::empty() =~= r@.map_values(
            |o: String| o@,
        ));
    }
    r
}

/// Names the result of base64's standard-alphabet decode; it depends on
/// the text alone.
pub uninterp spec fn base64_decoded(s: Seq<char>) -> Option<Seq<u8>>;

/// Relies on base64's STANDARD engine: decodes standard-alphabet base64
/// text, failing on text that is not valid base64.
#[verifier::external_body]
fn base64_decode(s: &str) -> (r: Option<Vec<u8>>)
    ensures
        match r {
            Some(v) => base64_decoded(s@) == Some(v@),
            None => base64_decoded(s@) is None,
        },
{
    base64::engine::general_purpose::STANDARD.decode(s).ok()
}

/// Names the result of decoding bytes as UTF-8; it depends on the bytes
/// alone.
pub uninterp spec fn utf8_decoded(b: Seq<u8>) -> Option<Seq<char>>;

/// Relies on String::from_utf8: decodes bytes as UTF-8 text, failing on
/// byte sequences that are not valid UTF-8.
#[verifier::external_body]
fn utf8_to_string(bytes: Vec<u8>) -> (r: Option<String>)
    ensures
        match r {
            Some(s) => utf8_decoded(bytes@) == Some(s@),
            None => utf8_decoded(bytes@) is None,
        },
{
    String::from_utf8(bytes).ok()
}

/// The port a raw value denotes, with its default: a decimal number that
/// fits in sixteen bits.
pub open spec fn spec_port_value(raw: Option<String>) -> Option<u16> {
    match raw {
        None => Some(8080),
        Some(p) => match spec_parse_u64(p@) {
            Some(v) => if v <= 65535 {
                Some(v as u16)
            } else {
                None
            },
            None => None,
        },
    }
}

/// The boolean a raw value denotes, with its default.
pub open spec fn spec_bool_value(raw: Option<String>, default: bool) -> Option<bool> {
    match raw {
        None => Some(default),
        Some(s) => spec_parse_bool(s@),
    }
}

/// The u64 a raw value denotes; an absent or unparseable value silently
/// falls back to the default.
pub open spec fn spec_u64_or(raw: Option<String>, default: u64) -> u64 {
    match raw {
        None => default,
        Some(s) => match spec_parse_u64(s@) {
            Some(v) => v,
            None => default,
        },
    }
}

/// The usize a raw value denotes; an absent, unparseable or oversized
/// value silently falls back to the default.
pub open spec fn spec_usize_or(raw: Option<String>, default: usize) -> usize {
    match raw {
        None => default,
        Some(s) => match spec_parse_u64(s@) {
            Some(v) => if v <= usize::MAX {
                v as usize
            } else {
                default
            },
            None => default,
        },
    }
}

/// The u64 a raw value denotes, where a parse failure is an error rather
/// than a fallback.
pub open spec fn spec_u64_value(raw: Option<String>, default: u64) -> Option<u64> {
    match raw {
        None => Some(default),
        Some(s) => spec_parse_u64(s@),
    }
}

fn u64_or(raw: &Option<String>, default: u64) -> (r: u64)
    ensures
        r == spec_u64_or(*raw, default),
{
    match raw {
        None => default,
        Some(s) => match parse_u64(s.as_str()) {
            Some(v) => v,
            None => default,
        },
    }
}

fn usize_or(raw: &Option<String>, default: usize) -> (r: usize)
    ensures
        r == spec_usize_or(*raw, default),
{
    match raw {
        None => default,
        Some(s) => match parse_u64(s.as_str()) {
            Some(v) => {
                if v <= usize::MAX as u64 {
                    v as usize
                } else {
                    default
                }
            },
            None => default,
        },
    }
}

/// Whether the raw values name a user without giving any password: such
/// a configuration is rejected.
pub open spec fn spec_missing_password(raw: RawConfig) -> bool {
    raw.sparql_username is Some && raw.sparql_password is None && raw.sparql_password_hashed
        is None
}

impl Config {
    /// Assembles and validates a configuration from raw values, applying
    /// the documented defaults: the query endpoint is required; a named
    /// user needs a password; the port, the yes/no settings and the
    /// timeout must parse when present; the remaining numeric settings
    /// silently fall back to their defaults; the update endpoint, when
    /// not given, is derived from a query endpoint ending in `/query`.
    pub fn from_values(raw: RawConfig) -> (r: Result<Config, ConfigError>)
        ensures
            r is Ok <==> raw.sparql_endpoint is Some && !spec_missing_password(raw)
                && spec_port_value(raw.port) is Some && spec_bool_value(raw.cors_enabled, true)
                is Some && spec_bool_value(raw.verify_ssl, true) is Some && spec_u64_value(
                raw.timeout_seconds,
                30,
            ) is Some && spec_bool_value(raw.cache_enabled, true) is Some && spec_bool_value(
                raw.enable_auth,
                false,
            ) is Some,
            r matches Ok(c) ==> ({
                &&& c.sparql_endpoint@ == raw.sparql_endpoint->0@
                &&& (match c.sparql_update_endpoint {
                    Some(u) => match raw.sparql_update_endpoint {
                        Some(given) => u@ == given@,
                        None => spec_derive_update_endpoint(raw.sparql_endpoint->0@) == Some(u@),
                    },
                    None => raw.sparql_update_endpoint is None && spec_derive_update_endpoint(
                        raw.sparql_endpoint->0@,
                    ) is None,
                })
                &&& c.sparql_username == raw.sparql_username
                &&& c.sparql_password == raw.sparql_password
                &&& c.sparql_password_hashed == raw.sparql_password_hashed
                &&& c.host@ == (match raw.host {
                    Some(h) => h@,
                    None => "127.0.0.1"@,
                })
                &&& Some(c.port) == spec_port_value(raw.port)
                &&& Some(c.cors_enabled) == spec_bool_value(raw.cors_enabled, true)
                &&& c.max_payload_size == spec_usize_or(raw.max_payload_size, 10485760)
                &&& Some(c.verify_ssl) == spec_bool_value(raw.verify_ssl, true)
                &&& Some(c.timeout_seconds) == spec_u64_value(raw.timeout_seconds, 30)
                &&& c.max_retries as u64 == (if spec_u64_or(raw.max_retries, 3) <= u32::MAX {
                    spec_u64_or(raw.max_retries, 3)
                } else {
                    3
                })
                &&& Some(c.cache_enabled) == spec_bool_value(raw.cache_enabled, true)
                &&& c.cache_ttl_seconds == spec_u64_or(raw.cache_ttl_seconds, 300)
                &&& c.cache_max_entries == spec_usize_or(raw.cache_max_entries, 1000)
                &&& Some(c.enable_auth) == spec_bool_value(raw.enable_auth, false)
                &&& c.api_key == raw.api_key
                &&& c.allowed_origins@.map_values(|o: String| o@) == spec_origins(
                    match raw.allowed_origins {
                        Some(a) => a@,
                        None => "*"@,
                    },
                )
                &&& c.graph_max_nodes == spec_usize_or(raw.graph_max_nodes, 500)
                &&& c.graph_max_edges == spec_usize_or(raw.graph_max_edges, 1000)
                &&& c.graph_expansion_limit == spec_usize_or(raw.graph_expansion_limit, 50)
                &&& c.graph_search_limit == spec_usize_or(raw.graph_search_limit, 10)
            }),
            r matches Err(e) ==> match e {
                ConfigError::MissingEnvVar(_) => raw.sparql_endpoint is None
                    || spec_missing_password(raw),
                ConfigError::InvalidPort(_) => spec_port_value(raw.port) is None,
                ConfigError::InvalidBool(_, _) => spec_bool_value(raw.cors_enabled, true) is None
                    || spec_bool_value(raw.verify_ssl, true) is None || spec_bool_value(
                    raw.cache_enabled,
                    true,
                ) is None || spec_bool_value(raw.enable_auth, false) is None,
                ConfigError::InvalidNumber(_, _) => spec_u64_value(raw.timeout_seconds, 30)
                    is None,
            },
    {
        let sparql_endpoint = match raw.sparql_endpoint {
            Some(e) => e,
            None => {
                return Err(ConfigError::MissingEnvVar(String::from_str("SPARQL_ENDPOINT")));
            },
        };
        let sparql_update_endpoint = match raw.sparql_update_endpoint {
            Some(u) => Some(u),
            None => derive_update_endpoint(sparql_endpoint.as_str()),
        };
        if raw.sparql_username.is_some() && raw.sparql_password.is_none()
            && raw.sparql_password_hashed.is_none() {
            return Err(ConfigError::MissingEnvVar(String::from_str(
                "SPARQL_PASSWORD or SPARQL_PASSWORD_HASHED (when USERNAME is set)",
            )));
        }
        let host = match raw.host {
            Some(h) => h,
            None => String::from_str("127.0.0.1"),
        };
        let port: u16 = match &raw.port {
            None => 8080,
            Some(p) => {
                match parse_u64(p.as_str()) {
                    Some(v) => {
                        if v <= 65535 {
                            v as u16
                        } else {
                            return Err(ConfigError::InvalidPort(p.clone()));
                        }
                    },
                    None => {
                        return Err(ConfigError::InvalidPort(p.clone()));
                    },
                }
            },
        };
        let cors_enabled: bool = match &raw.cors_enabled {
            None => true,
            Some(s) => match parse_bool(s.as_str()) {
                Some(b) => b,
                None => {
                    return Err(ConfigError::InvalidBool(
                        String::from_str("CORS_ENABLED"),
                        s.clone(),
                    ));
                },
            },
        };
        let max_payload_size = usize_or(&raw.max_payload_size, 10485760);
        let verify_ssl: bool = match &raw.verify_ssl {
            None => true,
            Some(s) => match parse_bool(s.as_str()) {
                Some(b) => b,
                None => {
                    return Err(ConfigError::InvalidBool(
                        String::from_str("VERIFY_SSL"),
                        s.clone(),
                    ));
                },
            },
        };
        let timeout_seconds: u64 = match &raw.timeout_seconds {
            None => 30,
            Some(s) => match parse_u64(s.as_str()) {
                Some(v) => v,
                None => {
                    return Err(ConfigError::InvalidNumber(
                        String::from_str("SPARQL_TIMEOUT"),
                        s.clone(),
                    ));
                },
            },
        };
        let retries64 = u64_or(&raw.max_retries, 3);
        let max_retries: u32 = if retries64 <= u32::MAX as u64 {
            retries64 as u32
        } else {
            3
        };
        let cache_enabled: bool = match &raw.cache_enabled {
            None => true,
            Some(s) => match parse_bool(s.as_str()) {
                Some(b) => b,
                None => {
                    return Err(ConfigError::InvalidBool(
                        String::from_str("CACHE_ENABLED"),
                        s.clone(),
                    ));
                },
            },
        };
        let cache_ttl_seconds = u64_or(&raw.cache_ttl_seconds, 300);
        let cache_max_entries = usize_or(&raw.cache_max_entries, 1000);
        let enable_auth: bool = match &raw.enable_auth {
            None => false,
            Some(s) => match parse_bool(s.as_str()) {
                Some(b) => b,
                None => {
                    return Err(ConfigError::InvalidBool(
                        String::from_str("ENABLE_AUTH"),
                        s.clone(),
                    ));
                },
            },
        };
        let allowed_origins = match &raw.allowed_origins {
            Some(a) => split_origins(a.as_str()),
            None => split_origins("*"),
        };
        proof {
            reveal_strlit("*");
        }
        let graph_max_nodes = usize_or(&raw.graph_max_nodes, 500);
        let graph_max_edges = usize_or(&raw.graph_max_edges, 1000);
        let graph_expansion_limit = usize_or(&raw.graph_expansion_limit, 50);
        let graph_search_limit = usize_or(&raw.graph_search_limit, 10);
        Ok(
            Config {
                sparql_endpoint,
                sparql_update_endpoint,
                sparql_username: raw.sparql_username,
                sparql_password: raw.sparql_password,
                sparql_password_hashed: raw.sparql_password_hashed,
                host,
                port,
                cors_enabled,
                max_payload_size,
                verify_ssl,
                timeout_seconds,
                max_retries,
                cache_enabled,
                cache_ttl_seconds,
                cache_max_entries,
                enable_auth,
                api_key: raw.api_key,
                allowed_origins,
                graph_max_nodes,
                graph_max_edges,
                graph_expansion_limit,
                graph_search_limit,
            },
        )
    }

    /// The endpoint updates are sent to: the configured one, or the query
    /// endpoint as fallback.
    pub fn get_update_endpoint(&self) -> (r: &String)
        ensures
            match self.sparql_update_endpoint {
                Some(u) => r@ == u@,
                None => r@ == self.sparql_endpoint@,
            },
    {
        match &self.sparql_update_endpoint {
            Some(u) => u,
            None => &self.sparql_endpoint,
        }
    }

    /// The password to present: the plain one if set, else the base64
    /// value decoded to UTF-8 text, else nothing.
    pub fn get_password(&self) -> (r: Option<String>)
        ensures
            match self.sparql_password {
                Some(p) => r matches Some(rp) && rp@ == p@,
                None => match self.sparql_password_hashed {
                    Some(h) => match base64_decoded(h@) {
                        Some(bytes) => match utf8_decoded(bytes) {
                            Some(text) => r matches Some(rp) && rp@ == text,
                            None => r is None,
                        },
                        None => r is None,
                    },
                    None => r is None,
                },
            },
    {
        match &self.sparql_password {
            Some(p) => Some(p.clone()),
            None => match &self.sparql_password_hashed {
                Some(h) => match base64_decode(h.as_str()) {
                    Some(bytes) => utf8_to_string(bytes),
                    None => None,
                },
                None => None,
            },
        }
    }

    /// Whether caching is enabled.
    pub fn is_cache_enabled(&self) -> (r: bool)
        ensures
            r == self.cache_enabled,
    {
        self.cache_enabled
    }

    /// Whether requests must present an API key: authentication is on and
    /// a key is configured.
    pub fn requires_auth(&self) -> (r: bool)
        ensures
            r == (self.enable_auth && self.api_key is Some),
    {
        self.enable_auth && self.api_key.is_some()
    }

    /// Accepts a presented API key: always when authentication is not
    /// required, else exactly the configured key.
    pub fn validate_api_key(&self, key: &str) -> (r: bool)
        ensures
            r == (!(self.enable_auth && self.api_key is Some) || (self.api_key matches Some(k)
                && k@ == key@)),
    {
        if !self.requires_auth() {
            return true;
        }
        match &self.api_key {
            Some(k) => str_eq(k.as_str(), key),
            None => false,
        }
    }

    /// Whether a CORS origin is allowed: a listed `*` allows every
    /// origin, else the origin must be listed itself.
    pub fn is_origin_allowed(&self, origin: &str) -> (r: bool)
        ensures
            r == ((exists|i: int|
                0 <= i < self.allowed_origins@.len() && (#[trigger] self.allowed_origins@[i])@
                    == "*"@) || (exists|i: int|
                0 <= i < self.allowed_origins@.len() && (#[trigger] self.allowed_origins@[i])@
                    == origin@)),
    {
        let n = self.allowed_origins.len();
        let mut i: usize = 0;
        while i < n
            invariant
                0 <= i <= n,
                n == self.allowed_origins@.len(),
                forall|j: int|
                    0 <= j < i ==> (#[trigger] self.allowed_origins@[j])@ != "*"@,
            decreases n - i,
        {
            if str_eq(self.allowed_origins[i].as_str(), "*") {
                return true;
            }
            i = i + 1;
        }
        let mut i: usize = 0;
        while i < n
            invariant
                0 <= i <= n,
                n == self.allowed_origins@.len(),
                forall|j: int|
                    0 <= j < i ==> (#[trigger] self.allowed_origins@[j])@ != origin@,
                forall|j: int|
                    0 <= j < n ==> (#[trigger] self.allowed_origins@[j])@ != "*"@,
            decreases n - i,
        {
            if str_eq(self.allowed_origins[i].as_str(), origin) {
                return true;
            }
            i = i + 1;
        }
        false
    }
}

} // verus!
