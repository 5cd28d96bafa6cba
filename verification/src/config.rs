//! Configuration model: the server, upstream, key, rate-limit and
//! observability sections, their default values, and the construction of
//! credentials from the environment token list or the legacy key file.
//!
//! All durations are carried as plain integer milliseconds; turning them into
//! the host's clock types is left to the unverified rim of the program.

use vstd::prelude::*;

verus! {

/// A single upstream API identity: token, base URL, and the set of model
/// names it serves. The sentinel model name `"others"` matches any model.
#[derive(Debug, Clone)]
pub struct ApiKeyInfo {
    pub key: String,
    pub url: String,
    pub models: Vec<String>,
}

impl ApiKeyInfo {
    /// The credential serves `model` when its model list names it, or names
    /// the sentinel `"others"`.
    pub open spec fn spec_supports_model(self, model: Seq<char>) -> bool {
        exists|i: int|
            0 <= i < self.models@.len() && (self.models@[i]@ == model || self.models@[i]@
                == "others"@)
    }

    pub fn supports_model(&self, model: &str) -> (r: bool)
        ensures
            r == self.spec_supports_model(model@),
    {
        let n = self.models.len();
        let mut i: usize = 0;
        while i < n
            invariant
                n == self.models@.len(),
                i <= n,
                forall|j: int|
                    0 <= j < i ==> self.models@[j]@ != model@ && self.models@[j]@ != "others"@,
            decreases n - i,
        {
            let m = &self.models[i];
            if crate::text::str_eq(m.as_str(), model) || crate::text::str_eq(m.as_str(), "others")
            {
                return true;
            }
            i += 1;
        }
        false
    }
}

#[derive(Debug, Clone)]
pub struct Config {
    pub server: ServerConfig,
    pub upstream: UpstreamConfig,
    pub keys: KeysConfig,
    pub rate_limit: RateLimitConfig,
    pub observability: ObservabilityConfig,
}

#[derive(Debug, Clone)]
pub struct ServerConfig {
    pub bind_addr: String,
    pub request_body_limit_bytes: usize,
    pub graceful_shutdown_seconds: u64,
}

#[derive(Debug, Clone)]
pub struct UpstreamConfig {
    pub base_url: String,
    pub connect_timeout_ms: u64,
    pub request_timeout_ms: u64,
    pub retry_initial_backoff_ms: u64,
    pub retry_max_backoff_ms: u64,
    pub max_retries: u32,
}

#[derive(Debug, Clone)]
pub struct KeysConfig {
    pub rotation_strategy: String,
    pub unhealthy_penalty: u32,
}

#[derive(Debug, Clone)]
pub struct RateLimitConfig {
    pub per_key_rps: u32,
    pub global_rps: u32,
    pub burst: u32,
}

#[derive(Debug, Clone)]
pub struct ObservabilityConfig {
    pub metrics_bind: String,
    pub tracing_level: String,
}

/// The legacy key file: a list of credentials, each with token, URL and
/// model list.
#[derive(Debug, Clone)]
pub struct LegacyConfig {
    pub api_keys: Vec<LegacyApiKeyInfo>,
}

#[derive(Debug, Clone)]
pub struct LegacyApiKeyInfo {
    pub key: String,
    pub url: String,
    pub models: Vec<String>,
}

pub fn default_bind_addr() -> (r: String)
    ensures
        r@ == "0.0.0.0:8080"@,
{
    "0.0.0.0:8080".to_owned()
}

pub fn default_request_body_limit() -> (r: usize)
    ensures
        r == 262144,
{
    262144
}

pub fn default_graceful_shutdown_seconds() -> (r: u64)
    ensures
        r == 10,
{
    10
}

pub fn default_base_url() -> (r: String)
    ensures
        r@ == "https://api.openai.com/v1"@,
{
    "https://api.openai.com/v1".to_owned()
}

pub fn default_connect_timeout() -> (r: u64)
    ensures
        r == 800,
{
    800
}

pub fn default_request_timeout() -> (r: u64)
    ensures
        r == 60000,
{
    60000
}

pub fn default_retry_initial_backoff() -> (r: u64)
    ensures
        r == 50,
{
    50
}

pub fn default_retry_max_backoff() -> (r: u64)
    ensures
        r == 2000,
{
    2000
}

pub fn default_max_retries() -> (r: u32)
    ensures
        r == 3,
{
    3
}

pub fn default_rotation_strategy() -> (r: String)
    ensures
        r@ == "round_robin_health_weighted"@,
{
    "round_robin_health_weighted".to_owned()
}

pub fn default_unhealthy_penalty() -> (r: u32)
    ensures
        r == 5,
{
    5
}

pub fn default_per_key_rps() -> (r: u32)
    ensures
        r == 3,
{
    3
}

pub fn default_global_rps() -> (r: u32)
    ensures
        r == 50,
{
    50
}

pub fn default_burst() -> (r: u32)
    ensures
        r == 10,
{
    10
}

pub fn default_metrics_bind() -> (r: String)
    ensures
        r@ == "0.0.0.0:9090"@,
{
    "0.0.0.0:9090".to_owned()
}

pub fn default_tracing_level() -> (r: String)
    ensures
        r@ == "info"@,
{
    "info".to_owned()
}

impl Default for ServerConfig {
    fn default() -> (r: Self)
        ensures
            r.bind_addr@ == "0.0.0.0:8080"@,
            r.request_body_limit_bytes == 262144,
            r.graceful_shutdown_seconds == 10,
    {
        ServerConfig {
            bind_addr: default_bind_addr(),
            request_body_limit_bytes: default_request_body_limit(),
            graceful_shutdown_seconds: default_graceful_shutdown_seconds(),
        }
    }
}

impl Default for UpstreamConfig {
    fn default() -> (r: Self)
        ensures
            r.base_url@ == "https://api.openai.com/v1"@,
            r.connect_timeout_ms == 800,
            r.request_timeout_ms == 60000,
            r.retry_initial_backoff_ms == 50,
            r.retry_max_backoff_ms == 2000,
            r.max_retries == 3,
    {
        UpstreamConfig {
            base_url: default_base_url(),
            connect_timeout_ms: default_connect_timeout(),
            request_timeout_ms: default_request_timeout(),
            retry_initial_backoff_ms: default_retry_initial_backoff(),
            retry_max_backoff_ms: default_retry_max_backoff(),
            max_retries: default_max_retries(),
        }
    }
}

impl Default for KeysConfig {
    fn default() -> (r: Self)
        ensures
            r.rotation_strategy@ == "round_robin_health_weighted"@,
            r.unhealthy_penalty == 5,
    {
        KeysConfig {
            rotation_strategy: default_rotation_strategy(),
            unhealthy_penalty: default_unhealthy_penalty(),
        }
    }
}

impl Default for RateLimitConfig {
    fn default() -> (r: Self)
        ensures
            r.per_key_rps == 3,
            r.global_rps == 50,
            r.burst == 10,
    {
        RateLimitConfig {
            per_key_rps: default_per_key_rps(),
            global_rps: default_global_rps(),
            burst: default_burst(),
        }
    }
}

impl Default for ObservabilityConfig {
    fn default() -> (r: Self)
        ensures
            r.metrics_bind@ == "0.0.0.0:9090"@,
            r.tracing_level@ == "info"@,
    {
        ObservabilityConfig {
            metrics_bind: default_metrics_bind(),
            tracing_level: default_tracing_level(),
        }
    }
}

impl Default for Config {
    fn default() -> (r: Self)
        ensures
            r.server.bind_addr@ == "0.0.0.0:8080"@,
            r.server.request_body_limit_bytes == 262144,
            r.server.graceful_shutdown_seconds == 10,
            r.upstream.base_url@ == "https://api.openai.com/v1"@,
            r.upstream.connect_timeout_ms == 800,
            r.upstream.request_timeout_ms == 60000,
            r.upstream.retry_initial_backoff_ms == 50,
            r.upstream.retry_max_backoff_ms == 2000,
            r.upstream.max_retries == 3,
            r.keys.rotation_strategy@ == "round_robin_health_weighted"@,
            r.keys.unhealthy_penalty == 5,
            r.rate_limit.per_key_rps == 3,
            r.rate_limit.global_rps == 50,
            r.rate_limit.burst == 10,
            r.observability.metrics_bind@ == "0.0.0.0:9090"@,
            r.observability.tracing_level@ == "info"@,
    {
        Config {
            server: ServerConfig::default(),
            upstream: UpstreamConfig::default(),
            keys: KeysConfig::default(),
            rate_limit: RateLimitConfig::default(),
            observability: ObservabilityConfig::default(),
        }
    }
}

impl UpstreamConfig {
    /// The transport connect deadline, in milliseconds.
    pub fn connect_timeout(&self) -> (r: u64)
        ensures
            r == self.connect_timeout_ms,
    {
        self.connect_timeout_ms
    }

    /// The per-attempt request deadline, in milliseconds.
    pub fn request_timeout(&self) -> (r: u64)
        ensures
            r == self.request_timeout_ms,
    {
        self.request_timeout_ms
    }

    /// The base of the exponential retry backoff, in milliseconds.
    pub fn retry_initial_backoff(&self) -> (r: u64)
        ensures
            r == self.retry_initial_backoff_ms,
    {
        self.retry_initial_backoff_ms
    }

    /// The ceiling of the retry backoff, in milliseconds.
    pub fn retry_max_backoff(&self) -> (r: u64)
        ensures
            r == self.retry_max_backoff_ms,
    {
        self.retry_max_backoff_ms
    }
}

/// The whitespace characters trimmed from the ends of an environment token.
pub open spec fn spec_is_ws(c: char) -> bool {
    c == ' ' || c == '\t' || c == '\n' || c == '\r'
}

/// `s` without its leading whitespace.
pub open spec fn spec_trim_start(s: Seq<char>) -> Seq<char>
    decreases s.len(),
{
    if s.len() > 0 && spec_is_ws(s[0]) {
        spec_trim_start(s.drop_first())
    } else {
        s
    }
}

/// `s` without its trailing whitespace.
pub open spec fn spec_trim_end(s: Seq<char>) -> Seq<char>
    decreases s.len(),
{
    if s.len() > 0 && spec_is_ws(s.last()) {
        spec_trim_end(s.drop_last())
    } else {
        s
    }
}

/// `s` without leading and trailing whitespace.
pub open spec fn spec_trim(s: Seq<char>) -> Seq<char> {
    spec_trim_end(spec_trim_start(s))
}

/// The first position at or after `from` holding a comma, or the length of
/// `s` when none does.
pub open spec fn spec_find_comma(s: Seq<char>, from: int) -> int
    decreases s.len() - from,
{
    if from >= s.len() {
        s.len() as int
    } else if s[from] == ',' {
        from
    } else {
        spec_find_comma(s, from + 1)
    }
}

/// The comma-separated segments of `s` from position `from` on; a trailing
/// comma yields a final empty segment, and an empty string is one empty
/// segment.
pub open spec fn spec_split_commas(s: Seq<char>, from: int) -> Seq<Seq<char>>
    decreases s.len() - from when 0 <= from <= s.len() via spec_split_commas_decreases
{
    let j = spec_find_comma(s, from);
    if j >= s.len() {
        seq![s.subrange(from, s.len() as int)]
    } else {
        seq![s.subrange(from, j)] + spec_split_commas(s, j + 1)
    }
}

#[via_fn]
proof fn spec_split_commas_decreases(s: Seq<char>, from: int) {
    lemma_find_comma_props(s, from);
}

proof fn lemma_find_comma_props(s: Seq<char>, from: int)
    requires
        0 <= from <= s.len(),
    ensures
        from <= spec_find_comma(s, from) <= s.len(),
        spec_find_comma(s, from) < s.len() ==> s[spec_find_comma(s, from)] == ',',
    decreases s.len() - from,
{
    if from < s.len() && s[from] != ',' {
        lemma_find_comma_props(s, from + 1);
    }
}

proof fn lemma_find_comma_at(s: Seq<char>, from: int, j: int)
    requires
        0 <= from <= j <= s.len(),
        forall|i: int| from <= i < j ==> s[i] != ',',
        j == s.len() || s[j] == ',',
    ensures
        spec_find_comma(s, from) == j,
    decreases j - from,
{
    if from < j {
        lemma_find_comma_at(s, from + 1, j);
    }
}

proof fn lemma_trim_start_at(s: Seq<char>, a: int)
    requires
        0 <= a <= s.len(),
        forall|i: int| 0 <= i < a ==> spec_is_ws(s[i]),
        a == s.len() || !spec_is_ws(s[a]),
    ensures
        spec_trim_start(s) == s.subrange(a, s.len() as int),
    decreases a,
{
    if a == 0 {
        assert(s.subrange(0, s.len() as int) =~= s);
    } else {
        let t = s.drop_first();
        assert(t =~= s.subrange(1, s.len() as int));
        lemma_trim_start_at(t, a - 1);
        assert(t.subrange(a - 1, t.len() as int) =~= s.subrange(a, s.len() as int));
    }
}

proof fn lemma_trim_end_at(s: Seq<char>, b: int)
    requires
        0 <= b <= s.len(),
        forall|i: int| b <= i < s.len() ==> spec_is_ws(s[i]),
        b == 0 || !spec_is_ws(s[b - 1]),
    ensures
        spec_trim_end(s) == s.subrange(0, b),
    decreases s.len(),
{
    if b == s.len() {
        assert(s.subrange(0, b) =~= s);
    } else {
        let t = s.drop_last();
        assert(spec_is_ws(s.last()));
        lemma_trim_end_at(t, b);
        assert(t.subrange(0, b) =~= s.subrange(0, b));
    }
}

fn is_ws_char(c: char) -> (r: bool)
    ensures
        r == spec_is_ws(c),
{
    c == ' ' || c == '\t' || c == '\n' || c == '\r'
}

/// `s` without leading and trailing spaces, tabs and line breaks.
pub fn trim_ws(s: &str) -> (r: &str)
    ensures
        r@ == spec_trim(s@),
{
    let n = s.unicode_len();
    let mut a: usize = 0;
    while a < n && is_ws_char(s.get_char(a))
        invariant
            n == s@.len(),
            a <= n,
            forall|i: int| 0 <= i < a ==> spec_is_ws(s@[i]),
        decreases n - a,
    {
        a += 1;
    }
    let mut b: usize = n;
    while b > a && is_ws_char(s.get_char(b - 1))
        invariant
            n == s@.len(),
            a <= b <= n,
            forall|i: int| b <= i < n ==> spec_is_ws(s@[i]),
        decreases b,
    {
        b -= 1;
    }
    proof {
        lemma_trim_start_at(s@, a as int);
        let u = s@.subrange(a as int, n as int);
        lemma_trim_end_at(u, b - a);
        assert(u.subrange(0, b - a) =~= s@.subrange(a as int, b as int));
    }
    s.substring_char(a, b)
}

/// The credentials the `OPENAI_KEYS` environment list yields: one per
/// comma-separated token, trimmed, with the default base URL and the
/// sentinel model list `["others"]`.
pub fn keys_from_env(list: &str) -> (r: Vec<ApiKeyInfo>)
    ensures
        r@.len() == spec_split_commas(list@, 0).len(),
        forall|t: int|
            0 <= t < r@.len() ==> {
                &&& (#[trigger] r@[t]).key@ == spec_trim(spec_split_commas(list@, 0)[t])
                &&& r@[t].url@ == "https://api.openai.com/v1"@
                &&& r@[t].models@.len() == 1
                &&& r@[t].models@[0]@ == "others"@
            },
{
    let n = list.unicode_len();
    let mut r: Vec<ApiKeyInfo> = Vec::new();
    let mut from: usize = 0;
    let ghost all = spec_split_commas(list@, 0);
    let ghost mut processed: Seq<Seq<char>> = Seq::empty();
    proof {
        assert(all =~= processed + spec_split_commas(list@, 0));
    }
    loop
        invariant
            n == list@.len(),
            from <= n,
            all == spec_split_commas(list@, 0),
            processed.len() == r@.len(),
            all == processed + spec_split_commas(list@, from as int),
            forall|t: int|
                0 <= t < r@.len() ==> {
                    &&& (#[trigger] r@[t]).key@ == spec_trim(processed[t])
                    &&& r@[t].url@ == "https://api.openai.com/v1"@
                    &&& r@[t].models@.len() == 1
                    &&& r@[t].models@[0]@ == "others"@
                },
        decreases n - from,
    {
        let mut j: usize = from;
        while j < n && list.get_char(j) != ','
            invariant
                n == list@.len(),
                from <= j <= n,
                forall|i: int| from <= i < j ==> list@[i] != ',',
            decreases n - j,
        {
            j += 1;
        }
        proof {
            lemma_find_comma_at(list@, from as int, j as int);
        }
        let raw = list.substring_char(from, j);
        let token = trim_ws(raw);
        let mut models: Vec<String> = Vec::new();
        models.push("others".to_owned());
        r.push(ApiKeyInfo { key: token.to_owned(), url: default_base_url(), models });
        proof {
            processed = processed.push(list@.subrange(from as int, j as int));
        }
        if j == n {
            proof {
                assert(spec_split_commas(list@, from as int) =~= seq![
                    list@.subrange(from as int, n as int),
                ]);
                assert(all =~= processed);
            }
            return r;
        }
        proof {
            assert(spec_split_commas(list@, from as int) =~= seq![
                list@.subrange(from as int, j as int),
            ] + spec_split_commas(list@, j + 1));
            assert(all == processed + spec_split_commas(list@, j + 1)) by {
                assert(processed + spec_split_commas(list@, j + 1) =~= (processed.drop_last())
                    + (seq![list@.subrange(from as int, j as int)] + spec_split_commas(
                    list@,
                    j + 1,
                )));
            }
        }
        from = j + 1;
    }
}

/// The credentials the legacy key file yields: token, URL and model list,
/// taken over verbatim.
pub fn keys_from_legacy(entries: Vec<LegacyApiKeyInfo>) -> (r: Vec<ApiKeyInfo>)
    ensures
        r@.len() == entries@.len(),
        forall|t: int|
            0 <= t < r@.len() ==> {
                &&& (#[trigger] r@[t]).key == entries@[t].key
                &&& r@[t].url == entries@[t].url
                &&& r@[t].models == entries@[t].models
            },
{
    let ghost orig = entries@;
    let mut rest = entries;
    let mut r: Vec<ApiKeyInfo> = Vec::new();
    proof {
        assert(rest@ =~= orig.skip(0));
    }
    while rest.len() > 0
        invariant
            r@.len() + rest@.len() == orig.len(),
            rest@ == orig.skip(r@.len() as int),
            forall|t: int|
                0 <= t < r@.len() ==> {
                    &&& (#[trigger] r@[t]).key == orig[t].key
                    &&& r@[t].url == orig[t].url
                    &&& r@[t].models == orig[t].models
                },
        decreases rest@.len(),
    {
        let ghost done = r@.len() as int;
        proof {
            assert(rest@[0] == orig[done]);
        }
        let e = rest.remove(0);
        r.push(ApiKeyInfo { key: e.key, url: e.url, models: e.models });
        proof {
            assert(rest@ =~= orig.skip(done + 1)) by {
                assert(rest@ =~= orig.skip(done).remove(0));
            }
        }
    }
    r
}

impl ServerConfig {
    /// The shutdown grace period, in milliseconds; saturates at the integer
    /// ceiling for absurdly large configured values.
    pub fn graceful_shutdown_duration(&self) -> (r: u64)
        ensures
            r == if self.graceful_shutdown_seconds * 1000 <= u64::MAX {
                self.graceful_shutdown_seconds * 1000
            } else {
                u64::MAX as int
            },
    {
        if self.graceful_shutdown_seconds <= u64::MAX / 1000 {
            self.graceful_shutdown_seconds * 1000
        } else {
            u64::MAX
        }
    }
}

} // verus!
