//! Client configuration: retry policy, endpoint URLs, request headers, and
//! the decisions the client makes around its requests.
use vstd::prelude::*;

use reqwest_retry::policies::ExponentialBackoff;
use reqwest_retry::Jitter;

use crate::error::Error;
use crate::scanner::{str_equals, Market};
use crate::text::{chars_of, push_char, string_from_range, trim_owned, trim_spec};

verus! {

broadcast use vstd::seq::group_seq_axioms;

/// User agent sent when none is configured.
pub const DEFAULT_USER_AGENT: &'static str = "tvdata-rs/0.1 (+https://github.com/deepentropy/tvscreener reference)";

/// Chart auth token used when no account is configured.
pub const DEFAULT_AUTH_TOKEN: &'static str = "unauthorized_user_token";

/// Request timeout in seconds.
pub fn default_timeout() -> (secs: u64)
    ensures
        secs == 30,
{
    30
}

pub fn default_user_agent() -> (s: String)
    ensures
        s@ == DEFAULT_USER_AGENT@,
{
    DEFAULT_USER_AGENT.to_owned()
}

pub fn default_auth_token() -> (s: String)
    ensures
        s@ == DEFAULT_AUTH_TOKEN@,
{
    DEFAULT_AUTH_TOKEN.to_owned()
}

/// Shortest wait between retries: 250 ms.
pub fn default_min_retry_interval() -> (d: RetryDelay)
    ensures
        d@ == 250_000_000,
{
    RetryDelay::from_millis(250)
}

/// Longest wait between retries: 2 s.
pub fn default_max_retry_interval() -> (d: RetryDelay)
    ensures
        d@ == 2_000_000_000,
{
    RetryDelay::from_secs(2)
}

// ---------------------------------------------------------------- retries

/// How retry waits are randomised.
#[derive(Debug, Clone, Copy, PartialEq, Eq, Structural)]
pub enum RetryJitter {
    /// No randomisation (`Jitter::None` of reqwest-retry).
    NoJitter,
    Full,
    Bounded,
}

impl Default for RetryJitter {
    fn default() -> (j: Self)
        ensures
            j == RetryJitter::Bounded,
    {
        RetryJitter::Bounded
    }
}

/// A wait between retries, held as whole seconds and the nanoseconds
/// below one second, like `std::time::Duration`; its view is the length in
/// nanoseconds.
#[derive(Debug, Clone, Copy, PartialEq, Eq, Hash, Structural)]
pub struct RetryDelay {
    secs: u64,
    nanos: u32,
}

impl View for RetryDelay {
    type V = nat;

    closed spec fn view(&self) -> nat {
        (self.secs * 1_000_000_000 + self.nanos) as nat
    }
}

impl RetryDelay {
    #[verifier::type_invariant]
    spec fn nanos_below_one_second(self) -> bool {
        self.nanos < 1_000_000_000
    }

    /// `secs` seconds and `nanos` nanoseconds, the nanoseconds carried into
    /// seconds as `Duration::new` does; the total must fit.
    pub fn new(secs: u64, nanos: u32) -> (d: Self)
        requires
            secs + nanos / 1_000_000_000 <= u64::MAX,
        ensures
            d@ == secs * 1_000_000_000 + nanos,
    {
        let carry = (nanos / 1_000_000_000) as u64;
        let rest = nanos % 1_000_000_000;
        RetryDelay { secs: secs + carry, nanos: rest }
    }

    pub fn from_secs(secs: u64) -> (d: Self)
        ensures
            d@ == secs * 1_000_000_000,
    {
        RetryDelay { secs, nanos: 0 }
    }

    pub fn from_millis(ms: u64) -> (d: Self)
        ensures
            d@ == ms * 1_000_000,
    {
        let secs = ms / 1000;
        let nanos = ((ms % 1000) * 1_000_000) as u32;
        assert(secs * 1_000_000_000 + (ms % 1000) * 1_000_000 == ms * 1_000_000);
        RetryDelay { secs, nanos }
    }

    /// Whole seconds.
    pub fn as_secs(&self) -> (s: u64)
        ensures
            s == self@ / 1_000_000_000,
    {
        proof {
            use_type_invariant(self);
        }
        self.secs
    }

    /// Nanoseconds below one second.
    pub fn subsec_nanos(&self) -> (n: u32)
        ensures
            n == self@ % 1_000_000_000,
    {
        proof {
            use_type_invariant(self);
        }
        self.nanos
    }

    /// Whether this wait is longer than `other`.
    pub fn exceeds(&self, other: &RetryDelay) -> (r: bool)
        ensures
            r == (self@ > other@),
    {
        proof {
            use_type_invariant(self);
            use_type_invariant(other);
        }
        self.secs > other.secs || (self.secs == other.secs && self.nanos > other.nanos)
    }
}

/// Retry policy for transient HTTP failures.
#[derive(Debug, Clone, PartialEq, Eq, Structural)]
pub struct RetryConfig {
    pub max_retries: u32,
    pub min_retry_interval: RetryDelay,
    pub max_retry_interval: RetryDelay,
    pub jitter: RetryJitter,
}

/// The exponential backoff that a retry configuration asks for.
#[derive(Debug, Clone, PartialEq, Eq, Structural)]
pub struct BackoffPolicy {
    pub max_n_retries: u32,
    pub min_retry_interval: RetryDelay,
    pub max_retry_interval: RetryDelay,
    pub jitter: RetryJitter,
}

/// `ExponentialBackoff` of reqwest-retry.
#[verifier::external_type_specification]
#[verifier::external_body]
pub struct ExExponentialBackoff(ExponentialBackoff);

/// The `ExponentialBackoff` that reqwest-retry's builder makes from a retry
/// count, the two bounds (in nanoseconds) and a jitter.
pub uninterp spec fn exponential_backoff_for(
    max_n_retries: u32,
    min_nanos: nat,
    max_nanos: nat,
    jitter: RetryJitter,
) -> ExponentialBackoff;

/// `ExponentialBackoff::builder().retry_bounds(min, max).jitter(jitter)
/// .build_with_max_retries(max_retries)`: the policy type has no other public
/// constructor. Each bound becomes the `Duration` of the same seconds and
/// nanoseconds, and the library's jitter reqwest-retry's variant of the same
/// name. Claimed: the result is `exponential_backoff_for` of the arguments,
/// a function of them alone. `retry_bounds` panics when the minimum exceeds
/// the maximum, hence the precondition.
#[verifier::external_body]
fn build_exponential_backoff(max_retries: u32, min: RetryDelay, max: RetryDelay, jitter: RetryJitter) -> (p:
    ExponentialBackoff)
    requires
        min@ <= max@,
    ensures
        p == exponential_backoff_for(max_retries, min@, max@, jitter),
{
    let jitter = match jitter {
        RetryJitter::NoJitter => Jitter::None,
        RetryJitter::Full => Jitter::Full,
        RetryJitter::Bounded => Jitter::Bounded,
    };
    ExponentialBackoff::builder().retry_bounds(
        std::time::Duration::new(min.secs, min.nanos),
        std::time::Duration::new(max.secs, max.nanos),
    ).jitter(jitter).build_with_max_retries(max_retries)
}

impl Default for RetryConfig {
    fn default() -> (c: Self)
        ensures
            c.max_retries == 2,
            c.min_retry_interval@ == 250_000_000,
            c.max_retry_interval@ == 2_000_000_000,
            c.jitter == RetryJitter::Bounded,
    {
        RetryConfig {
            max_retries: 2,
            min_retry_interval: default_min_retry_interval(),
            max_retry_interval: default_max_retry_interval(),
            jitter: RetryJitter::Bounded,
        }
    }
}

impl RetryConfig {
    /// The default policy with retries switched off.
    pub fn disabled() -> (c: Self)
        ensures
            c.max_retries == 0,
            c.min_retry_interval@ == 250_000_000,
            c.max_retry_interval@ == 2_000_000_000,
            c.jitter == RetryJitter::Bounded,
    {
        RetryConfig { max_retries: 0, ..RetryConfig::default() }
    }

    /// Rejects a policy whose minimum wait exceeds its maximum.
    pub fn validate(&self) -> (r: Result<(), Error>)
        ensures
            self.min_retry_interval@ <= self.max_retry_interval@ ==> r is Ok,
            self.min_retry_interval@ > self.max_retry_interval@ ==> (r matches Err(
                Error::InvalidRetryBounds { min, max },
            ) && min == self.min_retry_interval && max == self.max_retry_interval),
    {
        if self.min_retry_interval.exceeds(&self.max_retry_interval) {
            return Err(
                Error::InvalidRetryBounds {
                    min: self.min_retry_interval,
                    max: self.max_retry_interval,
                },
            );
        }
        Ok(())
    }

    /// The exponential backoff for this configuration: its retry count,
    /// bounds and jitter.
    pub fn to_policy(&self) -> (p: BackoffPolicy)
        ensures
            p.max_n_retries == self.max_retries,
            p.min_retry_interval == self.min_retry_interval,
            p.max_retry_interval == self.max_retry_interval,
            p.jitter == self.jitter,
    {
        BackoffPolicy {
            max_n_retries: self.max_retries,
            min_retry_interval: self.min_retry_interval,
            max_retry_interval: self.max_retry_interval,
            jitter: self.jitter,
        }
    }
}

impl BackoffPolicy {
    /// reqwest-retry's `ExponentialBackoff` built with this policy's bounds,
    /// jitter and retry count. The builder panics when the minimum exceeds
    /// the maximum, hence the precondition.
    pub fn to_exponential_backoff(&self) -> (p: ExponentialBackoff)
        requires
            self.min_retry_interval@ <= self.max_retry_interval@,
        ensures
            p == exponential_backoff_for(
                self.max_n_retries,
                self.min_retry_interval@,
                self.max_retry_interval@,
                self.jitter,
            ),
    {
        build_exponential_backoff(
            self.max_n_retries,
            self.min_retry_interval,
            self.max_retry_interval,
            self.jitter,
        )
    }
}

// ---------------------------------------------------------------- headers

/// `sessionid=<id>`.
pub open spec fn session_cookie_text(session_id: Seq<char>) -> Seq<char> {
    seq!['s', 'e', 's', 's', 'i', 'o', 'n', 'i', 'd', '='] + session_id
}

/// The cookie that carries an account's session id.
pub fn session_cookie(session_id: &str) -> (c: String)
    ensures
        c@ == session_cookie_text(session_id@),
{
    let mut out = String::new();
    out.append("sessionid=");
    out.append(session_id);
    proof {
        reveal_strlit("sessionid=");
    }
    assert(out@ =~= session_cookie_text(session_id@));
    out
}

/// `s` without its trailing `/` characters.
pub open spec fn trim_trailing_slashes(s: Seq<char>) -> Seq<char>
    decreases s.len(),
{
    if s.len() > 0 && s.last() == '/' {
        trim_trailing_slashes(s.drop_last())
    } else {
        s
    }
}

/// Headers sent with every HTTP request.
#[derive(Debug, Clone, Copy, PartialEq, Eq, Structural)]
pub enum DefaultHeader {
    Origin,
    Referer,
    Cookie,
}

/// The default headers with their values: the site origin, the referer
/// derived from it, and the session cookie exactly when a session id is given.
pub open spec fn are_default_headers(
    h: Seq<(DefaultHeader, String)>,
    site_origin: Seq<char>,
    session_id: Option<Seq<char>>,
) -> bool {
    &&& h.len() == (if session_id is Some { 3int } else { 2int })
    &&& h[0].0 == DefaultHeader::Origin && h[0].1@ == site_origin
    &&& h[1].0 == DefaultHeader::Referer && h[1].1@ == trim_trailing_slashes(site_origin).push('/')
    &&& session_id matches Some(id) ==> h[2].0 == DefaultHeader::Cookie && h[2].1@
        == session_cookie_text(id)
}

/// The headers every HTTP request carries, with their values: the site
/// origin, the referer derived from it, and the session cookie exactly when
/// a session id is configured.
pub fn default_headers(site_origin: &str, session_id: Option<&str>) -> (h: Vec<(DefaultHeader, String)>)
    ensures
        are_default_headers(
            h@,
            site_origin@,
            match session_id {
                Some(id) => Some(id@),
                None => None,
            },
        ),
{
    let mut h: Vec<(DefaultHeader, String)> = Vec::new();
    h.push((DefaultHeader::Origin, site_origin.to_owned()));
    h.push((DefaultHeader::Referer, referer(site_origin)));
    match session_id {
        Some(id) => {
            h.push((DefaultHeader::Cookie, session_cookie(id)));
        },
        None => {},
    }
    h
}

/// Whether `c` may stand in an HTTP header value: a tab, or any character
/// from the space up other than DEL. (The check is made on UTF-8 bytes; every
/// byte of a non-ASCII character is at least 0x80 and passes it.)
pub open spec fn header_char_ok(c: char) -> bool {
    c == '\t' || (c as u32 >= 32 && c as u32 != 127)
}

/// Whether every character of `s` may stand in an HTTP header value.
pub open spec fn header_value_ok(s: Seq<char>) -> bool {
    forall|i: int| 0 <= i < s.len() ==> header_char_ok(#[trigger] s[i])
}

/// `HeaderValue::from_str` of the http crate (as reqwest re-exports it, and
/// as `str::parse` reaches it). Its source accepts a value exactly when every
/// byte is a tab or at least 32 and not 127; claimed: it succeeds exactly
/// where `header_value_ok` holds of the characters.
#[verifier::external_body]
fn header_value_accepts(value: &str) -> (r: bool)
    ensures
        r == header_value_ok(value@),
{
    reqwest::header::HeaderValue::from_str(value).is_ok()
}

/// The default headers of the HTTP client, each value checked as a header
/// value in the order origin, referer, cookie; the first one refused is
/// named in the error.
pub fn checked_default_headers(site_origin: &str, session_id: Option<&str>) -> (r: Result<
    Vec<(DefaultHeader, String)>,
    Error,
>)
    ensures
        !header_value_ok(site_origin@) ==> r == Err::<Vec<(DefaultHeader, String)>, Error>(
            Error::Protocol("invalid site origin configured for reqwest client"),
        ),
        header_value_ok(site_origin@) && !header_value_ok(
            trim_trailing_slashes(site_origin@).push('/'),
        ) ==> r == Err::<Vec<(DefaultHeader, String)>, Error>(
            Error::Protocol("invalid referer configured for reqwest client"),
        ),
        header_value_ok(site_origin@) && header_value_ok(
            trim_trailing_slashes(site_origin@).push('/'),
        ) ==> match session_id {
            Some(id) => if header_value_ok(session_cookie_text(id@)) {
                r matches Ok(h) && are_default_headers(h@, site_origin@, Some(id@))
            } else {
                r == Err::<Vec<(DefaultHeader, String)>, Error>(
                    Error::Protocol("invalid session id configured for cookie header"),
                )
            },
            None => r matches Ok(h) && are_default_headers(h@, site_origin@, None),
        },
{
    let h = default_headers(site_origin, session_id);
    if !header_value_accepts(h[0].1.as_str()) {
        return Err(Error::Protocol("invalid site origin configured for reqwest client"));
    }
    if !header_value_accepts(h[1].1.as_str()) {
        return Err(Error::Protocol("invalid referer configured for reqwest client"));
    }
    if h.len() > 2 && !header_value_accepts(h[2].1.as_str()) {
        return Err(Error::Protocol("invalid session id configured for cookie header"));
    }
    Ok(h)
}

/// Headers of the chart websocket handshake.
#[derive(Debug, Clone, Copy, PartialEq, Eq, Structural)]
pub enum HandshakeHeader {
    Origin,
    UserAgent,
    Cookie,
}

/// The websocket handshake headers with their values: the data origin, the
/// user agent, and the session cookie exactly when a session id is given.
pub open spec fn are_handshake_headers(
    h: Seq<(HandshakeHeader, String)>,
    data_origin: Seq<char>,
    user_agent: Seq<char>,
    session_id: Option<Seq<char>>,
) -> bool {
    &&& h.len() == (if session_id is Some { 3int } else { 2int })
    &&& h[0].0 == HandshakeHeader::Origin && h[0].1@ == data_origin
    &&& h[1].0 == HandshakeHeader::UserAgent && h[1].1@ == user_agent
    &&& session_id matches Some(id) ==> h[2].0 == HandshakeHeader::Cookie && h[2].1@
        == session_cookie_text(id)
}

/// The headers of the chart websocket handshake, each value checked as a
/// header value in the order origin, user agent, cookie; the first one
/// refused is named in the error.
pub fn websocket_handshake_headers(
    data_origin: &str,
    user_agent: &str,
    session_id: Option<&str>,
) -> (r: Result<Vec<(HandshakeHeader, String)>, Error>)
    ensures
        !header_value_ok(data_origin@) ==> r == Err::<Vec<(HandshakeHeader, String)>, Error>(
            Error::Protocol("failed to encode websocket origin header"),
        ),
        header_value_ok(data_origin@) && !header_value_ok(user_agent@) ==> r == Err::<
            Vec<(HandshakeHeader, String)>,
            Error,
        >(Error::Protocol("failed to encode websocket user agent header")),
        header_value_ok(data_origin@) && header_value_ok(user_agent@) ==> match session_id {
            Some(id) => if header_value_ok(session_cookie_text(id@)) {
                r matches Ok(h) && are_handshake_headers(h@, data_origin@, user_agent@, Some(id@))
            } else {
                r == Err::<Vec<(HandshakeHeader, String)>, Error>(
                    Error::Protocol("failed to encode websocket cookie header"),
                )
            },
            None => r matches Ok(h) && are_handshake_headers(h@, data_origin@, user_agent@, None),
        },
{
    if !header_value_accepts(data_origin) {
        return Err(Error::Protocol("failed to encode websocket origin header"));
    }
    if !header_value_accepts(user_agent) {
        return Err(Error::Protocol("failed to encode websocket user agent header"));
    }
    let mut h: Vec<(HandshakeHeader, String)> = Vec::new();
    h.push((HandshakeHeader::Origin, data_origin.to_owned()));
    h.push((HandshakeHeader::UserAgent, user_agent.to_owned()));
    match session_id {
        Some(id) => {
            let cookie = session_cookie(id);
            if !header_value_accepts(cookie.as_str()) {
                return Err(Error::Protocol("failed to encode websocket cookie header"));
            }
            h.push((HandshakeHeader::Cookie, cookie));
        },
        None => {},
    }
    Ok(h)
}

/// `s` without its leading `/` characters.
pub open spec fn trim_leading_slashes(s: Seq<char>) -> Seq<char>
    decreases s.len(),
{
    if s.len() > 0 && s[0] == '/' {
        trim_leading_slashes(s.drop_first())
    } else {
        s
    }
}

/// The referer sent with every request: the site origin with exactly one trailing `/`.
pub fn referer(origin: &str) -> (r: String)
    ensures
        r@ == trim_trailing_slashes(origin@).push('/'),
{
    let v = chars_of(origin);
    let mut end = v.len();
    assert(v@.take(end as int) =~= v@);
    while end > 0 && v[end - 1] == '/'
        invariant
            end <= v@.len(),
            v@ == origin@,
            trim_trailing_slashes(origin@) == trim_trailing_slashes(v@.take(end as int)),
        decreases end,
    {
        assert(v@.take(end as int).drop_last() =~= v@.take(end - 1));
        end = end - 1;
    }
    assert(v@.take(end as int).len() > 0 ==> v@.take(end as int).last() != '/');
    let mut out = string_from_range(&v, 0, end);
    assert(v@.subrange(0, end as int) =~= v@.take(end as int));
    push_char(&mut out, '/');
    out
}

fn strip_leading_slashes(s: &str) -> (r: String)
    ensures
        r@ == trim_leading_slashes(s@),
{
    let v = chars_of(s);
    let mut start: usize = 0;
    assert(v@.skip(0) =~= v@);
    while start < v.len() && v[start] == '/'
        invariant
            start <= v@.len(),
            v@ == s@,
            trim_leading_slashes(s@) == trim_leading_slashes(v@.skip(start as int)),
        decreases v@.len() - start,
    {
        assert(v@.skip(start as int).drop_first() =~= v@.skip(start + 1));
        start = start + 1;
    }
    let r = string_from_range(&v, start, v.len());
    assert(v@.subrange(start as int, v@.len() as int) =~= v@.skip(start as int));
    r
}

/// Whether a search text has something besides whitespace; blank text is refused.
pub fn validate_search_text(text: &str) -> (r: Result<(), Error>)
    ensures
        trim_spec(text@).len() > 0 ==> r is Ok,
        trim_spec(text@).len() == 0 ==> r matches Err(Error::EmptySearchQuery),
{
    let t = trim_owned(text);
    if t.as_str().is_empty() {
        assert(t@.len() == 0);
        Err(Error::EmptySearchQuery)
    } else {
        Ok(())
    }
}

/// HTTP 2xx.
pub open spec fn is_success_status(status: u16) -> bool {
    200 <= status <= 299
}

/// The body of a successful answer; any other status becomes an API error
/// that carries the status and the body.
pub fn check_status(status: u16, body: String) -> (r: Result<String, Error>)
    ensures
        is_success_status(status) ==> (r matches Ok(b) && b == body),
        !is_success_status(status) ==> (r matches Err(Error::ApiStatus { status: s, body: b }) && s
            == status && b == body),
{
    if 200 <= status && status <= 299 {
        Ok(body)
    } else {
        Err(Error::ApiStatus { status, body })
    }
}

// ---------------------------------------------------------------- endpoints

/// The serialization of the URL that `url::Url::parse` reads from `input`,
/// or `None` where it refuses the input.
pub uninterp spec fn url_parse_result(input: Seq<char>) -> Option<Seq<char>>;

/// The message (`Display`) of the `url::ParseError` that `url::Url::parse`
/// gives for an `input` it refuses.
pub uninterp spec fn url_parse_error(input: Seq<char>) -> Seq<char>;

/// The serialization of the URL that `url::Url::join` gives for `route`
/// against the URL that `base` parses to, or `None` where parsing or joining fails.
pub uninterp spec fn url_join_result(base: Seq<char>, route: Seq<char>) -> Option<Seq<char>>;

/// The message (`Display`) of the `url::ParseError` where parsing `base` or
/// joining `route` onto it fails.
pub uninterp spec fn url_join_error(base: Seq<char>, route: Seq<char>) -> Seq<char>;

/// `url::Url::parse`, giving the parsed URL's serialization (`Url::as_str`)
/// or the error's message. Claimed: success exactly where `url_parse_result`
/// is defined, with that text, and otherwise the message `url_parse_error`.
#[verifier::external_body]
fn parse_url_text(input: &str) -> (r: Result<String, String>)
    ensures
        r is Ok <==> url_parse_result(input@) is Some,
        r matches Ok(t) ==> url_parse_result(input@) == Some(t@),
        r matches Err(m) ==> m@ == url_parse_error(input@),
{
    url::Url::parse(input).map(|u| u.as_str().to_owned()).map_err(|e| e.to_string())
}

/// `url::Url::join` of `route` onto the URL that `base` parses to, giving the
/// serialization or the error's message. Claimed: success exactly where
/// `url_join_result` is defined, and otherwise the message `url_join_error`.
#[verifier::external_body]
fn join_url_text(base: &str, route: &str) -> (r: Result<String, String>)
    ensures
        r is Ok <==> url_join_result(base@, route@) is Some,
        r matches Ok(t) ==> url_join_result(base@, route@) == Some(t@),
        r matches Err(m) ==> m@ == url_join_error(base@, route@),
{
    url::Url::parse(base)
        .and_then(|b| b.join(route))
        .map(|u| u.as_str().to_owned())
        .map_err(|e| e.to_string())
}

/// The URL of each TradingView surface the client talks to, kept as the
/// serialization of the parsed URL.
#[derive(Debug, Clone, PartialEq, Eq)]
pub struct Endpoints {
    scanner_base_url: String,
    symbol_search_base_url: String,
    calendar_base_url: String,
    websocket_url: String,
    site_origin: String,
    data_origin: String,
}

/// Position of each surface in [`Endpoints::urls`].
pub open spec fn scanner_slot() -> int {
    0
}

pub open spec fn symbol_search_slot() -> int {
    1
}

pub open spec fn calendar_slot() -> int {
    2
}

pub open spec fn websocket_slot() -> int {
    3
}

pub open spec fn site_origin_slot() -> int {
    4
}

pub open spec fn data_origin_slot() -> int {
    5
}

impl Endpoints {
    /// The six URLs, in the order of the `*_slot` functions.
    pub closed spec fn urls(&self) -> Seq<Seq<char>> {
        seq![
            self.scanner_base_url@,
            self.symbol_search_base_url@,
            self.calendar_base_url@,
            self.websocket_url@,
            self.site_origin@,
            self.data_origin@,
        ]
    }

    pub closed spec fn scanner_base_spec(&self) -> Seq<char> {
        self.scanner_base_url@
    }

    pub proof fn lemma_urls_len(&self)
        ensures
            self.urls().len() == 6,
            self.urls()[scanner_slot()] == self.scanner_base_spec(),
    {
    }

    pub fn scanner_base_url(&self) -> (u: &str)
        ensures
            u@ == self.urls()[scanner_slot()],
    {
        self.scanner_base_url.as_str()
    }

    pub fn symbol_search_base_url(&self) -> (u: &str)
        ensures
            u@ == self.urls()[symbol_search_slot()],
    {
        self.symbol_search_base_url.as_str()
    }

    pub fn calendar_base_url(&self) -> (u: &str)
        ensures
            u@ == self.urls()[calendar_slot()],
    {
        self.calendar_base_url.as_str()
    }

    pub fn websocket_url(&self) -> (u: &str)
        ensures
            u@ == self.urls()[websocket_slot()],
    {
        self.websocket_url.as_str()
    }

    pub fn site_origin(&self) -> (u: &str)
        ensures
            u@ == self.urls()[site_origin_slot()],
    {
        self.site_origin.as_str()
    }

    pub fn data_origin(&self) -> (u: &str)
        ensures
            u@ == self.urls()[data_origin_slot()],
    {
        self.data_origin.as_str()
    }

    pub fn with_scanner_base_url(self, url: &str) -> (r: Result<Self, Error>)
        ensures
            url_parse_result(url@) is None ==> (r matches Err(Error::UrlParse(m)) && m@ == url_parse_error(url@)),
            url_parse_result(url@) matches Some(t) ==> (r matches Ok(e) && e.urls() == self.urls().update(
                scanner_slot(),
                t,
            )),
    {
        match parse_url_text(url) {
            Ok(t) => Ok(Endpoints { scanner_base_url: t, ..self }),
            Err(m) => Err(Error::UrlParse(m)),
        }
    }

    pub fn with_symbol_search_base_url(self, url: &str) -> (r: Result<Self, Error>)
        ensures
            url_parse_result(url@) is None ==> (r matches Err(Error::UrlParse(m)) && m@ == url_parse_error(url@)),
            url_parse_result(url@) matches Some(t) ==> (r matches Ok(e) && e.urls() == self.urls().update(
                symbol_search_slot(),
                t,
            )),
    {
        match parse_url_text(url) {
            Ok(t) => Ok(Endpoints { symbol_search_base_url: t, ..self }),
            Err(m) => Err(Error::UrlParse(m)),
        }
    }

    pub fn with_calendar_base_url(self, url: &str) -> (r: Result<Self, Error>)
        ensures
            url_parse_result(url@) is None ==> (r matches Err(Error::UrlParse(m)) && m@ == url_parse_error(url@)),
            url_parse_result(url@) matches Some(t) ==> (r matches Ok(e) && e.urls() == self.urls().update(
                calendar_slot(),
                t,
            )),
    {
        match parse_url_text(url) {
            Ok(t) => Ok(Endpoints { calendar_base_url: t, ..self }),
            Err(m) => Err(Error::UrlParse(m)),
        }
    }

    pub fn with_websocket_url(self, url: &str) -> (r: Result<Self, Error>)
        ensures
            url_parse_result(url@) is None ==> (r matches Err(Error::UrlParse(m)) && m@ == url_parse_error(url@)),
            url_parse_result(url@) matches Some(t) ==> (r matches Ok(e) && e.urls() == self.urls().update(
                websocket_slot(),
                t,
            )),
    {
        match parse_url_text(url) {
            Ok(t) => Ok(Endpoints { websocket_url: t, ..self }),
            Err(m) => Err(Error::UrlParse(m)),
        }
    }

    pub fn with_site_origin(self, url: &str) -> (r: Result<Self, Error>)
        ensures
            url_parse_result(url@) is None ==> (r matches Err(Error::UrlParse(m)) && m@ == url_parse_error(url@)),
            url_parse_result(url@) matches Some(t) ==> (r matches Ok(e) && e.urls() == self.urls().update(
                site_origin_slot(),
                t,
            )),
    {
        match parse_url_text(url) {
            Ok(t) => Ok(Endpoints { site_origin: t, ..self }),
            Err(m) => Err(Error::UrlParse(m)),
        }
    }

    pub fn with_data_origin(self, url: &str) -> (r: Result<Self, Error>)
        ensures
            url_parse_result(url@) is None ==> (r matches Err(Error::UrlParse(m)) && m@ == url_parse_error(url@)),
            url_parse_result(url@) matches Some(t) ==> (r matches Ok(e) && e.urls() == self.urls().update(
                data_origin_slot(),
                t,
            )),
    {
        match parse_url_text(url) {
            Ok(t) => Ok(Endpoints { data_origin: t, ..self }),
            Err(m) => Err(Error::UrlParse(m)),
        }
    }

    /// A scanner route such as `america/scan`, resolved against the scanner base URL.
    pub fn scanner_url(&self, route: &str) -> (r: Result<String, Error>)
        ensures
            match url_join_result(self.scanner_base_spec(), trim_leading_slashes(route@)) {
                Some(t) => r matches Ok(u) && u@ == t,
                None => r matches Err(Error::UrlParse(m)) && m@ == url_join_error(
                    self.scanner_base_spec(),
                    trim_leading_slashes(route@),
                ),
            },
    {
        let relative = strip_leading_slashes(route);
        match join_url_text(self.scanner_base_url.as_str(), relative.as_str()) {
            Ok(t) => Ok(t),
            Err(m) => Err(Error::UrlParse(m)),
        }
    }

    /// The scanner's field catalogue of a market: `<market>/metainfo`.
    pub fn scanner_metainfo_url(&self, market: &Market) -> (r: Result<String, Error>)
        ensures
            match url_join_result(
                self.scanner_base_spec(),
                trim_leading_slashes(metainfo_route(market@)),
            ) {
                Some(t) => r matches Ok(u) && u@ == t,
                None => r matches Err(Error::UrlParse(m)) && m@ == url_join_error(
                    self.scanner_base_spec(),
                    trim_leading_slashes(metainfo_route(market@)),
                ),
            },
    {
        let mut route = String::new();
        route.append(market.as_str());
        route.append("/metainfo");
        proof {
            reveal_strlit("/metainfo");
        }
        assert(route@ =~= metainfo_route(market@));
        self.scanner_url(route.as_str())
    }
}

/// `<market>/metainfo`.
pub open spec fn metainfo_route(market: Seq<char>) -> Seq<char> {
    market + seq!['/', 'm', 'e', 't', 'a', 'i', 'n', 'f', 'o']
}

/// A built-in address as the URL parser writes it; the address is a valid
/// URL, and should the parser ever refuse it, the text is kept as given.
pub open spec fn builtin_url(text: Seq<char>) -> Seq<char> {
    match url_parse_result(text) {
        Some(t) => t,
        None => text,
    }
}

fn parse_builtin_url(text: &str) -> (u: String)
    ensures
        u@ == builtin_url(text@),
{
    match parse_url_text(text) {
        Ok(t) => t,
        Err(_) => text.to_owned(),
    }
}

pub fn default_scanner_base_url() -> (u: String)
    ensures
        u@ == builtin_url("https://scanner.tradingview.com"@),
{
    parse_builtin_url("https://scanner.tradingview.com")
}

pub fn default_symbol_search_base_url() -> (u: String)
    ensures
        u@ == builtin_url("https://symbol-search.tradingview.com/symbol_search/v3/"@),
{
    parse_builtin_url("https://symbol-search.tradingview.com/symbol_search/v3/")
}

pub fn default_calendar_base_url() -> (u: String)
    ensures
        u@ == builtin_url("https://chartevents-reuters.tradingview.com/events"@),
{
    parse_builtin_url("https://chartevents-reuters.tradingview.com/events")
}

pub fn default_websocket_url() -> (u: String)
    ensures
        u@ == builtin_url("wss://data.tradingview.com/socket.io/websocket"@),
{
    parse_builtin_url("wss://data.tradingview.com/socket.io/websocket")
}

pub fn default_site_origin() -> (u: String)
    ensures
        u@ == builtin_url("https://www.tradingview.com"@),
{
    parse_builtin_url("https://www.tradingview.com")
}

pub fn default_data_origin() -> (u: String)
    ensures
        u@ == builtin_url("https://data.tradingview.com"@),
{
    parse_builtin_url("https://data.tradingview.com")
}

impl Default for Endpoints {
    /// The public TradingView endpoints.
    fn default() -> (e: Self)
        ensures
            e.urls() == seq![
                builtin_url("https://scanner.tradingview.com"@),
                builtin_url("https://symbol-search.tradingview.com/symbol_search/v3/"@),
                builtin_url("https://chartevents-reuters.tradingview.com/events"@),
                builtin_url("wss://data.tradingview.com/socket.io/websocket"@),
                builtin_url("https://www.tradingview.com"@),
                builtin_url("https://data.tradingview.com"@),
            ],
    {
        Endpoints {
            scanner_base_url: default_scanner_base_url(),
            symbol_search_base_url: default_symbol_search_base_url(),
            calendar_base_url: default_calendar_base_url(),
            websocket_url: default_websocket_url(),
            site_origin: default_site_origin(),
            data_origin: default_data_origin(),
        }
    }
}

// ---------------------------------------------------------------- validation

/// Field catalogue a market belongs to.
#[derive(Debug, Clone, Copy, PartialEq, Eq, Hash, Structural)]
pub enum ScreenerKind {
    Stock,
    Crypto,
    Forex,
    Bond,
    Futures,
    Coin,
}

/// The field catalogue of a market; markets without one give `None`, and
/// every market not named here is a stock market.
pub open spec fn screener_kind_of(market: Seq<char>) -> Option<ScreenerKind> {
    if market == "crypto"@ {
        Some(ScreenerKind::Crypto)
    } else if market == "forex"@ {
        Some(ScreenerKind::Forex)
    } else if market == "bond"@ || market == "bonds"@ {
        Some(ScreenerKind::Bond)
    } else if market == "futures"@ {
        Some(ScreenerKind::Futures)
    } else if market == "coin"@ {
        Some(ScreenerKind::Coin)
    } else if market == "options"@ || market == "economics2"@ || market == "cfd"@ {
        None
    } else {
        Some(ScreenerKind::Stock)
    }
}

pub fn market_to_screener_kind(market: &Market) -> (k: Option<ScreenerKind>)
    ensures
        k == screener_kind_of(market@),
{
    let m = market.as_str();
    if str_equals(m, "crypto") {
        Some(ScreenerKind::Crypto)
    } else if str_equals(m, "forex") {
        Some(ScreenerKind::Forex)
    } else if str_equals(m, "bond") || str_equals(m, "bonds") {
        Some(ScreenerKind::Bond)
    } else if str_equals(m, "futures") {
        Some(ScreenerKind::Futures)
    } else if str_equals(m, "coin") {
        Some(ScreenerKind::Coin)
    } else if str_equals(m, "options") || str_equals(m, "economics2") || str_equals(m, "cfd") {
        None
    } else {
        Some(ScreenerKind::Stock)
    }
}

/// The markets a scan validation has to look up; a query without markets cannot be validated.
pub fn validation_markets(markets: &Vec<Market>) -> (r: Result<Vec<Market>, Error>)
    ensures
        markets@.len() == 0 ==> (r matches Err(Error::ScanValidationUnavailable { reason })
            && reason@ == "query does not specify any markets"@),
        markets@.len() > 0 ==> (r matches Ok(v) && v@.len() == markets@.len() && forall|i: int|
            0 <= i < v@.len() ==> #[trigger] v@[i]@ == markets@[i]@),
{
    if markets.len() == 0 {
        return Err(
            Error::ScanValidationUnavailable {
                reason: "query does not specify any markets".to_owned(),
            },
        );
    }
    let mut out: Vec<Market> = Vec::new();
    let mut i: usize = 0;
    while i < markets.len()
        invariant
            i <= markets@.len(),
            out@.len() == i,
            forall|j: int| 0 <= j < i ==> #[trigger] out@[j]@ == markets@[j]@,
        decreases markets@.len() - i,
    {
        out.push(markets[i].duplicate());
        i = i + 1;
    }
    Ok(out)
}


/// The screener kind of each market: `crypto`, `forex`, `bond` and `bonds`,
/// `futures` and `coin` have their own; `options`, `economics2` and `cfd`
/// have none (only live metainfo decides their support); every other market
/// is a stock market.
pub proof fn law_screener_kinds(market: Seq<char>)
    ensures
        market == "crypto"@ ==> screener_kind_of(market) == Some(ScreenerKind::Crypto),
        market == "forex"@ ==> screener_kind_of(market) == Some(ScreenerKind::Forex),
        (market == "bond"@ || market == "bonds"@) ==> screener_kind_of(market) == Some(
            ScreenerKind::Bond,
        ),
        market == "futures"@ ==> screener_kind_of(market) == Some(ScreenerKind::Futures),
        market == "coin"@ ==> screener_kind_of(market) == Some(ScreenerKind::Coin),
        screener_kind_of(market) is None <==> (market == "options"@ || market == "economics2"@
            || market == "cfd"@),
        !(market == "crypto"@ || market == "forex"@ || market == "bond"@ || market == "bonds"@
            || market == "futures"@ || market == "coin"@ || market == "options"@ || market
            == "economics2"@ || market == "cfd"@) ==> screener_kind_of(market) == Some(
            ScreenerKind::Stock,
        ),
{
    reveal_strlit("crypto");
    reveal_strlit("forex");
    reveal_strlit("bond");
    reveal_strlit("bonds");
    reveal_strlit("futures");
    reveal_strlit("coin");
    reveal_strlit("options");
    reveal_strlit("economics2");
    reveal_strlit("cfd");
    let names = seq![
        "crypto"@,
        "forex"@,
        "bond"@,
        "bonds"@,
        "futures"@,
        "coin"@,
        "options"@,
        "economics2"@,
        "cfd"@,
    ];
    assert forall|a: int, b: int| 0 <= a < b < 9 implies #[trigger] names[a] != #[trigger] names[b] by {
        if names[a].len() == names[b].len() {
            assert(names[a][0] != names[b][0]);
        }
    }
    assert(names[0] == "crypto"@ && names[1] == "forex"@ && names[2] == "bond"@ && names[3]
        == "bonds"@ && names[4] == "futures"@ && names[5] == "coin"@ && names[6] == "options"@
        && names[7] == "economics2"@ && names[8] == "cfd"@);
}

} // verus!
