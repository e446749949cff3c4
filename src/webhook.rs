use vstd::prelude::*;
use vstd::string::{StrSliceExecFns, StringExecFns};

verus! {

#[verifier::external_type_specification]
#[verifier::external_body]
pub struct ExUrl(url::Url);

#[verifier::external_type_specification]
#[verifier::external_body]
pub struct ExParseError(url::ParseError);

/// Whether `url::Url::parse` accepts a text as an absolute URL.
pub uninterp spec fn url_accepts(text: Seq<char>) -> bool;

/// Relies on `url::Url::parse`: it parses an absolute URL, and whether it succeeds depends on the
/// text alone.
#[verifier::external_body]
fn parse_url(text: &str) -> (r: Result<url::Url, url::ParseError>)
    ensures
        r is Ok <==> url_accepts(text@),
{
    url::Url::parse(text)
}

/// Why the webhook configuration could not be built.
#[derive(PartialEq, Eq, Structural, Debug, Clone, Copy)]
pub enum ConfigError {
    /// The port is not a decimal number in the range of a port.
    InvalidPort,
    /// The external address does not form a valid URL.
    MalformedUrl,
}

/// Certificate and key files for serving over TLS.
pub struct TlsPaths {
    pub cert: String,
    pub key: String,
}

/// The socket address the server binds: an IPv4 address and a port.
#[derive(Debug, Clone, Copy)]
pub struct BindAddress {
    pub octets: [u8; 4],
    pub port: u16,
}

/// Everything the webhook listener and its server need.
pub struct ListenerConfig {
    pub bind_address: BindAddress,
    /// The address the platform is told to push updates to.
    pub external_url: url::Url,
    /// The route the server answers on; it holds the bot's secret token.
    pub path: String,
    /// Present when the server terminates TLS itself.
    pub tls: Option<TlsPaths>,
}

/// The port used when none is configured: 443 with TLS, 80 without.
pub open spec fn default_port_of(tls: bool) -> u16 {
    if tls {
        443
    } else {
        80
    }
}

pub open spec fn is_digit(c: char) -> bool {
    '0' <= c <= '9'
}

/// The value of a run of decimal digits.
pub open spec fn decimal(s: Seq<char>) -> int
    decreases s.len(),
{
    if s.len() == 0 {
        0
    } else {
        decimal(s.drop_last()) * 10 + (s.last() as int - '0' as int)
    }
}

/// The digits of a port text: what follows an optional leading `+`.
pub open spec fn port_digits(s: Seq<char>) -> Seq<char> {
    if s.len() > 0 && s[0] == '+' {
        s.subrange(1, s.len() as int)
    } else {
        s
    }
}

/// The port a text names, if it names one: an optional `+`, then at least one decimal digit,
/// and a value that fits in 16 bits.
pub open spec fn port_of(s: Seq<char>) -> Option<u16> {
    let d = port_digits(s);
    if d.len() > 0 && (forall|i: int| 0 <= i < d.len() ==> is_digit(#[trigger] d[i])) && decimal(d)
        <= u16::MAX {
        Some(decimal(d) as u16)
    } else {
        None
    }
}

pub open spec fn webhook_path_of(token: Seq<char>) -> Seq<char> {
    "/bot"@ + token
}

/// The address the platform pushes updates to: the external host, then the secret route.
pub open spec fn webhook_url_of(host: Seq<char>, token: Seq<char>) -> Seq<char> {
    "https://"@ + host + webhook_path_of(token)
}

/// The port used when none is configured: 443 with TLS, 80 without.
pub fn default_port(tls: bool) -> (r: u16)
    ensures
        r == default_port_of(tls),
{
    if tls {
        443
    } else {
        80
    }
}

/// The port to bind: the configured one, else the default for the serving mode.
pub fn listen_port(port: Option<u16>, tls: bool) -> (r: u16)
    ensures
        r == match port {
            Some(p) => p,
            None => default_port_of(tls),
        },
{
    match port {
        Some(p) => p,
        None => default_port(tls),
    }
}

proof fn lemma_decimal_grows(s: Seq<char>)
    requires
        s.len() > 0,
        forall|i: int| 0 <= i < s.len() ==> is_digit(#[trigger] s[i]),
    ensures
        decimal(s) >= decimal(s.drop_last()) * 10,
        decimal(s) >= 0,
    decreases s.len(),
{
    if s.len() > 1 {
        assert forall|i: int| 0 <= i < s.drop_last().len() implies is_digit(
            #[trigger] s.drop_last()[i],
        ) by {
            assert(s.drop_last()[i] == s[i]);
        }
        lemma_decimal_grows(s.drop_last());
    }
    assert(is_digit(s.last()));
}

/// Reads a configured port: an optional `+` and decimal digits, with a value that fits in
/// 16 bits.
pub fn parse_port(raw: &str) -> (r: Result<u16, ConfigError>)
    ensures
        match port_of(raw@) {
            Some(p) => r == Ok::<u16, ConfigError>(p),
            None => r == Err::<u16, ConfigError>(ConfigError::InvalidPort),
        },
{
    let n = raw.unicode_len();
    let mut start: usize = 0;
    if n > 0 && raw.get_char(0) == '+' {
        start = 1;
    }
    let ghost d = port_digits(raw@);
    assert(d =~= raw@.subrange(start as int, n as int));
    if start == n {
        return Err(ConfigError::InvalidPort);
    }
    // The value read so far, held at 65536 once it passes the largest port.
    let mut value: u32 = 0;
    let mut i: usize = start;
    while i < n
        invariant
            start <= i <= n,
            n == raw@.len(),
            d == raw@.subrange(start as int, n as int),
            d == port_digits(raw@),
            forall|j: int| 0 <= j < i - start ==> is_digit(#[trigger] d[j]),
            value == (if decimal(d.take(i - start)) > u16::MAX {
                65536
            } else {
                decimal(d.take(i - start))
            }),
        decreases n - i,
    {
        let c = raw.get_char(i);
        let ghost k = i - start;
        assert(d[k] == c);
        if c < '0' || c > '9' {
            assert(!is_digit(d[k]));
            return Err(ConfigError::InvalidPort);
        }
        proof {
            assert(d.take(k + 1).drop_last() =~= d.take(k));
            assert forall|j: int| 0 <= j < k + 1 implies is_digit(#[trigger] d.take(k + 1)[j]) by {}
            lemma_decimal_grows(d.take(k + 1));
        }
        let digit = (c as u32) - ('0' as u32);
        if value > 65535 {
            value = 65536;
        } else {
            value = value * 10 + digit;
            if value > 65535 {
                value = 65536;
            }
        }
        i = i + 1;
    }
    proof {
        assert(d.take(n - start) =~= d);
    }
    if value > 65535 {
        Err(ConfigError::InvalidPort)
    } else {
        Ok(value as u16)
    }
}

/// The route the platform pushes updates to: `/bot` followed by the secret token.
pub fn webhook_path(token: &str) -> (r: String)
    ensures
        r@ == webhook_path_of(token@),
{
    let mut path = <String as StringExecFns>::from_str("/bot");
    path.append(token);
    path
}

/// The full address the platform is told to push updates to.
pub fn webhook_url(host: &str, token: &str) -> (r: String)
    ensures
        r@ == webhook_url_of(host@, token@),
{
    let mut url = <String as StringExecFns>::from_str("https://");
    url.append(host);
    let path = webhook_path(token);
    url.append(path.as_str());
    proof {
        assert(url@ =~= webhook_url_of(host@, token@));
    }
    url
}

/// Builds the webhook listener's configuration: the server binds every IPv4 interface on the
/// configured port (else the default for the serving mode), and the platform is pointed at
/// `https://<host>/bot<token>`. Fails exactly when that address is not a valid URL.
pub fn webhook_config(host: &str, token: &str, port: Option<u16>, tls: Option<TlsPaths>) -> (r:
    Result<ListenerConfig, ConfigError>)
    ensures
        r is Ok <==> url_accepts(webhook_url_of(host@, token@)),
        r is Err ==> r->Err_0 == ConfigError::MalformedUrl,
        r is Ok ==> {
            let c = r->Ok_0;
            &&& c.bind_address.octets@ == seq![0u8, 0u8, 0u8, 0u8]
            &&& c.bind_address.port == match port {
                Some(p) => p,
                None => default_port_of(tls is Some),
            }
            &&& c.path@ == webhook_path_of(token@)
            &&& c.tls == tls
        },
{
    let text = webhook_url(host, token);
    match parse_url(text.as_str()) {
        Ok(external_url) => {
            let bind_address = BindAddress { octets: [0, 0, 0, 0], port: listen_port(port, tls.is_some()) };
            assert(bind_address.octets@ =~= seq![0u8, 0u8, 0u8, 0u8]);
            Ok(ListenerConfig { bind_address, external_url, path: webhook_path(token), tls })
        },
        Err(_) => Err(ConfigError::MalformedUrl),
    }
}

/// Whether two texts are the same, character by character.
pub fn same_text(a: &str, b: &str) -> (r: bool)
    ensures
        r == (a@ == b@),
{
    let n = a.unicode_len();
    if n != b.unicode_len() {
        return false;
    }
    let mut i: usize = 0;
    while i < n
        invariant
            i <= n,
            n == a@.len(),
            n == b@.len(),
            forall|j: int| 0 <= j < i ==> a@[j] == b@[j],
        decreases n - i,
    {
        if a.get_char(i) != b.get_char(i) {
            return false;
        }
        i = i + 1;
    }
    assert(a@ =~= b@);
    true
}

/// What the webhook endpoint answers to one request: its HTTP status and whether the parsed
/// update is handed to the pipeline.
pub open spec fn webhook_status(
    route_matches: bool,
    is_post: bool,
    secret_ok: bool,
    stopped: bool,
    parsed: bool,
) -> u16 {
    if !route_matches {
        404
    } else if !is_post {
        405
    } else if !secret_ok {
        401
    } else if stopped {
        503
    } else if !parsed {
        400
    } else {
        200
    }
}

/// The answer to one webhook request and the update it yields, if any.
pub struct WebhookReply<T> {
    pub status: u16,
    pub update: Option<T>,
}

/// Decides one inbound webhook request. Only a POST to the secret route, with the expected
/// secret header (when one is configured), to a listener not yet stopped, whose body parsed
/// as an update, yields that update, with status 200. Otherwise nothing is yielded: 404 for
/// another route, 405 for another method, 401 for a wrong secret, 503 once stopped, and 400 for
/// a body that did not parse.
pub fn webhook_reply<T>(
    path: &str,
    expected_path: &str,
    is_post: bool,
    secret_ok: bool,
    stopped: bool,
    parsed: Option<T>,
) -> (r: WebhookReply<T>)
    ensures
        r.status == webhook_status(path@ == expected_path@, is_post, secret_ok, stopped, parsed is Some),
        r.update is Some <==> r.status == 200,
        r.update is Some ==> r.update == parsed,
{
    let route_matches = same_text(path, expected_path);
    let status = if !route_matches {
        404
    } else if !is_post {
        405
    } else if !secret_ok {
        401
    } else if stopped {
        503
    } else if parsed.is_none() {
        400
    } else {
        200
    };
    if status == 200 {
        WebhookReply { status, update: parsed }
    } else {
        WebhookReply { status, update: None }
    }
}

/// A POST to the secret route of a running listener with the right secret yields exactly the
/// update its body parsed to, with a success status; a body that did not parse yields nothing,
/// with a client error.
pub proof fn lemma_webhook_boundary(parsed: bool)
    ensures
        parsed ==> webhook_status(true, true, true, false, parsed) == 200,
        !parsed ==> 400 <= webhook_status(true, true, true, false, parsed) < 500,
{
}

} // verus!
