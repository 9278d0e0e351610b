//! Configuration: the event source and the ports and host, read from the
//! values of the environment variables `PERCH_SOURCE`, `PERCH_HOST`,
//! `PERCH_PORT`, `OPENCODE_PORT` and `PERCH_INGEST_PORT`.
use crate::ingest::DEFAULT_INGEST_PORT;
use crate::text::{digit_value, decimal, digits_value, all_digits, is_digit, digit_char, parse_u16, parse_u16_spec, push_decimal, same_text, string_of};
use vstd::prelude::*;
use vstd::string::StringExecFns;

verus! {

/// Event source type.
#[derive(Debug, Clone, Copy, PartialEq, Eq, Structural)]
pub enum EventSource {
    /// Plugin bridge mode (default): opencode plugin POSTs to local HTTP server
    Plugin,
    /// SSE mode (fallback): connect directly to opencode's SSE stream
    Sse,
}

/// Whether every character of `s` is ASCII.
pub open spec fn all_ascii(s: Seq<char>) -> bool {
    forall|i: int| 0 <= i < s.len() ==> (#[trigger] s[i] as u32) < 128
}

/// The ASCII lowercase of `c`.
pub open spec fn ascii_lower(c: char) -> char {
    if 65 <= (c as u32) <= 90 {
        ((c as u32) + 32) as char
    } else {
        c
    }
}

/// The text that `str::to_lowercase` makes of `s`.
pub uninterp spec fn lowercase(s: Seq<char>) -> Seq<char>;

/// Calls `str::to_lowercase`: the result is named `lowercase(s)`, and on ASCII
/// text it lowers `A`..`Z` and keeps every other character (the Unicode
/// lowercase mapping of an ASCII character).
#[verifier::external_body]
fn to_lowercase(s: &str) -> (r: String)
    ensures
        r@ == lowercase(s@),
        all_ascii(s@) ==> r@ == s@.map_values(|c: char| ascii_lower(c)),
{
    s.to_lowercase()
}

/// The source that an already lowercased name selects.
pub open spec fn source_of_lowercase(lower: Seq<char>) -> EventSource {
    if lower == "sse"@ {
        EventSource::Sse
    } else {
        EventSource::Plugin
    }
}

impl EventSource {
    /// The source that an already lowercased name selects: `sse` selects the
    /// stream, everything else the plugin bridge.
    pub fn from_lowercase(lower: &str) -> (r: Self)
        ensures
            r == source_of_lowercase(lower@),
    {
        if same_text(lower, "sse") {
            EventSource::Sse
        } else {
            EventSource::Plugin
        }
    }

    /// Parse from string, ignoring case.
    pub fn from_str(s: &str) -> (r: Self)
        ensures
            r == source_of_lowercase(lowercase(s@)),
            all_ascii(s@) ==> r == source_of_lowercase(s@.map_values(|c: char| ascii_lower(c))),
    {
        let lower = to_lowercase(s);
        Self::from_lowercase(lower.as_str())
    }
}

/// Default opencode SSE event stream port.
pub const DEFAULT_SSE_PORT: u16 = 4096;

/// Default opencode SSE host.
pub const DEFAULT_SSE_HOST: &'static str = "127.0.0.1";

/// What a configuration holds.
pub struct ConfigView {
    pub sse_host: Seq<char>,
    pub sse_port: u16,
    pub ingest_port: u16,
    pub source: EventSource,
}

/// The port that an optional variable value gives, or `default` when it is
/// absent or not a port number.
pub open spec fn port_or(value: Option<Seq<char>>, default: u16) -> u16 {
    match value {
        Some(v) => match parse_u16_spec(v) {
            Some(p) => p,
            None => default,
        },
        None => default,
    }
}

/// The configuration that the environment's values give: `PERCH_SOURCE`
/// (compared without case; default the plugin bridge), `PERCH_HOST` (default
/// 127.0.0.1), `PERCH_PORT` or else `OPENCODE_PORT` (default 4096) and
/// `PERCH_INGEST_PORT` (default 4097). A value that is present but not a port
/// number gives the default; it does not make way for the next variable.
pub open spec fn env_config(
    source: Option<Seq<char>>,
    host: Option<Seq<char>>,
    port: Option<Seq<char>>,
    opencode_port: Option<Seq<char>>,
    ingest_port: Option<Seq<char>>,
) -> ConfigView {
    ConfigView {
        source: match source {
            Some(s) => source_of_lowercase(lowercase(s)),
            None => EventSource::Plugin,
        },
        sse_host: match host {
            Some(h) => h,
            None => DEFAULT_SSE_HOST@,
        },
        sse_port: port_or(
            if port.is_some() {
                port
            } else {
                opencode_port
            },
            DEFAULT_SSE_PORT,
        ),
        ingest_port: port_or(ingest_port, DEFAULT_INGEST_PORT),
    }
}

/// The characters of an optional string slice.
pub open spec fn opt_str(o: Option<&str>) -> Option<Seq<char>> {
    match o {
        Some(s) => Some(s@),
        None => None,
    }
}

/// Parses an optional port value, with a default.
fn port_value_or(value: Option<&str>, default: u16) -> (p: u16)
    ensures
        p == port_or(opt_str(value), default),
{
    match value {
        Some(v) => match parse_u16(v) {
            Some(p) => p,
            None => default,
        },
        None => default,
    }
}

/// Application configuration.
pub struct AppConfig {
    sse_host: String,
    sse_port: u16,
    ingest_port: u16,
    source: EventSource,
}

impl View for AppConfig {
    type V = ConfigView;

    closed spec fn view(&self) -> ConfigView {
        ConfigView {
            sse_host: self.sse_host@,
            sse_port: self.sse_port,
            ingest_port: self.ingest_port,
            source: self.source,
        }
    }
}

/// The URL of opencode's event stream on `host` and `port`.
pub open spec fn event_url(host: Seq<char>, port: u16) -> Seq<char> {
    "http://"@ + host + ":"@ + decimal(port as nat) + "/event"@
}

impl AppConfig {
    /// The configuration that the values of `PERCH_SOURCE`, `PERCH_HOST`,
    /// `PERCH_PORT`, `OPENCODE_PORT` and `PERCH_INGEST_PORT` give (`None` for
    /// a variable that is not set).
    pub fn from_env_values(
        source: Option<&str>,
        host: Option<&str>,
        port: Option<&str>,
        opencode_port: Option<&str>,
        ingest_port: Option<&str>,
    ) -> (c: Self)
        ensures
            c@ == env_config(
                opt_str(source),
                opt_str(host),
                opt_str(port),
                opt_str(opencode_port),
                opt_str(ingest_port),
            ),
            match source {
                Some(s) => all_ascii(s@) ==> ((c@.source == EventSource::Sse) == (s@.map_values(
                    |ch: char| ascii_lower(ch),
                ) == "sse"@)),
                None => c@.source == EventSource::Plugin,
            },
    {
        let source = match source {
            Some(s) => EventSource::from_str(s),
            None => EventSource::Plugin,
        };
        let sse_host = match host {
            Some(h) => h.to_owned(),
            None => DEFAULT_SSE_HOST.to_owned(),
        };
        let sse_port = if port.is_some() {
            port_value_or(port, DEFAULT_SSE_PORT)
        } else {
            port_value_or(opencode_port, DEFAULT_SSE_PORT)
        };
        let ingest_port = port_value_or(ingest_port, DEFAULT_INGEST_PORT);
        AppConfig { sse_host, sse_port, ingest_port, source }
    }

    /// Get the SSE event URL.
    pub fn sse_event_url(&self) -> (url: String)
        ensures
            url@ == event_url(self@.sse_host, self@.sse_port),
    {
        let mut digits: Vec<char> = Vec::new();
        push_decimal(&mut digits, self.sse_port);
        let port = string_of(digits.as_slice(), 0, digits.len());
        assert(digits@.subrange(0, digits@.len() as int) =~= digits@);
        let mut url = String::new();
        url.append("http://");
        url.append(self.sse_host.as_str());
        url.append(":");
        url.append(port.as_str());
        url.append("/event");
        assert(url@ =~= event_url(self@.sse_host, self@.sse_port));
        url
    }

    /// Get the ingest server port.
    pub fn ingest_port(&self) -> (p: u16)
        ensures
            p == self@.ingest_port,
    {
        self.ingest_port
    }

    /// Get the configured event source type.
    pub fn source(&self) -> (s: EventSource)
        ensures
            s == self@.source,
    {
        self.source
    }
}

/// What the application starts for an event source.
pub struct StartupPlan {
    /// Install (or update) the opencode plugin.
    pub install_plugin: bool,
    /// Run the local ingest server that the plugin posts to.
    pub run_ingest_server: bool,
    /// Connect to opencode's event stream.
    pub run_event_stream: bool,
}

/// The plugin bridge installs the plugin and runs the ingest server; the
/// stream mode only connects to opencode's event stream.
pub fn startup_plan(source: EventSource) -> (p: StartupPlan)
    ensures
        p.install_plugin == (source == EventSource::Plugin),
        p.run_ingest_server == (source == EventSource::Plugin),
        p.run_event_stream == (source == EventSource::Sse),
{
    match source {
        EventSource::Plugin => StartupPlan {
            install_plugin: true,
            run_ingest_server: true,
            run_event_stream: false,
        },
        EventSource::Sse => StartupPlan {
            install_plugin: false,
            run_ingest_server: false,
            run_event_stream: true,
        },
    }
}

/// Writing a port in decimal and reading it back gives the same port.
pub proof fn law_port_round_trip(port: u16)
    ensures
        parse_u16_spec(decimal(port as nat)) == Some(port),
{
    lemma_decimal_digits(port as nat);
}

/// The decimal writing of `n` is a nonempty run of digits that writes `n`.
proof fn lemma_decimal_digits(n: nat)
    ensures
        decimal(n).len() > 0,
        all_digits(decimal(n)),
        digits_value(decimal(n)) == n,
    decreases n,
{
    if n < 10 {
        let s = decimal(n);
        assert(s.drop_last() =~= Seq::<char>::empty());
        assert((digit_char(n) as u32) == 48 + n);
        assert(is_digit(digit_char(n)));
        assert(digit_value(s.last()) == n);
        assert(digits_value(s.drop_last()) == 0);
        assert(digits_value(s) == digits_value(s.drop_last()) * 10 + digit_value(s.last()));
    } else {
        lemma_decimal_digits(n / 10);
        let s = decimal(n);
        assert(s.drop_last() =~= decimal(n / 10));
        assert((digit_char(n % 10) as u32) == 48 + n % 10);
        assert(n == (n / 10) * 10 + n % 10) by (nonlinear_arith);
        assert(s.last() == digit_char(n % 10));
        assert(digit_value(s.last()) == n % 10);
        assert(digits_value(s) == digits_value(s.drop_last()) * 10 + digit_value(s.last()));
        assert(is_digit(digit_char(n % 10)));
        assert forall|i: int| 0 <= i < s.len() implies is_digit(#[trigger] s[i]) by {
            if i < s.len() - 1 {
                assert(s[i] == decimal(n / 10)[i]);
            }
        }
    }
}

/// `PERCH_PORT`, when set, decides the stream's port: `OPENCODE_PORT` is then
/// not read, even when `PERCH_PORT` is not a port number.
pub proof fn law_perch_port_takes_precedence(
    source: Option<Seq<char>>,
    host: Option<Seq<char>>,
    port: Seq<char>,
    opencode_port: Option<Seq<char>>,
    ingest_port: Option<Seq<char>>,
)
    ensures
        env_config(source, host, Some(port), opencode_port, ingest_port).sse_port == port_or(
            Some(port),
            DEFAULT_SSE_PORT,
        ),
{
}

/// Of the lowercased names, `sse` alone selects the event stream; every other
/// name, `plugin` among them, selects the plugin bridge.
pub proof fn law_only_sse_selects_the_stream(lower: Seq<char>)
    ensures
        (source_of_lowercase(lower) == EventSource::Sse) <==> lower == "sse"@,
        (source_of_lowercase(lower) == EventSource::Plugin) <==> lower != "sse"@,
{
}

/// The event stream is chosen exactly when `PERCH_SOURCE` is set and reads
/// `sse` once lowercased; when it is unset, or holds anything else (such as
/// `plugin`), the plugin bridge is used.
pub proof fn law_stream_only_when_asked_for(
    source: Option<Seq<char>>,
    host: Option<Seq<char>>,
    port: Option<Seq<char>>,
    opencode_port: Option<Seq<char>>,
    ingest_port: Option<Seq<char>>,
)
    ensures
        (env_config(source, host, port, opencode_port, ingest_port).source == EventSource::Sse)
            <==> (source matches Some(s) && lowercase(s) == "sse"@),
        (env_config(source, host, port, opencode_port, ingest_port).source == EventSource::Plugin)
            <==> !(source matches Some(s) && lowercase(s) == "sse"@),
{
}

/// With no variable set, the configuration is the documented default: the
/// plugin bridge, host 127.0.0.1, stream port 4096 and ingest port 4097.
pub proof fn law_defaults()
    ensures
        env_config(None, None, None, None, None) == (ConfigView {
            sse_host: DEFAULT_SSE_HOST@,
            sse_port: 4096,
            ingest_port: 4097,
            source: EventSource::Plugin,
        }),
{
}

} // verus!
