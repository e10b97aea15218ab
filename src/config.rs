//! The exporter's configuration.
use vstd::prelude::*;

verus! {

/// Ping interval used when the configured one cannot be read.
pub const DEFAULT_PING_RATE_IN_SECONDS: u64 = 60;

/// Ping timeout used when the configured one cannot be read.
pub const DEFAULT_TIMEOUT_IN_SECONDS: u64 = 10;

/// Longest duration text handed to humantime. With at most twelve characters
/// the integer parts hold at most eleven digits in all, so the seconds summed
/// stay far below `u64::MAX` (each unit is at most a year of 31 557 600 s),
/// and `parse_duration` never reaches the `Duration::new` that would overflow.
pub const MAX_DURATION_TEXT: usize = 12;

/// What `humantime::parse_duration` makes of a text, as whole seconds and the
/// nanoseconds below them; `None` where it reports an error.
pub uninterp spec fn humantime_duration(s: Seq<char>) -> Option<(u64, u32)>;

/// Relies on `humantime::parse_duration`: its result depends on the text
/// alone, and a `Duration`'s subsecond part is below one second. It returns
/// without panicking on texts of at most `MAX_DURATION_TEXT` characters.
#[verifier::external_body]
fn parse_duration_parts(s: &str) -> (r: Option<(u64, u32)>)
    requires
        s@.len() <= MAX_DURATION_TEXT,
    ensures
        r == humantime_duration(s@),
        r matches Some(d) ==> d.1 < 1_000_000_000,
{
    match humantime::parse_duration(s) {
        Ok(d) => Some((d.as_secs(), d.subsec_nanos())),
        Err(_) => None,
    }
}

/// The health-check settings.
pub struct HealthCheckConfig {
    pub ping_url: String,
    pub ping_rate: String,
    pub timeout: String,
}

/// Everything the exporter is configured with.
pub struct ExporterConfig {
    pub host: String,
    pub validator_tm_address: String,
    pub http_rpc: String,
    pub metrics_content_type: Option<String>,
    pub healthcheck: Option<HealthCheckConfig>,
}

/// The duration humantime reads from a text short enough to hand to it.
pub open spec fn configured_duration(s: Seq<char>) -> Option<(u64, u32)> {
    if s.len() <= MAX_DURATION_TEXT {
        humantime_duration(s)
    } else {
        None
    }
}

/// Reads a duration text; `None` where it is too long or humantime rejects it.
fn read_duration(s: &str) -> (r: Option<(u64, u32)>)
    ensures
        r == configured_duration(s@),
{
    if s.unicode_len() > MAX_DURATION_TEXT {
        None
    } else {
        parse_duration_parts(s)
    }
}

/// A parsed duration, or `default_secs` whole seconds where there is none.
pub fn duration_or_default(parsed: Option<(u64, u32)>, default_secs: u64) -> (r: (u64, u32))
    ensures
        r == (match parsed {
            Some(d) => d,
            None => (default_secs, 0u32),
        }),
{
    match parsed {
        Some(d) => d,
        None => (default_secs, 0),
    }
}

impl HealthCheckConfig {
    /// How often to ping, as seconds and nanoseconds.
    pub fn ping_interval(&self) -> (r: (u64, u32))
        ensures
            r == (match configured_duration(self.ping_rate@) {
                Some(d) => d,
                None => (DEFAULT_PING_RATE_IN_SECONDS, 0u32),
            }),
    {
        duration_or_default(read_duration(self.ping_rate.as_str()), DEFAULT_PING_RATE_IN_SECONDS)
    }

    /// How long a ping may take, as seconds and nanoseconds.
    pub fn timeout_duration(&self) -> (r: (u64, u32))
        ensures
            r == (match configured_duration(self.timeout@) {
                Some(d) => d,
                None => (DEFAULT_TIMEOUT_IN_SECONDS, 0u32),
            }),
    {
        duration_or_default(read_duration(self.timeout.as_str()), DEFAULT_TIMEOUT_IN_SECONDS)
    }
}

} // verus!
