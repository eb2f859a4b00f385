//! Observability settings: the OTLP export configuration, the endpoint of
//! each exporter, log levels, and the shutdown of the OpenTelemetry
//! providers.
use vstd::prelude::*;
use vstd::string::*;
use crate::text::parse_unsigned;
use opentelemetry_sdk::logs::SdkLoggerProvider;
use opentelemetry_sdk::metrics::SdkMeterProvider;
use opentelemetry_sdk::trace::SdkTracerProvider;

verus! {

/// OTLP transport protocol.
#[derive(Debug, Clone, Copy, PartialEq, Eq, Structural)]
pub enum OtlpProtocol {
    /// gRPC (port 4317 by convention)
    Grpc,
    /// HTTP/protobuf (port 4318 by convention)
    Http,
}

impl Default for OtlpProtocol {
    fn default() -> (p: Self)
        ensures
            p == OtlpProtocol::Http,
    {
        OtlpProtocol::Http
    }
}

/// Configuration for OTLP export.
#[derive(Debug)]
pub struct OtlpConfig {
    /// OTLP collector endpoint.
    pub endpoint: String,
    /// The `service.name` resource attribute.
    pub service_name: String,
    /// Transport protocol.
    pub protocol: OtlpProtocol,
}

/// Endpoint used when none is configured.
pub open spec fn default_endpoint() -> Seq<char> {
    "http://localhost:4318"@
}

/// Service name used when none is configured.
pub open spec fn default_service_name() -> Seq<char> {
    "lancedb"@
}

/// `value` where it is set, `fallback` otherwise.
pub open spec fn setting_or(value: Option<String>, fallback: Seq<char>) -> Seq<char> {
    match value {
        Some(v) => v@,
        None => fallback,
    }
}

impl OtlpConfig {
    /// The configuration given the values of `OTEL_EXPORTER_OTLP_ENDPOINT`
    /// and `OTEL_SERVICE_NAME` (`None` where unset): each falls back to
    /// `http://localhost:4318` and `lancedb`, and the protocol is HTTP.
    pub fn from_environment(endpoint: Option<String>, service_name: Option<String>) -> (c: Self)
        ensures
            c.endpoint@ == setting_or(endpoint, default_endpoint()),
            c.service_name@ == setting_or(service_name, default_service_name()),
            c.protocol == OtlpProtocol::Http,
    {
        let endpoint = match endpoint {
            Some(e) => e,
            None => String::from_str("http://localhost:4318"),
        };
        let service_name = match service_name {
            Some(s) => s,
            None => String::from_str("lancedb"),
        };
        OtlpConfig { endpoint, service_name, protocol: OtlpProtocol::default() }
    }
}

/// The three OTLP signals, each exported to its own endpoint.
#[derive(Debug, Clone, Copy, PartialEq, Eq, Structural)]
pub enum OtlpSignal {
    Traces,
    Metrics,
    Logs,
}

/// `s` without its trailing `/` characters.
pub open spec fn trim_end_slashes(s: Seq<char>) -> Seq<char>
    decreases s.len(),
{
    if s.len() > 0 && s.last() == '/' {
        trim_end_slashes(s.drop_last())
    } else {
        s
    }
}

/// `s` without its trailing `/` characters, as `s.trim_end_matches('/')`.
pub fn trim_end_slashes_str(s: &str) -> (r: &str)
    ensures
        r@ == trim_end_slashes(s@),
{
    let mut n = s.unicode_len();
    proof {
        assert(s@.take(n as int) == s@);
    }
    while n > 0 && s.get_char(n - 1) == '/'
        invariant
            n <= s@.len(),
            trim_end_slashes(s@.take(n as int)) == trim_end_slashes(s@),
        decreases n,
    {
        proof {
            assert(s@.take(n as int).drop_last() == s@.take(n - 1));
        }
        n = n - 1;
    }
    proof {
        assert(s@.subrange(0, n as int) == s@.take(n as int));
    }
    s.substring_char(0, n)
}

/// The URL path that an HTTP exporter of `signal` posts to.
pub open spec fn signal_path(signal: OtlpSignal) -> Seq<char> {
    match signal {
        OtlpSignal::Traces => "/v1/traces"@,
        OtlpSignal::Metrics => "/v1/metrics"@,
        OtlpSignal::Logs => "/v1/logs"@,
    }
}

/// The endpoint that the exporter of `signal` sends to: the configured
/// endpoint without trailing `/`, followed for HTTP by the signal's path.
pub open spec fn signal_endpoint_of(endpoint: Seq<char>, protocol: OtlpProtocol, signal: OtlpSignal) -> Seq<char> {
    match protocol {
        OtlpProtocol::Http => trim_end_slashes(endpoint) + signal_path(signal),
        OtlpProtocol::Grpc => trim_end_slashes(endpoint),
    }
}

/// The endpoint that the exporter of `signal` sends to.
pub fn signal_endpoint(endpoint: &str, protocol: OtlpProtocol, signal: OtlpSignal) -> (r: String)
    ensures
        r@ == signal_endpoint_of(endpoint@, protocol, signal),
        protocol == OtlpProtocol::Grpc ==> r@ == trim_end_slashes(endpoint@),
        protocol == OtlpProtocol::Http ==> r@ == trim_end_slashes(endpoint@) + signal_path(signal),
{
    let base = String::from_str(trim_end_slashes_str(endpoint));
    match protocol {
        OtlpProtocol::Grpc => base,
        OtlpProtocol::Http => match signal {
            OtlpSignal::Traces => base.concat("/v1/traces"),
            OtlpSignal::Metrics => base.concat("/v1/metrics"),
            OtlpSignal::Logs => base.concat("/v1/logs"),
        },
    }
}

/// Options for configuring OTLP profiling export (the Node.js `initProfiling`
/// options).
#[derive(Debug)]
pub struct ProfilingOptions {
    /// The OTLP collector endpoint (e.g. "http://localhost:4318").
    pub otlp_endpoint: Option<String>,
    /// The service name for telemetry.
    pub service_name: Option<String>,
    /// Transport protocol: "http" (default) or "grpc".
    pub protocol: Option<String>,
}

/// The protocol that a protocol option names: gRPC for exactly `grpc`, HTTP
/// for anything else.
pub open spec fn protocol_named(name: Seq<char>) -> OtlpProtocol {
    if name == "grpc"@ {
        OtlpProtocol::Grpc
    } else {
        OtlpProtocol::Http
    }
}

/// The protocol that a protocol option names.
pub fn protocol_from_name(name: &String) -> (p: OtlpProtocol)
    ensures
        p == protocol_named(name@),
{
    let grpc = String::from_str("grpc");
    if *name == grpc {
        OtlpProtocol::Grpc
    } else {
        OtlpProtocol::Http
    }
}

/// `config` with every option that is set in `options` put in its place.
pub open spec fn with_options(config: OtlpConfig, options: ProfilingOptions) -> (Seq<char>, Seq<char>, OtlpProtocol) {
    (
        setting_or(options.otlp_endpoint, config.endpoint@),
        setting_or(options.service_name, config.service_name@),
        match options.protocol {
            Some(p) => protocol_named(p@),
            None => config.protocol,
        },
    )
}

/// The export configuration that `initProfiling(options)` uses: `config`
/// (the defaults) overridden by each option that is set.
pub fn apply_profiling_options(config: OtlpConfig, options: Option<ProfilingOptions>) -> (c: OtlpConfig)
    ensures
        match options {
            None => c == config,
            Some(o) => (c.endpoint@, c.service_name@, c.protocol) == with_options(config, o),
        },
{
    match options {
        None => config,
        Some(opts) => {
            let OtlpConfig { mut endpoint, mut service_name, mut protocol } = config;
            if let Some(e) = opts.otlp_endpoint {
                endpoint = e;
            }
            if let Some(n) = opts.service_name {
                service_name = n;
            }
            if let Some(p) = opts.protocol {
                protocol = protocol_from_name(&p);
            }
            OtlpConfig { endpoint, service_name, protocol }
        },
    }
}

/// Severity threshold of the tracing subscriber.
#[derive(Debug, Clone, Copy, PartialEq, Eq, Structural)]
pub enum LogLevel {
    Off,
    Error,
    Warn,
    Info,
    Debug,
    Trace,
}

/// How much a level lets through: 0 for off, up to 5 for trace.
pub open spec fn verbosity(l: LogLevel) -> nat {
    match l {
        LogLevel::Off => 0,
        LogLevel::Error => 1,
        LogLevel::Warn => 2,
        LogLevel::Info => 3,
        LogLevel::Debug => 4,
        LogLevel::Trace => 5,
    }
}

fn verbosity_of(l: LogLevel) -> (v: u8)
    ensures
        v == verbosity(l),
{
    match l {
        LogLevel::Off => 0,
        LogLevel::Error => 1,
        LogLevel::Warn => 2,
        LogLevel::Info => 3,
        LogLevel::Debug => 4,
        LogLevel::Trace => 5,
    }
}

impl LogLevel {
    /// Whether a subscriber at this level processes spans and events of level
    /// `event` (error, warn, info, debug or trace): those no more verbose
    /// than the level itself.
    pub fn enables(&self, event: LogLevel) -> (r: bool)
        ensures
            r == (verbosity(event) <= verbosity(*self)),
            *self == LogLevel::Off ==> r == (event == LogLevel::Off),
            *self == LogLevel::Error ==> r == (event == LogLevel::Off || event == LogLevel::Error),
            *self == LogLevel::Warn ==> r == (event != LogLevel::Info && event != LogLevel::Debug
                && event != LogLevel::Trace),
            *self == LogLevel::Info ==> r == (event != LogLevel::Debug && event != LogLevel::Trace),
            *self == LogLevel::Debug ==> r == (event != LogLevel::Trace),
            *self == LogLevel::Trace ==> r,
    {
        verbosity_of(event) <= verbosity_of(*self)
    }
}

/// `c` in lower case where it is an ASCII capital letter.
pub open spec fn ascii_lower(c: char) -> char {
    if 'A' <= c && c <= 'Z' {
        ((c as int) + 32) as char
    } else {
        c
    }
}

/// `a` and `b` are equal up to the case of ASCII letters.
pub open spec fn eq_ignore_ascii_case(a: Seq<char>, b: Seq<char>) -> bool {
    a.len() == b.len() && forall|i: int| 0 <= i < a.len() ==> ascii_lower(a[i]) == ascii_lower(b[i])
}

/// The level that a level number names (0 is off, 5 is trace).
pub open spec fn level_numbered(n: nat) -> LogLevel {
    if n == 0 {
        LogLevel::Off
    } else if n == 1 {
        LogLevel::Error
    } else if n == 2 {
        LogLevel::Warn
    } else if n == 3 {
        LogLevel::Info
    } else if n == 4 {
        LogLevel::Debug
    } else {
        LogLevel::Trace
    }
}

/// What `tracing`'s level filter parses `s` into: a decimal number from 0
/// to 5 (as `usize` parses it), the empty string (error), or a level name in
/// any ASCII case.
pub open spec fn level_filter_of(s: Seq<char>) -> Option<LogLevel> {
    let num = parse_unsigned(s, 10, usize::MAX as nat);
    if num is Some && num->0 <= 5 {
        Some(level_numbered(num->0))
    } else if s.len() == 0 {
        Some(LogLevel::Error)
    } else if eq_ignore_ascii_case(s, "error"@) {
        Some(LogLevel::Error)
    } else if eq_ignore_ascii_case(s, "warn"@) {
        Some(LogLevel::Warn)
    } else if eq_ignore_ascii_case(s, "info"@) {
        Some(LogLevel::Info)
    } else if eq_ignore_ascii_case(s, "debug"@) {
        Some(LogLevel::Debug)
    } else if eq_ignore_ascii_case(s, "trace"@) {
        Some(LogLevel::Trace)
    } else if eq_ignore_ascii_case(s, "off"@) {
        Some(LogLevel::Off)
    } else {
        None
    }
}

/// `<tracing::level_filters::LevelFilter as FromStr>::from_str`: the contract
/// claims it accepts exactly what `level_filter_of` describes (a number from 0
/// to 5, the empty string, or a level name in any ASCII case), as its source
/// shows.
#[verifier::external_body]
fn parse_level_filter(s: &str) -> (r: Option<LogLevel>)
    ensures
        r == level_filter_of(s@),
{
    match s.parse::<tracing::level_filters::LevelFilter>() {
        Ok(f) => Some(match f.into_level() {
            None => LogLevel::Off,
            Some(tracing::Level::ERROR) => LogLevel::Error,
            Some(tracing::Level::WARN) => LogLevel::Warn,
            Some(tracing::Level::INFO) => LogLevel::Info,
            Some(tracing::Level::DEBUG) => LogLevel::Debug,
            Some(_) => LogLevel::Trace,
        }),
        Err(_) => None,
    }
}

/// The level that a `LANCEDB_LOG` value selects.
pub open spec fn level_setting(setting: Option<String>) -> LogLevel {
    match setting {
        Some(s) => match level_filter_of(s@) {
            Some(l) => l,
            None => LogLevel::Warn,
        },
        None => LogLevel::Warn,
    }
}

/// The level that the value of `LANCEDB_LOG` (`None` where unset) selects:
/// the level it names, or warn where it is unset or does not parse.
pub fn level_from_setting(setting: &Option<String>) -> (l: LogLevel)
    ensures
        l == level_setting(*setting),
{
    match setting {
        Some(s) => match parse_level_filter(s.as_str()) {
            Some(l) => l,
            None => LogLevel::Warn,
        },
        None => LogLevel::Warn,
    }
}

/// The levels of the subscriber once OTLP export is switched on: every span
/// and event reaches the exporters (trace), and console output is kept only
/// where `LANCEDB_LOG` is set, at the level it selects.
pub fn upgraded_levels(setting: &Option<String>) -> (r: (LogLevel, Option<LogLevel>))
    ensures
        r.0 == LogLevel::Trace,
        r.1 == match *setting {
            Some(_) => Some(level_setting(*setting)),
            None => None,
        },
{
    let console = match setting {
        Some(_) => Some(level_from_setting(setting)),
        None => None,
    };
    (LogLevel::Trace, console)
}

/// Trailing slashes of the configured endpoint make no difference: each
/// exporter sends to the same endpoint with or without them.
pub proof fn lemma_signal_endpoint_ignores_trailing_slash(endpoint: Seq<char>, protocol: OtlpProtocol, signal: OtlpSignal)
    ensures
        signal_endpoint_of(endpoint.push('/'), protocol, signal) == signal_endpoint_of(endpoint, protocol, signal),
{
    assert(endpoint.push('/').drop_last() == endpoint);
}

/// An HTTP endpoint never ends in a doubled slash before the signal path:
/// the base it is built from has no trailing `/`.
pub proof fn lemma_trimmed_base_has_no_trailing_slash(endpoint: Seq<char>)
    ensures
        trim_end_slashes(endpoint).len() == 0 || trim_end_slashes(endpoint).last() != '/',
        trim_end_slashes(endpoint).len() <= endpoint.len(),
        trim_end_slashes(endpoint) == endpoint.take(trim_end_slashes(endpoint).len() as int),
    decreases endpoint.len(),
{
    if endpoint.len() > 0 && endpoint.last() == '/' {
        lemma_trimmed_base_has_no_trailing_slash(endpoint.drop_last());
        let t = trim_end_slashes(endpoint.drop_last());
        assert(endpoint.drop_last().take(t.len() as int) == endpoint.take(t.len() as int));
    } else {
        assert(endpoint.take(endpoint.len() as int) == endpoint);
    }
}

/// Options that set nothing leave the configuration as it is.
pub proof fn lemma_unset_options_keep_config(config: OtlpConfig, options: ProfilingOptions)
    requires
        options.otlp_endpoint is None,
        options.service_name is None,
        options.protocol is None,
    ensures
        with_options(config, options) == (config.endpoint@, config.service_name@, config.protocol),
{
}

/// Without a `LANCEDB_LOG` value, or with one that names no level, the
/// subscriber logs warnings and errors.
pub proof fn lemma_level_defaults_to_warn(setting: Option<String>)
    requires
        setting matches Some(s) ==> level_filter_of(s@) is None,
    ensures
        level_setting(setting) == LogLevel::Warn,
{
}

#[verifier::external_type_specification]
#[verifier::external_body]
pub struct ExSdkTracerProvider(SdkTracerProvider);

#[verifier::external_type_specification]
#[verifier::external_body]
pub struct ExSdkMeterProvider(SdkMeterProvider);

#[verifier::external_type_specification]
#[verifier::external_body]
pub struct ExSdkLoggerProvider(SdkLoggerProvider);

/// `SdkTracerProvider::shutdown`, which flushes and stops the tracer provider
/// (and every clone of it), failing when it was stopped already or an
/// exporter fails; the error is handed out as its text. Nothing is stated of
/// the outcome, which depends on the exporters and on other clones.
#[verifier::external_body]
fn shutdown_tracer_provider(provider: SdkTracerProvider) -> Option<String> {
    match provider.shutdown() {
        Ok(()) => None,
        Err(e) => Some(e.to_string()),
    }
}

/// `SdkMeterProvider::shutdown`, which flushes and stops the meter provider;
/// the error is handed out as its text. Nothing is stated of the outcome,
/// which depends on the exporters and on other clones.
#[verifier::external_body]
fn shutdown_meter_provider(provider: SdkMeterProvider) -> Option<String> {
    match provider.shutdown() {
        Ok(()) => None,
        Err(e) => Some(e.to_string()),
    }
}

/// `SdkLoggerProvider::shutdown`, which flushes and stops the logger
/// provider; the error is handed out as its text. Nothing is stated of the
/// outcome, which depends on the exporters and on other clones.
#[verifier::external_body]
fn shutdown_logger_provider(provider: SdkLoggerProvider) -> Option<String> {
    match provider.shutdown() {
        Ok(()) => None,
        Err(e) => Some(e.to_string()),
    }
}

/// The three OpenTelemetry providers that OTLP export runs.
#[derive(Debug, Clone, Copy, PartialEq, Eq, Structural)]
pub enum Provider {
    Tracer,
    Meter,
    Logger,
}

/// The order in which the providers are shut down.
pub open spec fn provider_order(p: Provider) -> nat {
    match p {
        Provider::Tracer => 0,
        Provider::Meter => 1,
        Provider::Logger => 2,
    }
}

/// A provider whose shutdown failed, with the error's text.
#[derive(Debug)]
pub struct ShutdownFailure {
    pub provider: Provider,
    pub error: String,
}

/// The name of a provider in messages.
pub open spec fn provider_name(p: Provider) -> Seq<char> {
    match p {
        Provider::Tracer => "tracer"@,
        Provider::Meter => "meter"@,
        Provider::Logger => "log"@,
    }
}

impl ShutdownFailure {
    /// The line reported for the failure.
    pub open spec fn text(&self) -> Seq<char> {
        "lancedb profiling: failed to shutdown "@ + provider_name(self.provider) + " provider: "@ + self.error@
    }

    /// "lancedb profiling: failed to shutdown {provider} provider: {error}".
    pub fn message(&self) -> (m: String)
        ensures
            m@ == self.text(),
    {
        let name = match self.provider {
            Provider::Tracer => "tracer",
            Provider::Meter => "meter",
            Provider::Logger => "log",
        };
        String::from_str("lancedb profiling: failed to shutdown ").concat(name).concat(" provider: ").concat(
            self.error.as_str(),
        )
    }
}

/// The providers of an OTLP export that are still to be shut down.
///
/// Shutting down flushes and stops each provider once; for explicit control
/// call `shutdown` before process exit.
pub struct OtlpGuard {
    tracer_provider: Option<SdkTracerProvider>,
    meter_provider: Option<SdkMeterProvider>,
    log_provider: Option<SdkLoggerProvider>,
}

impl OtlpGuard {
    /// Whether the tracer, meter and logger providers are still to be shut
    /// down.
    pub closed spec fn pending(&self) -> (bool, bool, bool) {
        (self.tracer_provider is Some, self.meter_provider is Some, self.log_provider is Some)
    }

    /// Whether provider `p` is still to be shut down.
    pub open spec fn is_pending(&self, p: Provider) -> bool {
        match p {
            Provider::Tracer => self.pending().0,
            Provider::Meter => self.pending().1,
            Provider::Logger => self.pending().2,
        }
    }

    /// A guard over the three providers of a new OTLP export.
    pub fn new(tracer_provider: SdkTracerProvider, meter_provider: SdkMeterProvider, log_provider: SdkLoggerProvider) -> (g: Self)
        ensures
            g.pending() == (true, true, true),
    {
        OtlpGuard {
            tracer_provider: Some(tracer_provider),
            meter_provider: Some(meter_provider),
            log_provider: Some(log_provider),
        }
    }

    /// Shuts down every provider that is still pending, tracer first, then
    /// meter, then logger, and reports the shutdowns that failed (in that
    /// order). Afterwards nothing is pending, so a second call shuts nothing
    /// down and reports nothing.
    pub fn shutdown_inner(&mut self) -> (failures: Vec<ShutdownFailure>)
        ensures
            final(self).pending() == (false, false, false),
            forall|i: int| 0 <= i < failures@.len() ==> old(self).is_pending(#[trigger] failures@[i].provider),
            forall|i: int, j: int| 0 <= i < j < failures@.len() ==> provider_order(failures@[i].provider)
                < provider_order(failures@[j].provider),
            old(self).pending() == (false, false, false) ==> failures@.len() == 0,
    {
        let mut failures: Vec<ShutdownFailure> = Vec::new();
        if let Some(tp) = self.tracer_provider.take() {
            if let Some(error) = shutdown_tracer_provider(tp) {
                failures.push(ShutdownFailure { provider: Provider::Tracer, error });
            }
        }
        if let Some(mp) = self.meter_provider.take() {
            if let Some(error) = shutdown_meter_provider(mp) {
                failures.push(ShutdownFailure { provider: Provider::Meter, error });
            }
        }
        if let Some(lp) = self.log_provider.take() {
            if let Some(error) = shutdown_logger_provider(lp) {
                failures.push(ShutdownFailure { provider: Provider::Logger, error });
            }
        }
        failures
    }

    /// Flushes and shuts down all OTLP exporters, reporting the failures.
    pub fn shutdown(self) -> (failures: Vec<ShutdownFailure>)
        ensures
            forall|i: int| 0 <= i < failures@.len() ==> self.is_pending(#[trigger] failures@[i].provider),
            forall|i: int, j: int| 0 <= i < j < failures@.len() ==> provider_order(failures@[i].provider)
                < provider_order(failures@[j].provider),
    {
        let mut guard = self;
        guard.shutdown_inner()
    }
}

/// A gRPC exporter sends to the configured endpoint itself, trailing
/// slashes removed, whatever its signal: the endpoint is a prefix of the
/// configured one, followed there only by `/` characters, and does not end
/// in `/`; and the three signals share it. An HTTP exporter sends to that
/// same base followed by its signal's path.
pub proof fn lemma_grpc_endpoint_is_the_base(endpoint: Seq<char>, signal: OtlpSignal, other: OtlpSignal)
    ensures
        ({
            let r = signal_endpoint_of(endpoint, OtlpProtocol::Grpc, signal);
            &&& r.len() <= endpoint.len()
            &&& r == endpoint.take(r.len() as int)
            &&& forall|k: int| r.len() <= k < endpoint.len() ==> endpoint[k] == '/'
            &&& r.len() == 0 || r.last() != '/'
        }),
        signal_endpoint_of(endpoint, OtlpProtocol::Grpc, signal) == signal_endpoint_of(endpoint, OtlpProtocol::Grpc, other),
        signal_endpoint_of(endpoint, OtlpProtocol::Http, signal) == signal_endpoint_of(endpoint, OtlpProtocol::Grpc, other)
            + signal_path(signal),
{
    lemma_trimmed_base_has_no_trailing_slash(endpoint);
    lemma_trimmed_rest_is_slashes(endpoint);
}

proof fn lemma_trimmed_rest_is_slashes(endpoint: Seq<char>)
    ensures
        forall|k: int| trim_end_slashes(endpoint).len() <= k < endpoint.len() ==> endpoint[k] == '/',
    decreases endpoint.len(),
{
    if endpoint.len() > 0 && endpoint.last() == '/' {
        lemma_trimmed_rest_is_slashes(endpoint.drop_last());
        assert forall|k: int| trim_end_slashes(endpoint).len() <= k < endpoint.len() implies endpoint[k] == '/' by {
            if k < endpoint.len() - 1 {
                assert(endpoint.drop_last()[k] == endpoint[k]);
            }
        }
    }
}

/// The levels are strictly ordered off < error < warn < info < debug <
/// trace, and a level enables exactly the levels at or below it: each level
/// enables itself and every lower one, and no higher one.
pub proof fn lemma_levels_strictly_ordered()
    ensures
        verbosity(LogLevel::Off) < verbosity(LogLevel::Error),
        verbosity(LogLevel::Error) < verbosity(LogLevel::Warn),
        verbosity(LogLevel::Warn) < verbosity(LogLevel::Info),
        verbosity(LogLevel::Info) < verbosity(LogLevel::Debug),
        verbosity(LogLevel::Debug) < verbosity(LogLevel::Trace),
        forall|a: LogLevel, b: LogLevel| verbosity(a) == verbosity(b) ==> a == b,
{
}

} // verus!
