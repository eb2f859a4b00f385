use lancedb::profiling::{OtlpGuard, Provider};
use opentelemetry_sdk::logs::SdkLoggerProvider;
use opentelemetry_sdk::metrics::SdkMeterProvider;
use opentelemetry_sdk::trace::SdkTracerProvider;
use lancedb::profiling::{
    apply_profiling_options, level_from_setting, protocol_from_name, signal_endpoint,
    trim_end_slashes_str, upgraded_levels, LogLevel, OtlpConfig, OtlpProtocol, OtlpSignal,
    ProfilingOptions,
};

#[test]
fn test_otlp_config_default() {
    let config = OtlpConfig::from_environment(None, None);
    assert!(!config.endpoint.is_empty());
    assert!(!config.service_name.is_empty());
    assert_eq!(config.protocol, OtlpProtocol::Http);
}

#[test]
fn config_falls_back_per_setting() {
    let config = OtlpConfig::from_environment(None, None);
    assert_eq!(config.endpoint, "http://localhost:4318");
    assert_eq!(config.service_name, "lancedb");
    let config = OtlpConfig::from_environment(Some("http://collector:4318".to_string()), None);
    assert_eq!(config.endpoint, "http://collector:4318");
    assert_eq!(config.service_name, "lancedb");
    let config = OtlpConfig::from_environment(None, Some("svc".to_string()));
    assert_eq!(config.endpoint, "http://localhost:4318");
    assert_eq!(config.service_name, "svc");
    assert_eq!(OtlpProtocol::default(), OtlpProtocol::Http);
}

#[test]
fn endpoints_per_signal() {
    let e = "http://localhost:4318/";
    assert_eq!(signal_endpoint(e, OtlpProtocol::Http, OtlpSignal::Traces), "http://localhost:4318/v1/traces");
    assert_eq!(signal_endpoint(e, OtlpProtocol::Http, OtlpSignal::Metrics), "http://localhost:4318/v1/metrics");
    assert_eq!(signal_endpoint(e, OtlpProtocol::Http, OtlpSignal::Logs), "http://localhost:4318/v1/logs");
    assert_eq!(signal_endpoint("http://h:4317//", OtlpProtocol::Grpc, OtlpSignal::Logs), "http://h:4317");
    assert_eq!(trim_end_slashes_str("a/b//"), "a/b");
    assert_eq!(trim_end_slashes_str("///"), "");
    for s in ["", "x", "x/", "/x//", "é/"] {
        assert_eq!(trim_end_slashes_str(s), s.trim_end_matches('/'));
    }
}

#[test]
fn profiling_options_override_the_defaults() {
    let defaults = OtlpConfig::from_environment(None, None);
    let c = apply_profiling_options(defaults, None);
    assert_eq!(c.endpoint, "http://localhost:4318");
    let options = ProfilingOptions {
        otlp_endpoint: Some("http://a:1".to_string()),
        service_name: None,
        protocol: Some("grpc".to_string()),
    };
    let c = apply_profiling_options(OtlpConfig::from_environment(None, None), Some(options));
    assert_eq!(c.endpoint, "http://a:1");
    assert_eq!(c.service_name, "lancedb");
    assert_eq!(c.protocol, OtlpProtocol::Grpc);
    let options = ProfilingOptions {
        otlp_endpoint: None,
        service_name: Some("app".to_string()),
        protocol: Some("GRPC".to_string()),
    };
    let c = apply_profiling_options(OtlpConfig::from_environment(None, None), Some(options));
    assert_eq!(c.service_name, "app");
    assert_eq!(c.protocol, OtlpProtocol::Http);
    assert_eq!(protocol_from_name(&"grpc".to_string()), OtlpProtocol::Grpc);
    assert_eq!(protocol_from_name(&"http".to_string()), OtlpProtocol::Http);
}

#[test]
fn log_levels_from_the_setting() {
    assert_eq!(level_from_setting(&None), LogLevel::Warn);
    assert_eq!(level_from_setting(&Some("debug".to_string())), LogLevel::Debug);
    assert_eq!(level_from_setting(&Some("TRACE".to_string())), LogLevel::Trace);
    assert_eq!(level_from_setting(&Some("Off".to_string())), LogLevel::Off);
    assert_eq!(level_from_setting(&Some("3".to_string())), LogLevel::Info);
    assert_eq!(level_from_setting(&Some("".to_string())), LogLevel::Error);
    assert_eq!(level_from_setting(&Some("9".to_string())), LogLevel::Warn);
    assert_eq!(level_from_setting(&Some("lancedb=debug".to_string())), LogLevel::Warn);
    assert_eq!(upgraded_levels(&None), (LogLevel::Trace, None));
    assert_eq!(upgraded_levels(&Some("info".to_string())), (LogLevel::Trace, Some(LogLevel::Info)));
}

#[test]
fn levels_enable_what_is_no_more_verbose() {
    assert!(LogLevel::Warn.enables(LogLevel::Error));
    assert!(LogLevel::Warn.enables(LogLevel::Warn));
    assert!(!LogLevel::Warn.enables(LogLevel::Info));
    assert!(LogLevel::Trace.enables(LogLevel::Debug));
    assert!(!LogLevel::Off.enables(LogLevel::Error));
}

#[test]
fn providers_are_shut_down_once() {
    let tracer = SdkTracerProvider::builder().build();
    let other_handle = tracer.clone();
    let mut guard = OtlpGuard::new(
        tracer,
        SdkMeterProvider::builder().build(),
        SdkLoggerProvider::builder().build(),
    );
    // another part of the program stops the tracer provider first
    assert!(other_handle.shutdown().is_ok());
    let failures = guard.shutdown_inner();
    assert_eq!(failures.len(), 1);
    assert_eq!(failures[0].provider, Provider::Tracer);
    assert_eq!(
        failures[0].message(),
        "lancedb profiling: failed to shutdown tracer provider: Shutdown already invoked"
    );
    // nothing is left to shut down
    assert!(guard.shutdown_inner().is_empty());
    assert!(guard.shutdown().is_empty());
}

#[test]
fn options_that_set_nothing_keep_the_config() {
    let options = ProfilingOptions { otlp_endpoint: None, service_name: None, protocol: None };
    let base = OtlpConfig::from_environment(Some("http://x:1".to_string()), Some("s".to_string()));
    let c = apply_profiling_options(base, Some(options));
    assert_eq!(c.endpoint, "http://x:1");
    assert_eq!(c.service_name, "s");
    assert_eq!(c.protocol, OtlpProtocol::Http);
}
