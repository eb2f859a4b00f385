use lancedb::text::{parse_hex_u8, split_on_dash};
use lancedb::traceparent::{parse_traceparent, TraceParent};

#[test]
fn parses_a_w3c_header() {
    let tp = parse_traceparent("00-4bf92f3577b34da6a3ce929d0e0e4736-00f067aa0ba902b7-01");
    assert_eq!(
        tp,
        Some(TraceParent {
            trace_id: 0x4bf92f3577b34da6a3ce929d0e0e4736,
            span_id: 0x00f067aa0ba902b7,
            flags: 1,
        })
    );
}

#[test]
fn unparsable_flags_and_versions_are_rejected() {
    assert_eq!(parse_traceparent("00-0af7651916cd43dd8448eb211c80319c-b7ad6b7169203331-zz"), None);
    assert_eq!(parse_traceparent("00-0af7651916cd43dd8448eb211c80319c-b7ad6b7169203331-100"), None);
    assert_eq!(parse_traceparent("0-1-2-zz"), None);
    assert_eq!(parse_traceparent("zz-0af7651916cd43dd8448eb211c80319c-b7ad6b7169203331-01"), None);
    assert_eq!(parse_traceparent("01-0af7651916cd43dd8448eb211c80319c-b7ad6b7169203331-01"), None);
    let tp = parse_traceparent("00-0af7651916cd43dd8448eb211c80319c-b7ad6b7169203331-00").unwrap();
    assert_eq!(tp.flags, 0);
    assert_eq!(tp.trace_id, 0x0af7651916cd43dd8448eb211c80319c);
    assert_eq!(tp.span_id, 0xb7ad6b7169203331);
}

#[test]
fn malformed_headers_are_rejected() {
    assert_eq!(parse_traceparent(""), None);
    assert_eq!(parse_traceparent("00-abc-def"), None);
    assert_eq!(parse_traceparent("00-abc-def-01-extra"), None);
    assert_eq!(parse_traceparent("00-xyz-00f067aa0ba902b7-01"), None);
    assert_eq!(parse_traceparent("00-4bf92f3577b34da6a3ce929d0e0e4736--01"), None);
    // a trace id wider than 128 bits does not fit
    assert_eq!(parse_traceparent("00-14bf92f3577b34da6a3ce929d0e0e4736-00f067aa0ba902b7-01"), None);
}

#[test]
fn splits_on_every_dash() {
    assert_eq!(split_on_dash("a-b--c"), vec!["a", "b", "", "c"]);
    assert_eq!(split_on_dash(""), vec![""]);
    assert_eq!(split_on_dash("-"), vec!["", ""]);
}

#[test]
fn parses_bytes_in_base_16() {
    assert_eq!(parse_hex_u8("ff"), Some(255));
    assert_eq!(parse_hex_u8("+0A"), Some(10));
    assert_eq!(parse_hex_u8("100"), None);
    assert_eq!(parse_hex_u8(""), None);
    assert_eq!(parse_hex_u8("+"), None);
    assert_eq!(parse_hex_u8("-1"), None);
    assert_eq!(parse_hex_u8("g"), None);
    for s in ["0", "7f", "Ab", "+ff", "256", "0001", "1g", " 1"] {
        assert_eq!(parse_hex_u8(s), u8::from_str_radix(s, 16).ok(), "{}", s);
    }
}
