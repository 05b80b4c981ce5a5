//! The textual forms: configuration, versions, port ranges, the ports
//! descriptor and the control-channel framing.

use nucleus::config::PierConfig;
use nucleus::errors::Error;
use nucleus::ship::{dojo_parse_response, dojo_request_body, parse_lens_port};
use nucleus::urbit::UrbitVersion;
use nucleus::util::MyRange;

#[test]
fn config_encode_canonical_named() {
    let c = PierConfig {
        runtime_version: UrbitVersion::UrbitV1_9,
        id: "0f3b9a2c-1d4e-4f60-8a7b-5c6d7e8f9a0b".to_string(),
        name: Some("zod".to_string()),
    };
    assert_eq!(
        c.encode(),
        "{\"runtimeVersion\":\"v1.9\",\"id\":\"0f3b9a2c-1d4e-4f60-8a7b-5c6d7e8f9a0b\",\"@p\":\"zod\"}"
    );
}

#[test]
fn config_encode_canonical_nameless() {
    let c = PierConfig {
        runtime_version: UrbitVersion::UrbitV1_0,
        id: "0f3b9a2c-1d4e-4f60-8a7b-5c6d7e8f9a0b".to_string(),
        name: None,
    };
    assert_eq!(
        c.encode(),
        "{\"runtimeVersion\":\"v1.0\",\"id\":\"0f3b9a2c-1d4e-4f60-8a7b-5c6d7e8f9a0b\",\"@p\":null}"
    );
}

#[test]
fn config_round_trip_named() {
    let c = PierConfig {
        runtime_version: UrbitVersion::UrbitV1_3,
        id: "00112233-4455-6677-8899-aabbccddeeff".to_string(),
        name: Some("~sampel-palnet".to_string()),
    };
    let back = PierConfig::parse(c.encode().as_str()).unwrap();
    assert_eq!(back.runtime_version, UrbitVersion::UrbitV1_3);
    assert_eq!(back.id, "00112233-4455-6677-8899-aabbccddeeff");
    assert_eq!(back.name, Some("~sampel-palnet".to_string()));
}

#[test]
fn config_round_trip_nameless() {
    let c = PierConfig {
        runtime_version: UrbitVersion::UrbitV1_9,
        id: "00112233-4455-6677-8899-aabbccddeeff".to_string(),
        name: None,
    };
    let back = PierConfig::parse(c.encode().as_str()).unwrap();
    assert_eq!(back.runtime_version, UrbitVersion::UrbitV1_9);
    assert_eq!(back.name, None);
}

#[test]
fn config_parse_rejects_garbage() {
    assert_eq!(PierConfig::parse("").unwrap_err(), Error::ConfigCorrupt);
    assert_eq!(PierConfig::parse("{}").unwrap_err(), Error::ConfigCorrupt);
    assert_eq!(
        PierConfig::parse("{\"runtimeVersion\":\"v9.9\",\"id\":\"00112233-4455-6677-8899-aabbccddeeff\",\"@p\":null}")
            .unwrap_err(),
        Error::ConfigCorrupt
    );
    assert_eq!(
        PierConfig::parse("{\"runtimeVersion\":\"v1.9\",\"id\":\"not-an-id\",\"@p\":null}")
            .unwrap_err(),
        Error::ConfigCorrupt
    );
    // Trailing bytes after the closing brace are not tolerated.
    assert_eq!(
        PierConfig::parse("{\"runtimeVersion\":\"v1.9\",\"id\":\"00112233-4455-6677-8899-aabbccddeeff\",\"@p\":null} ")
            .unwrap_err(),
        Error::ConfigCorrupt
    );
}

#[test]
fn version_parse_both_forms() {
    assert_eq!(UrbitVersion::parse("v1.4"), Some(UrbitVersion::UrbitV1_4));
    assert_eq!(UrbitVersion::parse("1.4"), Some(UrbitVersion::UrbitV1_4));
    assert_eq!(UrbitVersion::parse("v1.0"), Some(UrbitVersion::UrbitV1_0));
    assert_eq!(UrbitVersion::parse("2.0"), None);
    assert_eq!(UrbitVersion::parse(""), None);
}

#[test]
fn version_string_round_trip() {
    let all = [
        UrbitVersion::UrbitV1_0,
        UrbitVersion::UrbitV1_1,
        UrbitVersion::UrbitV1_2,
        UrbitVersion::UrbitV1_3,
        UrbitVersion::UrbitV1_4,
        UrbitVersion::UrbitV1_5,
        UrbitVersion::UrbitV1_6,
        UrbitVersion::UrbitV1_7,
        UrbitVersion::UrbitV1_8,
        UrbitVersion::UrbitV1_9,
    ];
    for v in all {
        assert_eq!(UrbitVersion::parse(v.version_str()), Some(v));
    }
}

#[test]
fn version_default_is_newest() {
    assert_eq!(UrbitVersion::default(), UrbitVersion::UrbitV1_9);
}

#[test]
fn range_parse_textual_form() {
    let r = MyRange::parse("9000..9010").unwrap();
    assert_eq!(r.inner.start, 9000);
    assert_eq!(r.inner.end, 9010);
    let r = MyRange::parse("0..65535").unwrap();
    assert_eq!(r.inner.start, 0);
    assert_eq!(r.inner.end, 65535);
}

#[test]
fn range_parse_rejects_malformed() {
    assert!(MyRange::parse("9000").is_none());
    assert!(MyRange::parse("9000..").is_none());
    assert!(MyRange::parse("..9000").is_none());
    assert!(MyRange::parse("a..b").is_none());
    assert!(MyRange::parse("9000..70000").is_none());
    assert!(MyRange::parse("").is_none());
}

#[test]
fn descriptor_finds_loopback_line() {
    let desc = "8080 0.0.0.0 public\n12321 127.0.0.1 loopback\n";
    assert_eq!(parse_lens_port(desc).unwrap(), 12321);
}

#[test]
fn descriptor_first_loopback_line_wins() {
    let desc = "111 a loopback\n222 b loopback\n";
    assert_eq!(parse_lens_port(desc).unwrap(), 111);
}

#[test]
fn descriptor_with_leading_whitespace_token() {
    let desc = "  4242 127.0.0.1 loopback";
    assert_eq!(parse_lens_port(desc).unwrap(), 4242);
}

#[test]
fn descriptor_without_loopback_is_protocol_violation() {
    assert_eq!(
        parse_lens_port("8080 0.0.0.0 public\n").unwrap_err(),
        Error::ProtocolViolation
    );
    assert_eq!(parse_lens_port("").unwrap_err(), Error::ProtocolViolation);
}

#[test]
fn descriptor_with_unparsable_port_is_protocol_violation() {
    assert_eq!(
        parse_lens_port("zzz 127.0.0.1 loopback\n").unwrap_err(),
        Error::ProtocolViolation
    );
}

#[test]
fn dojo_request_is_framed_json() {
    assert_eq!(
        dojo_request_body("our"),
        "{\"source\":{\"dojo\":\"our\"},\"sink\":{\"stdout\":null}}"
    );
}

#[test]
fn dojo_request_escapes_the_expression() {
    assert_eq!(
        dojo_request_body("say \"hi\\\""),
        "{\"source\":{\"dojo\":\"say \\\"hi\\\\\\\"\"},\"sink\":{\"stdout\":null}}"
    );
    assert_eq!(
        dojo_request_body("a\nb"),
        "{\"source\":{\"dojo\":\"a\\nb\"},\"sink\":{\"stdout\":null}}"
    );
}

#[test]
fn dojo_response_single_json_string() {
    assert_eq!(dojo_parse_response("\"~zod\"").unwrap(), "~zod");
    assert_eq!(dojo_parse_response("\"\"").unwrap(), "");
    assert_eq!(dojo_parse_response("\"a\\\"b\\\\c\\nd\"").unwrap(), "a\"b\\c\nd");
}

#[test]
fn dojo_response_decodes_low_unicode_escapes() {
    assert_eq!(dojo_parse_response("\"a\\u0041b\"").unwrap(), "aAb");
    assert_eq!(dojo_parse_response("\"\\u001f\"").unwrap(), "\u{1f}");
    assert_eq!(dojo_parse_response("\"\\u00FF\"").unwrap(), "\u{ff}");
    // The decoder accepts exactly what the framing emits for controls.
    assert_eq!(dojo_parse_response("\"a\\u0001\\n\"").unwrap(), "a\u{1}\n");
}

#[test]
fn dojo_response_rejects_high_or_malformed_unicode_escapes() {
    assert_eq!(dojo_parse_response("\"\\u1234\"").unwrap_err(), Error::ProtocolViolation);
    assert_eq!(dojo_parse_response("\"\\u00g1\"").unwrap_err(), Error::ProtocolViolation);
    assert_eq!(dojo_parse_response("\"\\u00\"").unwrap_err(), Error::ProtocolViolation);
}

#[test]
fn dojo_response_anything_else_is_protocol_violation() {
    assert_eq!(dojo_parse_response("42").unwrap_err(), Error::ProtocolViolation);
    assert_eq!(dojo_parse_response("{\"a\":1}").unwrap_err(), Error::ProtocolViolation);
    assert_eq!(dojo_parse_response("\"unterminated").unwrap_err(), Error::ProtocolViolation);
    assert_eq!(dojo_parse_response("\"a\" ").unwrap_err(), Error::ProtocolViolation);
    assert_eq!(dojo_parse_response("").unwrap_err(), Error::ProtocolViolation);
}

#[test]
fn error_descriptions_are_nonempty() {
    assert_eq!(Error::PortsExhausted.describe(), "no ports available");
    assert_eq!(Error::NotFound.describe(), "not found");
}
