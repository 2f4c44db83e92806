use couch_unifi_protect::errors::{HostError, HostErrorKind, Reason};
use couch_unifi_protect::location::IpAddress;
use couch_unifi_protect::settings::{
    address_or_refusal, Field, FieldValue, ProtectCredential, ProtectSettings,
};
use serde_json::Value;

fn settings(address: &str, api_key: &str) -> ProtectSettings {
    ProtectSettings {
        address: address.to_string(),
        api_key: api_key.to_string(),
    }
}

fn text(name: &str, value: &str) -> Field {
    Field {
        name: name.to_string(),
        value: FieldValue::Text(value.to_string()),
    }
}

fn other(name: &str) -> Field {
    Field {
        name: name.to_string(),
        value: FieldValue::Other,
    }
}

fn object(fields: Vec<Field>) -> Value {
    let mut map = serde_json::Map::new();
    for field in fields {
        let value = match field.value {
            FieldValue::Text(text) => Value::String(text),
            FieldValue::Other => Value::Null,
        };
        map.insert(field.name, value);
    }
    Value::Object(map)
}

fn refused_setting(error: HostError) -> (String, String) {
    assert_eq!(error.kind, HostErrorKind::Invalid);
    match error.reason {
        Some(Reason::InvalidSetting { field, text }) => (field, text),
        _ => panic!("a setting should have been refused"),
    }
}

#[test]
fn settings_are_only_an_ip_and_a_redacted_key() {
    let settings = settings("192.0.2.8", "fixture-secret-key");
    assert!(settings.validate(true).is_ok());
    assert!(!settings.debug_text().contains("fixture-secret-key"));
    let mut expected = serde_json::Map::new();
    expected.insert("address".to_string(), Value::from("192.0.2.8"));
    expected.insert("api_key".to_string(), Value::from("fixture-secret-key"));
    assert_eq!(object(settings.to_fields()), Value::Object(expected));
}

#[test]
fn malformed_settings_are_refused_without_network_io() {
    let address = ProtectSettings::from_fields(&vec![
        text("address", "https://192.0.2.1"),
        text("api_key", "fixture-private-key"),
    ])
    .unwrap();
    assert!(address.validate(true).is_err());
    let key = ProtectSettings::from_fields(&vec![
        text("address", "192.0.2.1"),
        text("api_key", ""),
    ])
    .unwrap();
    assert!(key.validate(true).is_err());
    let well_formed = ProtectSettings::from_fields(&vec![
        text("address", "192.0.2.1"),
        text("api_key", "fixture-private-key"),
    ])
    .unwrap();
    assert!(well_formed.validate(true).is_ok());
}

#[test]
fn settings_are_shown_without_the_key() {
    assert_eq!(
        settings("192.0.2.8", "k").debug_text(),
        "ProtectSettings { address: \"192.0.2.8\", api_key: \"[redacted]\" }"
    );
    assert_eq!(
        settings("a\"b\n", "k").debug_text(),
        "ProtectSettings { address: \"a\\\"b\\n\", api_key: \"[redacted]\" }"
    );
    assert_eq!(
        settings("x", "one").debug_text(),
        settings("x", "two").debug_text()
    );
    assert_eq!(
        ProtectSettings::redacted_text("'x'"),
        "ProtectSettings { address: 'x', api_key: \"[redacted]\" }"
    );
}

#[test]
fn the_address_is_an_ip_address() {
    assert_eq!(
        settings("192.0.2.8", "k").address().unwrap(),
        IpAddress::V4(192, 0, 2, 8)
    );
    assert_eq!(
        settings("fe80::1:2", "k").address().unwrap(),
        IpAddress::V6(0xfe80_0000_0000_0000_0000_0000_0001_0002)
    );
    for address in [
        "", "nvr", "nvr.local", "192.0.2", "192.0.2.256", "192.0.2.08", " 192.0.2.8",
        "192.0.2.8:443", "[::1]", "::1%1", "https://192.0.2.1", "192.0.2.8/24", "0x7f.0.0.1",
    ] {
        let (field, text) = refused_setting(settings(address, "k").address().unwrap_err());
        assert_eq!(field, "address");
        assert_eq!(text, "Enter the NVR's IP address");
    }
    assert!(address_or_refusal(None).is_err());
    assert_eq!(
        address_or_refusal(Some(IpAddress::V6(1))).unwrap(),
        IpAddress::V6(1)
    );
}

#[test]
fn the_address_is_judged_before_the_key() {
    let (field, _) = refused_setting(settings("nvr", "").validate(false).unwrap_err());
    assert_eq!(field, "address");
    let (field, text) = refused_setting(settings("192.0.2.8", "").validate(true).unwrap_err());
    assert_eq!(field, "api_key");
    assert_eq!(text, "Enter the API key from UniFi Protect");
    let (field, _) = refused_setting(settings("192.0.2.8", "k").validate(false).unwrap_err());
    assert_eq!(field, "api_key");
    assert!(settings("192.0.2.8", "k").validate_key(true).is_ok());
}

#[test]
fn settings_read_back_from_their_fields() {
    let stored = settings("2001:db8::1", "key").to_fields();
    let read = ProtectSettings::from_fields(&stored).unwrap();
    assert_eq!(read.address, "2001:db8::1");
    assert_eq!(read.api_key, "key");
}

#[test]
fn settings_with_missing_or_unknown_fields_are_not_read() {
    for fields in [
        vec![],
        vec![text("address", "a")],
        vec![text("address", "a"), text("address", "b")],
        vec![text("address", "a"), other("api_key")],
        vec![text("address", "a"), text("key", "b")],
        vec![text("address", "a"), text("api_key", "b"), text("port", "c")],
    ] {
        assert!(ProtectSettings::from_fields(&fields).is_none());
    }
}

#[test]
fn a_clone_of_settings_is_the_same() {
    let original = settings("192.0.2.8", "key");
    let copy = original.clone();
    drop(original);
    assert_eq!(copy.address, "192.0.2.8");
    assert_eq!(copy.api_key, "key");
    assert_eq!(ProtectSettings::file_prefix(), "unifi-protect");
}

#[test]
fn a_credential_reads_back_what_was_stored() {
    let stored = ProtectCredential {
        api_certificate_sha256: "aa".to_string(),
        media_certificate_sha256: "bb".to_string(),
    }
    .store();
    assert_eq!(stored.len(), 2);
    assert_eq!(stored[0].name, "api_certificate_sha256");
    assert_eq!(stored[1].name, "media_certificate_sha256");
    let read = ProtectCredential::parse(&stored).unwrap();
    assert_eq!(read.api_certificate_sha256, "aa");
    assert_eq!(read.media_certificate_sha256, "bb");
}

#[test]
fn the_fields_of_a_credential_come_in_any_order() {
    let read = ProtectCredential::parse(&vec![
        text("media_certificate_sha256", "bb"),
        text("api_certificate_sha256", "aa"),
    ])
    .unwrap();
    assert_eq!(read.api_certificate_sha256, "aa");
    assert_eq!(read.media_certificate_sha256, "bb");
}

#[test]
fn any_other_credential_counts_as_unpaired() {
    for fields in [
        vec![],
        vec![text("api_certificate_sha256", "aa")],
        vec![
            text("api_certificate_sha256", "aa"),
            text("api_certificate_sha256", "bb"),
        ],
        vec![
            text("api_certificate_sha256", "aa"),
            other("media_certificate_sha256"),
        ],
        vec![
            other("api_certificate_sha256"),
            text("media_certificate_sha256", "bb"),
        ],
        vec![
            text("api_certificate_sha256", "aa"),
            text("media_certificate_sha256", "bb"),
            other("more"),
        ],
        vec![text("api", "aa"), text("media", "bb")],
    ] {
        match ProtectCredential::parse(&fields) {
            Ok(_) => panic!("not a credential"),
            Err(error) => {
                assert_eq!(error.kind, HostErrorKind::Unpaired);
                assert!(error.reason.is_none());
            }
        }
    }
}
