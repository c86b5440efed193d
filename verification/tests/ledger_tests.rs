use iot_integrity::engine::LedgerReading;
use iot_integrity::ledger::{decode_ledger_payload, encode_ledger_payload};

fn b(s: &str) -> Vec<u8> {
    s.as_bytes().to_vec()
}

fn reading() -> LedgerReading {
    LedgerReading {
        did: b("did:iota:a"),
        vc: b("{\"credential\":\"x\\\\y\"}"),
        sensor_id: b("s1"),
        sensor_name: b("MPC 7812"),
        sensor_type: b("Temperature"),
        value: b("23.4"),
        unit: b("C"),
        timestamp: 1700000000,
    }
}

fn assert_same(a: &LedgerReading, c: &LedgerReading) {
    assert_eq!(a.did, c.did);
    assert_eq!(a.vc, c.vc);
    assert_eq!(a.sensor_id, c.sensor_id);
    assert_eq!(a.sensor_name, c.sensor_name);
    assert_eq!(a.sensor_type, c.sensor_type);
    assert_eq!(a.value, c.value);
    assert_eq!(a.unit, c.unit);
    assert_eq!(a.timestamp, c.timestamp);
}

#[test]
fn payload_round_trips() {
    let m = reading();
    let payload = encode_ledger_payload(&m);
    let back = decode_ledger_payload(&payload).expect("parses");
    assert_same(&m, &back);
}

#[test]
fn payload_round_trips_with_escapes_and_zero() {
    let m = LedgerReading {
        did: b("did\"quoted\""),
        vc: b("line\nbreak\ttab\\slash"),
        sensor_id: b(""),
        sensor_name: b("\x01\x1f"),
        sensor_type: b("t"),
        value: b("0"),
        unit: b(""),
        timestamp: 0,
    };
    let payload = encode_ledger_payload(&m);
    let back = decode_ledger_payload(&payload).expect("parses");
    assert_same(&m, &back);
}

#[test]
fn payload_is_valid_json_under_an_independent_parser() {
    let m = reading();
    let payload = encode_ledger_payload(&m);
    let text = String::from_utf8(payload).expect("ascii-safe payload");
    let v: serde_json::Value = serde_json::from_str(&text).expect("valid JSON");
    assert_eq!(v["did"].as_str().unwrap().as_bytes(), m.did.as_slice());
    assert_eq!(v["sensor_id"].as_str().unwrap().as_bytes(), m.sensor_id.as_slice());
    assert_eq!(v["sensor_name"].as_str().unwrap().as_bytes(), m.sensor_name.as_slice());
    assert_eq!(v["sensor_type"].as_str().unwrap().as_bytes(), m.sensor_type.as_slice());
    assert_eq!(v["value"].as_str().unwrap().as_bytes(), m.value.as_slice());
    assert_eq!(v["unit"].as_str().unwrap().as_bytes(), m.unit.as_slice());
    assert_eq!(v["timestamp"].as_i64().unwrap(), m.timestamp);
    assert_eq!(
        v["verifiable_credential"].as_str().unwrap().as_bytes(),
        m.vc.as_slice()
    );
}

#[test]
fn escaped_json_under_an_independent_parser() {
    let m = LedgerReading {
        did: b("a\"b\\c"),
        vc: b("x\ny"),
        sensor_id: b("s"),
        sensor_name: b("n"),
        sensor_type: b("t"),
        value: b("1"),
        unit: b("u"),
        timestamp: 7,
    };
    let payload = encode_ledger_payload(&m);
    let text = String::from_utf8(payload).expect("ascii-safe payload");
    let v: serde_json::Value = serde_json::from_str(&text).expect("valid JSON");
    assert_eq!(v["did"].as_str().unwrap(), "a\"b\\c");
    assert_eq!(v["verifiable_credential"].as_str().unwrap(), "x\ny");
}

#[test]
fn negative_timestamps_round_trip() {
    let mut m = reading();
    m.timestamp = -62135596800;
    let payload = encode_ledger_payload(&m);
    let back = decode_ledger_payload(&payload).expect("parses");
    assert_eq!(back.timestamp, -62135596800);
    let text = String::from_utf8(payload).expect("ascii-safe payload");
    let v: serde_json::Value = serde_json::from_str(&text).expect("valid JSON");
    assert_eq!(v["timestamp"].as_i64().unwrap(), -62135596800);
    m.timestamp = i64::MIN;
    let payload = encode_ledger_payload(&m);
    let back = decode_ledger_payload(&payload).expect("parses");
    assert_eq!(back.timestamp, i64::MIN);
    m.timestamp = i64::MAX;
    let payload = encode_ledger_payload(&m);
    let back = decode_ledger_payload(&payload).expect("parses");
    assert_eq!(back.timestamp, i64::MAX);
}

#[test]
fn oversized_number_is_refused() {
    let text = "{\"did\":\"d\",\"sensor_id\":\"s\",\"sensor_name\":\"n\",\"sensor_type\":\"t\",\"timestamp\":9223372036854775808,\"unit\":\"u\",\"value\":\"v\",\"verifiable_credential\":\"c\"}";
    assert!(decode_ledger_payload(&text.as_bytes().to_vec()).is_none());
    let text2 = "{\"did\":\"d\",\"sensor_id\":\"s\",\"sensor_name\":\"n\",\"sensor_type\":\"t\",\"timestamp\":-9223372036854775809,\"unit\":\"u\",\"value\":\"v\",\"verifiable_credential\":\"c\"}";
    assert!(decode_ledger_payload(&text2.as_bytes().to_vec()).is_none());
}

#[test]
fn truncated_ledger_payload_is_refused() {
    let m = reading();
    let mut payload = encode_ledger_payload(&m);
    payload.pop();
    assert!(decode_ledger_payload(&payload).is_none());
}

#[test]
fn trailing_ledger_garbage_is_refused() {
    let m = reading();
    let mut payload = encode_ledger_payload(&m);
    payload.push(b' ');
    assert!(decode_ledger_payload(&payload).is_none());
}

#[test]
fn wrong_key_order_is_refused() {
    let text = "{\"sensor_id\":\"s1\",\"did\":\"d\"}";
    assert!(decode_ledger_payload(&text.as_bytes().to_vec()).is_none());
}

#[test]
fn unescaped_control_byte_is_refused() {
    let m = reading();
    let payload = encode_ledger_payload(&m);
    // smuggle a raw control byte into the did field
    let mut tampered = Vec::new();
    tampered.extend_from_slice(b"{\"did\":\"\x07");
    tampered.extend_from_slice(&payload[8..]);
    assert!(decode_ledger_payload(&tampered).is_none());
}
