use iot_integrity::codec::{
    decode_command, decode_did, decode_sensor, decode_setting, decode_streams, encode_command,
    encode_did, encode_sensor, encode_setting, encode_streams, Command, Did, Sensor, Setting,
    Streams,
};

fn b(s: &str) -> Vec<u8> {
    s.as_bytes().to_vec()
}

#[test]
fn did_round_trip() {
    let m = Did {
        did: b("did:iota:abc123"),
        challenge: b("ch4LLeng3"),
        vc: b("{\"credential\":true}"),
        proof_request: true,
    };
    let bytes = encode_did(&m);
    let back = decode_did(&bytes).expect("decodes");
    assert_eq!(back.did, m.did);
    assert_eq!(back.challenge, m.challenge);
    assert_eq!(back.vc, m.vc);
    assert_eq!(back.proof_request, m.proof_request);
}

#[test]
fn did_round_trip_empty_fields() {
    let m = Did { did: b(""), challenge: b(""), vc: b(""), proof_request: false };
    let bytes = encode_did(&m);
    let back = decode_did(&bytes).expect("decodes");
    assert_eq!(back.did, m.did);
    assert_eq!(back.challenge, m.challenge);
    assert_eq!(back.vc, m.vc);
    assert!(!back.proof_request);
}

#[test]
fn streams_round_trip() {
    let m = Streams {
        did: b("did:iota:author"),
        vc: b("{}"),
        announcement_link: b("ann-link-1"),
        subscription_link: b(""),
        keyload_link: b(""),
    };
    let bytes = encode_streams(&m);
    let back = decode_streams(&bytes).expect("decodes");
    assert_eq!(back.did, m.did);
    assert_eq!(back.vc, m.vc);
    assert_eq!(back.announcement_link, m.announcement_link);
    assert_eq!(back.subscription_link, m.subscription_link);
    assert_eq!(back.keyload_link, m.keyload_link);
}

#[test]
fn sensor_round_trip() {
    let m = Sensor {
        sensor_id: b("s1"),
        name: b("MPC 7812"),
        typ: b("Temperature"),
        value: b("23.4"),
        unit: b("C"),
        timestamp: 1700000000,
    };
    let bytes = encode_sensor(&m);
    let back = decode_sensor(&bytes).expect("decodes");
    assert_eq!(back.sensor_id, m.sensor_id);
    assert_eq!(back.name, m.name);
    assert_eq!(back.typ, m.typ);
    assert_eq!(back.value, m.value);
    assert_eq!(back.unit, m.unit);
    assert_eq!(back.timestamp, m.timestamp);
}

#[test]
fn sensor_round_trip_negative_timestamp() {
    let m = Sensor {
        sensor_id: b("s2"),
        name: b(""),
        typ: b("t"),
        value: b("-1"),
        unit: b(""),
        timestamp: -42,
    };
    let bytes = encode_sensor(&m);
    let back = decode_sensor(&bytes).expect("decodes");
    assert_eq!(back.timestamp, -42);
}

#[test]
fn setting_round_trip() {
    let m = Setting { ip: b("203.0.113.7"), pk_timestamp: 1700000001, pk: vec![1, 2, 3, 0, 255] };
    let bytes = encode_setting(&m);
    let back = decode_setting(&bytes).expect("decodes");
    assert_eq!(back.ip, m.ip);
    assert_eq!(back.pk_timestamp, m.pk_timestamp);
    assert_eq!(back.pk, m.pk);
}

#[test]
fn command_round_trip() {
    let m = Command { command: b("noop") };
    let bytes = encode_command(&m);
    let back = decode_command(&bytes).expect("decodes");
    assert_eq!(back.command, m.command);
}

#[test]
fn truncated_payload_is_refused() {
    let m = Did { did: b("did:iota:abc"), challenge: b("c"), vc: b("v"), proof_request: false };
    let mut bytes = encode_did(&m);
    bytes.pop();
    assert!(decode_did(&bytes).is_none());
}

#[test]
fn trailing_garbage_is_refused() {
    let m = Did { did: b("did:iota:abc"), challenge: b("c"), vc: b("v"), proof_request: false };
    let mut bytes = encode_did(&m);
    bytes.push(0);
    assert!(decode_did(&bytes).is_none());
}

#[test]
fn bad_flag_byte_is_refused() {
    let m = Did { did: b("d"), challenge: b("c"), vc: b("v"), proof_request: true };
    let mut bytes = encode_did(&m);
    let last = bytes.len() - 1;
    bytes[last] = 2;
    assert!(decode_did(&bytes).is_none());
}

#[test]
fn empty_buffer_is_refused() {
    let empty: Vec<u8> = Vec::new();
    assert!(decode_sensor(&empty).is_none());
    assert!(decode_streams(&empty).is_none());
    assert!(decode_setting(&empty).is_none());
    assert!(decode_command(&empty).is_none());
}
