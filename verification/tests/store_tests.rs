use iot_integrity::models::{SensorDataEntry, SensorEntry, StreamsEntry};
use iot_integrity::store::{SensorFlag, Store, StreamField};

fn b(s: &str) -> Vec<u8> {
    s.as_bytes().to_vec()
}

fn store_with_catalog() -> Store {
    let mut s = Store::new();
    s.create_thing(&b("thing-1")).unwrap();
    s.create_channel(1, &b("chan-1")).unwrap();
    s.create_sensor_type(&b("Temperature"), &b("C")).unwrap();
    s.create_sensor(SensorEntry {
        channel_id: 1,
        sensor_types_id: 1,
        sensor_id: b("s1"),
        sensor_name: b("MPC 7812"),
    })
    .unwrap();
    s
}

#[test]
fn thing_and_channel_rows_are_unique() {
    let mut s = Store::new();
    assert!(s.create_thing(&b("thing-1")).is_ok());
    assert!(s.create_thing(&b("thing-1")).is_err());
    assert_eq!(s.things.len(), 1);
    let t = s.select_thing(&b("thing-1")).unwrap();
    assert_eq!(t.id, 1);
    assert!(s.create_channel(1, &b("chan-1")).is_ok());
    assert!(s.create_channel(1, &b("chan-1")).is_err());
    assert_eq!(s.channels.len(), 1);
    assert!(s.select_channel(&b("missing")).is_err());
}

#[test]
fn identification_is_at_most_one_per_thing() {
    let mut s = Store::new();
    s.create_thing(&b("thing-1")).unwrap();
    assert!(s.create_identification(1, &b("did:iota:self"), &b("{}")).is_ok());
    assert!(s.create_identification(1, &b("did:iota:other"), &b("{}")).is_err());
    let ident = s.select_identification(1).unwrap();
    assert_eq!(ident.did, b("did:iota:self"));
}

#[test]
fn readings_are_never_duplicated() {
    let mut s = store_with_catalog();
    let entry = SensorDataEntry {
        sensor_id: 1,
        sensor_value: b("23.4"),
        sensor_time: 1700000000,
        mqtt: false,
        iota: false,
        verified: false,
    };
    assert!(s.create_sensor_data(entry).is_ok());
    let replay = SensorDataEntry {
        sensor_id: 1,
        sensor_value: b("99.9"),
        sensor_time: 1700000000,
        mqtt: true,
        iota: false,
        verified: false,
    };
    assert!(s.create_sensor_data(replay).is_err());
    assert_eq!(s.sensor_data.len(), 1);
    assert_eq!(s.sensor_data[0].sensor_value, b("23.4"));
}

#[test]
fn ledger_flag_is_gated_by_the_keyload() {
    let mut s = store_with_catalog();
    s.create_sensor_data(SensorDataEntry {
        sensor_id: 1,
        sensor_value: b("23.4"),
        sensor_time: 1700000000,
        mqtt: true,
        iota: false,
        verified: true,
    })
    .unwrap();
    // the channel has no stream row yet, so anchoring is refused
    assert!(s.update_sensor_entry(1, SensorFlag::Iota, true).is_err());
    s.create_stream(StreamsEntry {
        channel_id: 1,
        ann_link: b("ann"),
        sub_link: b(""),
        key_link: b(""),
        msg_link: b(""),
    })
    .unwrap();
    // the stream row exists but its keyload link is empty, so anchoring is refused
    assert!(s.update_sensor_entry(1, SensorFlag::Iota, true).is_err());
    assert!(!s.sensor_data[0].iota);
    // inserting a ledger-anchored reading is refused the same way
    assert!(s
        .create_sensor_data(SensorDataEntry {
            sensor_id: 1,
            sensor_value: b("1"),
            sensor_time: 1700000100,
            mqtt: false,
            iota: true,
            verified: false,
        })
        .is_err());
    s.update_stream(1, StreamField::Keyload, &b("key-link"), 0).unwrap();
    // with the keyload link present the flag may rise
    assert!(s.update_sensor_entry(1, SensorFlag::Iota, true).is_ok());
    assert!(s.sensor_data[0].iota);
}

#[test]
fn identity_lattice_is_monotone() {
    let mut s = Store::new();
    s.create_identity(&b("did:iota:peer"), false).unwrap();
    // subscribed is reachable only from verified
    s.update_identity_to_subscribed(&b("did:iota:peer"), true).unwrap();
    assert!(!s.identities[0].subscribed);
    // unknown -> verified
    s.update_identity(&b("did:iota:peer"), true).unwrap();
    assert!(s.identities[0].verified);
    // a verified peer cannot become unverifiable
    s.update_identity_to_unverifiable(&b("did:iota:peer"), true).unwrap();
    assert!(!s.identities[0].unverifiable);
    // verified -> subscribed
    s.update_identity_to_subscribed(&b("did:iota:peer"), true).unwrap();
    assert!(s.identities[0].subscribed);
}

#[test]
fn unverifiable_is_terminal() {
    let mut s = Store::new();
    s.create_identity(&b("did:iota:rogue"), false).unwrap();
    s.update_identity_to_unverifiable(&b("did:iota:rogue"), true).unwrap();
    assert!(s.identities[0].unverifiable);
    // a later successful-looking verification does not raise the flag
    s.update_identity(&b("did:iota:rogue"), true).unwrap();
    assert!(!s.identities[0].verified);
    assert!(s.identities[0].unverifiable);
}

#[test]
fn stream_fields_update_independently() {
    let mut s = Store::new();
    s.create_thing(&b("t")).unwrap();
    s.create_channel(1, &b("c")).unwrap();
    s.create_stream(StreamsEntry {
        channel_id: 1,
        ann_link: b("ann-1"),
        sub_link: b(""),
        key_link: b(""),
        msg_link: b(""),
    })
    .unwrap();
    s.update_stream(1, StreamField::Subscription, &b("sub-1"), 0).unwrap();
    s.update_stream(1, StreamField::NumSubs, &b(""), 3).unwrap();
    let st = s.select_stream(1).unwrap();
    assert_eq!(st.ann_link, b("ann-1"));
    assert_eq!(st.sub_link, b("sub-1"));
    assert_eq!(st.key_link, b(""));
    assert_eq!(st.num_subs, 3);
}

#[test]
fn select_identities_filters_by_flag() {
    let mut s = Store::new();
    s.create_identity(&b("did:a"), false).unwrap();
    s.create_identity(&b("did:b"), true).unwrap();
    s.create_identity(&b("did:c"), false).unwrap();
    let unverified = s.select_identities(false);
    assert_eq!(unverified, vec![0, 2]);
    let verified = s.select_identities(true);
    assert_eq!(verified, vec![1]);
}

#[test]
fn configuration_updates_by_thing() {
    let mut s = Store::new();
    s.create_thing(&b("t")).unwrap();
    s.create_configuration(1, &b("198.51.100.4"), 0).unwrap();
    assert!(s.create_configuration(1, &b("198.51.100.5"), 0).is_err());
    s.update_configuration(1, iot_integrity::store::ConfigField::PkTimestamp, &b(""), 77)
        .unwrap();
    assert_eq!(s.configs[0].ip, b("198.51.100.4"));
    assert_eq!(s.configs[0].pk_timestamp, 77);
}
