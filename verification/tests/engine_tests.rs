use iot_integrity::codec::{Did, Sensor as SensorMsg, Streams};
use iot_integrity::engine::{
    apply_add_subscriber, apply_keyload_created, apply_keyload_received, apply_subscriber_created,
    apply_verify_result, collect_unanchored, collect_unsent_mqtt, mark_anchored,
    mqtt_first_verification, mqtt_identity, mqtt_streams, request_identity_verification,
    save_iota_sensor_data, save_mqtt_sensor_data, Action, Engine, EngineError, LedgerReading, Role,
};
use iot_integrity::models::{SensorDataEntry, SensorEntry};
use iot_integrity::store::Store;

fn b(s: &str) -> Vec<u8> {
    s.as_bytes().to_vec()
}

fn node(thing: &str, channel: &str) -> Store {
    let mut s = Store::new();
    s.create_thing(&b(thing)).unwrap();
    s.create_channel(1, &b(channel)).unwrap();
    s
}

fn sensors_msg() -> SensorMsg {
    SensorMsg {
        sensor_id: b("s1"),
        name: b("MPC 7812"),
        typ: b("Temperature"),
        value: b("23.4"),
        unit: b("C"),
        timestamp: 1700000000,
    }
}

fn ledger_reading() -> LedgerReading {
    LedgerReading {
        did: b("did:iota:a"),
        vc: b("{}"),
        sensor_id: b("s1"),
        sensor_name: b("MPC 7812"),
        sensor_type: b("Temperature"),
        value: b("23.4"),
        unit: b("C"),
        timestamp: 1700000000,
    }
}

/// Node A broadcasts `identity`; node B verifies it with code 0 and records
/// the peer as verified, once.
#[test]
fn two_node_verification() {
    let mut store_b = node("thing-b", "chan-1");
    let mut eng_b = Engine::new();
    let broadcast = Did {
        did: b("did:iota:a"),
        challenge: b("c1"),
        vc: b("{\"vc\":1}"),
        proof_request: false,
    };
    let action = mqtt_first_verification(&b("did:iota:b"), &broadcast).unwrap();
    match action {
        Action::RequestVerify { did, .. } => assert_eq!(did, b("did:iota:a")),
        _ => panic!("expected a verification request"),
    }
    apply_verify_result(&mut store_b, &mut eng_b, &b("did:iota:a"), 0).unwrap();
    assert_eq!(store_b.identities.len(), 1);
    assert_eq!(store_b.identities[0].did, b("did:iota:a"));
    assert!(store_b.identities[0].verified);
    assert!(!store_b.identities[0].unverifiable);
    assert!(!store_b.identities[0].subscribed);
}

/// The full subscription handshake between a publisher A and a subscriber B.
#[test]
fn subscription_handshake() {
    let mut a = node("thing-a", "chan-1");
    let mut b_store = node("thing-b", "chan-1");
    let mut eng_a = Engine::new();
    let mut eng_b = Engine::new();
    // both sides have verified each other
    apply_verify_result(&mut a, &mut eng_a, &b("did:iota:b"), 0).unwrap();
    apply_verify_result(&mut b_store, &mut eng_b, &b("did:iota:a"), 0).unwrap();
    // A's stream exists with announcement link L1
    iot_integrity::bootstrap::init_streams(&mut a, 1, &b("L1"), &b("did:iota:a"), &b("{}"))
        .unwrap();
    // B receives the announcement
    let ann = Streams {
        did: b("did:iota:a"),
        vc: b("{}"),
        announcement_link: b("L1"),
        subscription_link: b(""),
        keyload_link: b(""),
    };
    let act = mqtt_streams(&mut b_store, Role::Subscriber, &b("did:iota:b"), &b("chan-1"), &ann)
        .unwrap();
    match act {
        Action::CreateSubscriber { ann_link } => assert_eq!(ann_link, b("L1")),
        _ => panic!("expected a join"),
    }
    // B's join returned subscription link L2; B publishes it
    let reply =
        apply_subscriber_created(&mut b_store, &b("chan-1"), &b("L2"), 0, &b("did:iota:b"), &b("{}"))
            .unwrap();
    assert_eq!(reply.subscription_link, b("L2"));
    // A receives it and admits the subscriber
    let sub = Streams {
        did: b("did:iota:b"),
        vc: b("{}"),
        announcement_link: b(""),
        subscription_link: b("L2"),
        keyload_link: b(""),
    };
    let act = mqtt_streams(&mut a, Role::Publisher, &b("did:iota:a"), &b("chan-1"), &sub).unwrap();
    match act {
        Action::AddSubscriber { sub_link } => assert_eq!(sub_link, b("L2")),
        _ => panic!("expected an admission"),
    }
    // the admission succeeded and the expected count (1) is reached
    let act = apply_add_subscriber(&mut a, &b("chan-1"), &b("did:iota:b"), 0, 1).unwrap();
    assert!(matches!(act, Action::CreateKeyload));
    // the keyload L3 is minted and published
    let keyload_msg =
        apply_keyload_created(&mut a, &b("chan-1"), &b("L3"), &b("did:iota:a"), &b("{}")).unwrap();
    assert_eq!(keyload_msg.keyload_link, b("L3"));
    // B receives and fetches it
    let act = mqtt_streams(&mut b_store, Role::Subscriber, &b("did:iota:b"), &b("chan-1"), &keyload_msg)
        .unwrap();
    match act {
        Action::ReceiveKeyload { key_link } => assert_eq!(key_link, b("L3")),
        _ => panic!("expected a keyload fetch"),
    }
    apply_keyload_received(&mut b_store, &b("chan-1"), &b("L3"), 0, &b("did:iota:a")).unwrap();
    // final state
    let a_stream = a.select_stream(1).unwrap();
    assert_eq!(a_stream.num_subs, 1);
    assert_eq!(a_stream.key_link, b("L3"));
    let b_stream = b_store.select_stream(1).unwrap();
    assert_eq!(b_stream.key_link, b("L3"));
    let peer = b_store.select_identity(&b("did:iota:a")).unwrap();
    assert!(peer.subscribed);
}

/// A reading arrives on the bus, then its ledger copy: the row converges to
/// fully confirmed.
#[test]
fn cross_plane_confirmation() {
    let mut b_store = node("thing-b", "chan-1");
    // B is subscribed and holds the channel's keyload
    let ann = Streams {
        did: b("did:iota:a"),
        vc: b("{}"),
        announcement_link: b("L1"),
        subscription_link: b(""),
        keyload_link: b(""),
    };
    let mut eng_b = Engine::new();
    apply_verify_result(&mut b_store, &mut eng_b, &b("did:iota:a"), 0).unwrap();
    mqtt_streams(&mut b_store, Role::Subscriber, &b("did:iota:b"), &b("chan-1"), &ann).unwrap();
    apply_keyload_received(&mut b_store, &b("chan-1"), &b("L3"), 0, &b("did:iota:a")).unwrap();
    // the bus copy arrives first
    save_mqtt_sensor_data(&mut b_store, 1, &sensors_msg()).unwrap();
    assert_eq!(b_store.sensor_data.len(), 1);
    assert!(b_store.sensor_data[0].mqtt);
    assert!(!b_store.sensor_data[0].iota);
    assert!(!b_store.sensor_data[0].verified);
    // the ledger copy follows and matches
    save_iota_sensor_data(&mut b_store, 1, &ledger_reading()).unwrap();
    assert_eq!(b_store.sensor_data.len(), 1);
    assert!(b_store.sensor_data[0].mqtt);
    assert!(b_store.sensor_data[0].iota);
    assert!(b_store.sensor_data[0].verified);
}

/// The same convergence when the ledger copy arrives first.
#[test]
fn cross_plane_confirmation_ledger_first() {
    let mut b_store = node("thing-b", "chan-1");
    let mut eng_b = Engine::new();
    apply_verify_result(&mut b_store, &mut eng_b, &b("did:iota:a"), 0).unwrap();
    let ann = Streams {
        did: b("did:iota:a"),
        vc: b("{}"),
        announcement_link: b("L1"),
        subscription_link: b(""),
        keyload_link: b(""),
    };
    mqtt_streams(&mut b_store, Role::Subscriber, &b("did:iota:b"), &b("chan-1"), &ann).unwrap();
    apply_keyload_received(&mut b_store, &b("chan-1"), &b("L3"), 0, &b("did:iota:a")).unwrap();
    save_iota_sensor_data(&mut b_store, 1, &ledger_reading()).unwrap();
    assert_eq!(b_store.sensor_data.len(), 1);
    assert!(!b_store.sensor_data[0].mqtt);
    assert!(b_store.sensor_data[0].iota);
    save_mqtt_sensor_data(&mut b_store, 1, &sensors_msg()).unwrap();
    assert_eq!(b_store.sensor_data.len(), 1);
    assert!(b_store.sensor_data[0].mqtt);
    assert!(b_store.sensor_data[0].iota);
    assert!(b_store.sensor_data[0].verified);
}

/// Ten failed verification responses make a peer unverifiable; its stream
/// messages are ignored thereafter.
#[test]
fn unverifiable_peer() {
    let mut store_b = node("thing-b", "chan-1");
    let mut eng_b = Engine::new();
    for _ in 0..10 {
        apply_verify_result(&mut store_b, &mut eng_b, &b("did:iota:x"), -1).unwrap();
    }
    let row = store_b.select_identity(&b("did:iota:x")).unwrap();
    assert!(row.unverifiable);
    assert!(!row.verified);
    let streams_before = store_b.streams.len();
    let msg = Streams {
        did: b("did:iota:x"),
        vc: b("{}"),
        announcement_link: b("L9"),
        subscription_link: b(""),
        keyload_link: b(""),
    };
    let act = mqtt_streams(&mut store_b, Role::Subscriber, &b("did:iota:b"), &b("chan-1"), &msg)
        .unwrap();
    assert!(matches!(act, Action::Idle));
    assert_eq!(store_b.streams.len(), streams_before);
}

/// A node's own `stream` message is dropped without any change.
#[test]
fn self_loop_drop() {
    let mut a = node("thing-a", "chan-1");
    let mut eng_a = Engine::new();
    apply_verify_result(&mut a, &mut eng_a, &b("did:iota:b"), 0).unwrap();
    iot_integrity::bootstrap::init_streams(&mut a, 1, &b("L1"), &b("did:iota:a"), &b("{}"))
        .unwrap();
    let streams_before = a.streams.len();
    let idents_before = a.identities.len();
    let own = Streams {
        did: b("did:iota:a"),
        vc: b("{}"),
        announcement_link: b("L1"),
        subscription_link: b(""),
        keyload_link: b(""),
    };
    let r = mqtt_streams(&mut a, Role::Publisher, &b("did:iota:a"), &b("chan-1"), &own);
    assert!(matches!(r, Err(EngineError::SelfMessage)));
    assert_eq!(a.streams.len(), streams_before);
    assert_eq!(a.identities.len(), idents_before);
    assert_eq!(a.streams[0].ann_link, b("L1"));
}

/// The same `sensors` payload twice: exactly one row, confirmed on the
/// second receipt.
#[test]
fn dedup_under_replay() {
    let mut b_store = node("thing-b", "chan-1");
    save_mqtt_sensor_data(&mut b_store, 1, &sensors_msg()).unwrap();
    save_mqtt_sensor_data(&mut b_store, 1, &sensors_msg()).unwrap();
    assert_eq!(b_store.sensor_data.len(), 1);
    assert!(b_store.sensor_data[0].mqtt);
    assert!(b_store.sensor_data[0].verified);
}

/// A replayed payload with a different value leaves conflicting evidence
/// unconfirmed.
#[test]
fn conflicting_replay_is_not_confirmed() {
    let mut b_store = node("thing-b", "chan-1");
    save_mqtt_sensor_data(&mut b_store, 1, &sensors_msg()).unwrap();
    let mut tampered = sensors_msg();
    tampered.value = b("99.9");
    save_mqtt_sensor_data(&mut b_store, 1, &tampered).unwrap();
    assert_eq!(b_store.sensor_data.len(), 1);
    assert_eq!(b_store.sensor_data[0].sensor_value, b("23.4"));
    assert!(!b_store.sensor_data[0].verified);
}

/// Verification requests go to unknown peers only, with fresh 30-character
/// challenges that become outstanding.
#[test]
fn verification_requests_cover_unknown_peers() {
    let mut s = Store::new();
    s.create_identity(&b("did:iota:u1"), false).unwrap();
    s.create_identity(&b("did:iota:v"), true).unwrap();
    s.create_identity(&b("did:iota:u2"), false).unwrap();
    s.update_identity_to_unverifiable(&b("did:iota:u2"), true).unwrap();
    let mut eng = Engine::new();
    let msgs = request_identity_verification(&s, &mut eng);
    assert_eq!(msgs.len(), 1);
    assert_eq!(msgs[0].did, b("did:iota:u1"));
    assert!(msgs[0].proof_request);
    assert_eq!(msgs[0].challenge.len(), 30);
    assert!(msgs[0].challenge.iter().all(|c| c.is_ascii_alphanumeric()));
    assert_eq!(eng.pending.len(), 1);
    assert_eq!(eng.pending[0].did, b("did:iota:u1"));
    assert_eq!(eng.pending[0].challenge, msgs[0].challenge);
}

/// A `did` response is accepted only while its pair is outstanding, and only
/// once.
#[test]
fn did_response_requires_an_outstanding_challenge() {
    let mut eng = Engine::new();
    let reply = Did {
        did: b("did:iota:peer"),
        challenge: b("chal-123"),
        vc: b("{\"signed\":1}"),
        proof_request: false,
    };
    let r = mqtt_identity(&mut eng, &b("did:iota:self"), &reply);
    assert!(matches!(r, Err(EngineError::ChallengeMismatch)));
    eng.pending.push(iot_integrity::engine::PendingChallenge {
        did: b("did:iota:peer"),
        challenge: b("chal-123"),
    });
    let r = mqtt_identity(&mut eng, &b("did:iota:self"), &reply).unwrap();
    assert!(matches!(r, Action::RequestVerify { .. }));
    assert_eq!(eng.pending.len(), 0);
    let r = mqtt_identity(&mut eng, &b("did:iota:self"), &reply);
    assert!(matches!(r, Err(EngineError::ChallengeMismatch)));
}

/// A proof request naming this node is answered; one naming another node is
/// not.
#[test]
fn proof_requests_are_answered_for_own_did_only() {
    let mut eng = Engine::new();
    let ask = Did {
        did: b("did:iota:self"),
        challenge: b("chal-9"),
        vc: b(""),
        proof_request: true,
    };
    let r = mqtt_identity(&mut eng, &b("did:iota:self"), &ask).unwrap();
    match r {
        Action::RequestProof { did, challenge, .. } => {
            assert_eq!(did, b("did:iota:self"));
            assert_eq!(challenge, b("chal-9"));
        },
        _ => panic!("expected a proof request"),
    }
    let foreign = Did { did: b("did:iota:other"), ..ask };
    let r = mqtt_identity(&mut eng, &b("did:iota:self"), &foreign).unwrap();
    assert!(matches!(r, Action::Idle));
}

/// The publisher's send path: unsent rows are batched for the bus; anchoring
/// is gated on the keyload and chains the message link.
#[test]
fn publisher_send_path() {
    let mut a = node("thing-a", "chan-1");
    a.create_sensor_type(&b("Temperature"), &b("C")).unwrap();
    a.create_sensor(SensorEntry {
        channel_id: 1,
        sensor_types_id: 1,
        sensor_id: b("s1"),
        sensor_name: b("MPC 7812"),
    })
    .unwrap();
    a.create_sensor_data(SensorDataEntry {
        sensor_id: 1,
        sensor_value: b("23.4"),
        sensor_time: 1700000000,
        mqtt: false,
        iota: false,
        verified: false,
    })
    .unwrap();
    let batch = collect_unsent_mqtt(&a).unwrap();
    assert_eq!(batch.len(), 1);
    assert_eq!(batch[0].0, 1);
    assert_eq!(batch[0].1.sensor_id, b("s1"));
    assert_eq!(batch[0].1.value, b("23.4"));
    a.update_sensor_entry(1, iot_integrity::store::SensorFlag::Mqtt, true).unwrap();
    assert!(collect_unsent_mqtt(&a).unwrap().is_empty());
    // no keyload yet: nothing may be anchored
    iot_integrity::bootstrap::init_streams(&mut a, 1, &b("L1"), &b("did:iota:a"), &b("{}"))
        .unwrap();
    let r = collect_unanchored(&a, &b("chan-1"), &b("did:iota:a"), &b("{}"));
    assert!(matches!(r, Err(EngineError::KeyloadMissing)));
    assert!(mark_anchored(&mut a, &b("chan-1"), 1, &b("m1")).is_err());
    // keyload present, row confirmed: it is anchored and the link chains
    a.update_stream(1, iot_integrity::store::StreamField::Keyload, &b("L3"), 0).unwrap();
    a.update_sensor_entry(1, iot_integrity::store::SensorFlag::Verified, true).unwrap();
    let (batch, start) = collect_unanchored(&a, &b("chan-1"), &b("did:iota:a"), &b("{}")).unwrap();
    assert_eq!(start, b("L3"));
    assert_eq!(batch.len(), 1);
    assert_eq!(batch[0].1.did, b("did:iota:a"));
    assert_eq!(batch[0].1.value, b("23.4"));
    mark_anchored(&mut a, &b("chan-1"), 1, &b("m1")).unwrap();
    assert!(a.sensor_data[0].iota);
    assert_eq!(a.select_stream(1).unwrap().msg_link, b("m1"));
    let (batch, start) = collect_unanchored(&a, &b("chan-1"), &b("did:iota:a"), &b("{}")).unwrap();
    assert!(batch.is_empty());
    assert_eq!(start, b("m1"));
}
