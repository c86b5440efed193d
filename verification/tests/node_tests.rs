use iot_integrity::bootstrap::{
    apply_identity_created, init_rows, init_streams, update_ip_address, update_sensor_entries,
    ConfiguredSensor,
};
use iot_integrity::config::{is_factory, split_ids, MqttConfig, SensorConfig};
use iot_integrity::engine::{dispatch_message, Action, Engine, EngineError, Role};
use iot_integrity::msg_util::{convert_from_msgtype, convert_to_msgtype, make_channel_reply, MsgType};
use iot_integrity::random::generate_seed;
use iot_integrity::store::Store;
use iot_integrity::topics::{
    create_broker_address, get_state_path, make_topic_address, parse_topic, topic_name, Topic,
};

fn b(s: &str) -> Vec<u8> {
    s.as_bytes().to_vec()
}

/// Seed generation: one hundred draws, all distinct.
#[test]
fn test_generate_seed() {
    let samples = 100;
    let mut seeds: Vec<String> = vec![String::new(); samples];
    let mut len = 0;
    for _ in 1..=samples {
        let seed = generate_seed();
        println!("{}: {}", len, &seed);
        len += 1;
        seeds.push(seed);
    }
    seeds.sort();
    seeds.dedup();
    let mut len = 0;
    for seed in &seeds {
        if !seed.is_empty() {
            println!("{}: {}", len, seed);
            len += 1;
        }
    }
    assert_eq!(len, samples);
}

#[test]
fn seeds_use_the_ternary_alphabet() {
    let seed = generate_seed();
    assert_eq!(seed.chars().count(), 81);
    assert!(seed.chars().all(|c| c.is_ascii_uppercase() || c == '9'));
}

/// Re-running bootstrap against an initialized store inserts nothing.
#[test]
fn idempotent_bootstrap() {
    let mut s = Store::new();
    let keys = vec![b("chan-1"), b("chan-2")];
    let tid = init_rows(&mut s, &b("thing-1"), &keys).unwrap();
    assert_eq!(tid, 1);
    apply_identity_created(&mut s, tid, &b("did:iota:self"), &b("{}"), &b("chal")).unwrap();
    init_streams(&mut s, 1, &b("L1"), &b("did:iota:self"), &b("{}")).unwrap();
    update_ip_address(&mut s, &b("203.0.113.9"), tid).unwrap();
    let sensors = vec![ConfiguredSensor {
        sensor_id: b("s1"),
        sensor_name: b("MPC 7812"),
        type_descr: b("Temperature"),
        unit: b("C"),
    }];
    update_sensor_entries(&mut s, 1, &sensors).unwrap();
    let things = s.things.len();
    let channels = s.channels.len();
    let identifications = s.identifications.len();
    let streams = s.streams.len();
    let sensor_rows = s.sensors.len();
    let type_rows = s.sensor_types.len();
    // run every step again
    let tid2 = init_rows(&mut s, &b("thing-1"), &keys).unwrap();
    assert_eq!(tid2, tid);
    assert!(apply_identity_created(&mut s, tid, &b("did:iota:self"), &b("{}"), &b("chal")).is_err());
    assert!(init_streams(&mut s, 1, &b("L1"), &b("did:iota:self"), &b("{}")).is_err());
    update_sensor_entries(&mut s, 1, &sensors).unwrap();
    assert_eq!(s.things.len(), things);
    assert_eq!(s.channels.len(), channels);
    assert_eq!(s.identifications.len(), identifications);
    assert_eq!(s.streams.len(), streams);
    assert_eq!(s.sensors.len(), sensor_rows);
    assert_eq!(s.sensor_types.len(), type_rows);
}

#[test]
fn bootstrap_payloads_carry_the_links() {
    let mut s = Store::new();
    init_rows(&mut s, &b("thing-1"), &vec![b("chan-1")]).unwrap();
    let first_contact =
        apply_identity_created(&mut s, 1, &b("did:iota:self"), &b("{\"vc\":1}"), &b("chal-1"))
            .unwrap();
    assert_eq!(first_contact.did, b("did:iota:self"));
    assert_eq!(first_contact.challenge, b("chal-1"));
    assert!(!first_contact.proof_request);
    let ann = init_streams(&mut s, 1, &b("L1"), &b("did:iota:self"), &b("{\"vc\":1}")).unwrap();
    assert_eq!(ann.announcement_link, b("L1"));
    assert_eq!(ann.did, b("did:iota:self"));
    assert!(ann.keyload_link.is_empty());
}

/// A malformed payload is dropped with nothing changed, on every topic.
#[test]
fn dispatch_refuses_malformed_payloads() {
    let mut s = Store::new();
    init_rows(&mut s, &b("thing-1"), &vec![b("chan-1")]).unwrap();
    let mut eng = Engine::new();
    let garbage = b("\x01\x02\x03");
    for topic in [
        Topic::Did,
        Topic::Identity,
        Topic::Stream,
        Topic::Sensors,
        Topic::Settings,
        Topic::Command,
    ] {
        let r = dispatch_message(
            &mut s,
            &mut eng,
            Role::Subscriber,
            &b("did:iota:self"),
            &b("thing-1"),
            &b("chan-1"),
            topic,
            &garbage,
        );
        assert!(matches!(r, Err(EngineError::DecodeFailed)));
    }
    assert_eq!(s.identities.len(), 0);
    assert_eq!(s.sensor_data.len(), 0);
}

/// A `sensors` payload dispatched whole lands as a pending reading.
#[test]
fn dispatch_ingests_sensor_payloads() {
    let mut s = Store::new();
    init_rows(&mut s, &b("thing-1"), &vec![b("chan-1")]).unwrap();
    let mut eng = Engine::new();
    let msg = iot_integrity::codec::Sensor {
        sensor_id: b("s1"),
        name: b("MPC 7812"),
        typ: b("Temperature"),
        value: b("23.4"),
        unit: b("C"),
        timestamp: 1700000000,
    };
    let payload = iot_integrity::codec::encode_sensor(&msg);
    let r = dispatch_message(
        &mut s,
        &mut eng,
        Role::Subscriber,
        &b("did:iota:self"),
        &b("thing-1"),
        &b("chan-1"),
        Topic::Sensors,
        &payload,
    )
    .unwrap();
    assert!(matches!(r, Action::Idle));
    assert_eq!(s.sensor_data.len(), 1);
    assert!(s.sensor_data[0].mqtt);
}

/// A `settings` payload with a key timestamp updates the configuration and
/// hands the certificate out to be written.
#[test]
fn dispatch_applies_settings() {
    let mut s = Store::new();
    init_rows(&mut s, &b("thing-1"), &vec![b("chan-1")]).unwrap();
    update_ip_address(&mut s, &b("203.0.113.9"), 1).unwrap();
    let mut eng = Engine::new();
    let msg = iot_integrity::codec::Setting {
        ip: b(""),
        pk_timestamp: 1700000123,
        pk: vec![9, 9, 9],
    };
    let payload = iot_integrity::codec::encode_setting(&msg);
    let r = dispatch_message(
        &mut s,
        &mut eng,
        Role::Subscriber,
        &b("did:iota:self"),
        &b("thing-1"),
        &b("chan-1"),
        Topic::Settings,
        &payload,
    )
    .unwrap();
    match r {
        Action::WriteCaFile { pk } => assert_eq!(pk, vec![9, 9, 9]),
        _ => panic!("expected a certificate write"),
    }
    assert_eq!(s.configs[0].pk_timestamp, 1700000123);
}

#[test]
fn topic_names_round_trip() {
    for topic in [
        Topic::Did,
        Topic::Identity,
        Topic::Stream,
        Topic::Sensors,
        Topic::Settings,
        Topic::Command,
    ] {
        let name = topic_name(topic);
        assert_eq!(parse_topic(&name), Some(topic));
    }
    assert_eq!(parse_topic(&"bogus".to_string()), None);
    assert_eq!(topic_name(Topic::Sensors), "sensors");
}

#[test]
fn addresses_are_assembled() {
    assert_eq!(make_topic_address("chan-1", "did"), "channels/chan-1/messages/did");
    assert_eq!(
        create_broker_address("broker.example".to_string(), "8883".to_string(), true),
        "ssl://broker.example:8883"
    );
    assert_eq!(
        create_broker_address("broker.example".to_string(), "1883".to_string(), false),
        "tcp://broker.example:1883"
    );
    assert_eq!(get_state_path("author-1"), "./storage/author-1");
}

#[test]
fn msgtype_codes_round_trip() {
    let all = [
        MsgType::Error,
        MsgType::CreateNewAuthor,
        MsgType::CreateNewSubscriber,
        MsgType::AddSubscriber,
        MsgType::ReceiveKeyload,
        MsgType::SendMessage,
        MsgType::ReceiveMessages,
        MsgType::Unknown,
    ];
    for t in all {
        let n = convert_from_msgtype(t);
        let back = convert_to_msgtype(n);
        let m = convert_from_msgtype(back);
        assert_eq!(n, m);
    }
    assert!(matches!(convert_to_msgtype(5), MsgType::SendMessage));
    assert!(matches!(convert_to_msgtype(99), MsgType::Unknown));
    assert_eq!(convert_from_msgtype(MsgType::CreateNewSubscriber), 2);
}

#[test]
fn channel_replies_carry_their_fields() {
    let r = make_channel_reply("author-1", MsgType::AddSubscriber, "link-1", "Ok", 0);
    assert_eq!(r.id, "author-1");
    assert!(matches!(r.msg_type, MsgType::AddSubscriber));
    assert_eq!(r.link, "link-1");
    assert_eq!(r.status, "Ok");
    assert_eq!(r.code, 0);
    assert!(r.messages.is_none());
}

#[test]
fn default_configs_hold_the_known_values() {
    let c = SensorConfig::default();
    assert_eq!(c.grpc.socket, "[::1]:50051");
    assert_eq!(c.sensors.list.len(), 2);
    assert_eq!(c.sensors.list[0].type_descr, "Temperature");
    assert_eq!(c.sensors.list[1].unit, "%");
    let m = MqttConfig::default();
    assert_eq!(m.mqtt.port, 8883);
    assert!(m.mqtt.tls);
    assert_eq!(m.mqtt.topics.len(), 6);
    assert_eq!(m.mqtt.topics[3], "sensors");
    assert_eq!(m.mqtt.qos, vec![1, 1, 1, 1, 1]);
}

#[test]
fn id_lists_split_on_semicolons() {
    assert_eq!(split_ids(&b("c1;c2;c3")), vec![b("c1"), b("c2"), b("c3")]);
    assert_eq!(split_ids(&b("only")), vec![b("only")]);
    assert_eq!(split_ids(&b("")), vec![b("")]);
    assert_eq!(split_ids(&b("a;;b")), vec![b("a"), b(""), b("b")]);
    assert_eq!(split_ids(&b("a;")), vec![b("a"), b("")]);
}

#[test]
fn factory_switch_accepts_true_and_t() {
    assert!(is_factory(&"true".to_string()));
    assert!(is_factory(&"t".to_string()));
    assert!(!is_factory(&"false".to_string()));
    assert!(!is_factory(&"f".to_string()));
    assert!(!is_factory(&"yes".to_string()));
}
