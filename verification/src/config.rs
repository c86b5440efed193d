//! Static configuration values: the gRPC socket, the sensor list of the
//! device, and the broker settings. Loading them from disk or the
//! environment is the driver's business; the defaults here are the ones a
//! fresh node runs with.

use vstd::prelude::*;
use vstd::string::StringExecFns;

verus! {

/// Socket a gRPC server listens on.
pub struct Grpc {
    pub socket: String,
}

/// A sensor as named in the device configuration.
pub struct Sensor {
    pub sensor_id: String,
    pub sensor_name: String,
    pub type_descr: String,
    pub unit: String,
}

/// The configured sensors.
pub struct Sensors {
    pub list: Vec<Sensor>,
}

/// The device configuration: where to serve, and what it measures.
pub struct SensorConfig {
    pub grpc: Grpc,
    pub sensors: Sensors,
}

impl Default for SensorConfig {
    /// The default device: the local socket and a temperature and a humidity
    /// sensor.
    fn default() -> (r: SensorConfig)
        ensures
            r.grpc.socket@ == "[::1]:50051"@,
            r.sensors.list@.len() == 2,
            r.sensors.list@[0].sensor_id@ == "12"@,
            r.sensors.list@[0].sensor_name@ == "MPC 7812"@,
            r.sensors.list@[0].type_descr@ == "Temperature"@,
            r.sensors.list@[0].unit@ == "C"@,
            r.sensors.list@[1].sensor_id@ == "5"@,
            r.sensors.list@[1].sensor_name@ == "DHT 15"@,
            r.sensors.list@[1].type_descr@ == "Humidity"@,
            r.sensors.list@[1].unit@ == "%"@,
    {
        let mut list: Vec<Sensor> = Vec::new();
        list.push(
            Sensor {
                sensor_id: String::from_str("12"),
                sensor_name: String::from_str("MPC 7812"),
                type_descr: String::from_str("Temperature"),
                unit: String::from_str("C"),
            },
        );
        list.push(
            Sensor {
                sensor_id: String::from_str("5"),
                sensor_name: String::from_str("DHT 15"),
                type_descr: String::from_str("Humidity"),
                unit: String::from_str("%"),
            },
        );
        SensorConfig { grpc: Grpc { socket: String::from_str("[::1]:50051") }, sensors: Sensors { list } }
    }
}

/// The broker settings.
pub struct Mqtt {
    pub tls: bool,
    pub port: u32,
    pub ca_name: String,
    pub mqtt_v5: bool,
    pub recon_intv: (u64, u64),
    pub keep_alive: u64,
    pub timeout: u64,
    pub clean_session: bool,
    pub qos_pub: i32,
    pub qos: Vec<i32>,
    pub topics: Vec<String>,
}

/// The broker service configuration.
pub struct MqttConfig {
    pub grpc: Grpc,
    pub mqtt: Mqtt,
}

impl Default for MqttConfig {
    /// The default broker connection: TLS on the usual port, quality of
    /// service one, and the six known topics subscribed.
    fn default() -> (r: MqttConfig)
        ensures
            r.grpc.socket@ == "[::1]:50054"@,
            r.mqtt.tls == true,
            r.mqtt.port == 8883,
            r.mqtt.ca_name@ == "ca.crt"@,
            r.mqtt.mqtt_v5 == false,
            r.mqtt.recon_intv == (2u64, 20u64),
            r.mqtt.keep_alive == 20,
            r.mqtt.timeout == 5,
            r.mqtt.clean_session == false,
            r.mqtt.qos_pub == 1,
            r.mqtt.qos@.len() == 5,
            forall|i: int| 0 <= i < r.mqtt.qos@.len() ==> r.mqtt.qos@[i] == 1,
            r.mqtt.topics@.len() == 6,
            r.mqtt.topics@[0]@ == "did"@,
            r.mqtt.topics@[1]@ == "identity"@,
            r.mqtt.topics@[2]@ == "stream"@,
            r.mqtt.topics@[3]@ == "sensors"@,
            r.mqtt.topics@[4]@ == "settings"@,
            r.mqtt.topics@[5]@ == "command"@,
    {
        let mut topics: Vec<String> = Vec::new();
        topics.push(String::from_str("did"));
        topics.push(String::from_str("identity"));
        topics.push(String::from_str("stream"));
        topics.push(String::from_str("sensors"));
        topics.push(String::from_str("settings"));
        topics.push(String::from_str("command"));
        let qos: Vec<i32> = vec![1, 1, 1, 1, 1];
        MqttConfig {
            grpc: Grpc { socket: String::from_str("[::1]:50054") },
            mqtt: Mqtt {
                tls: true,
                port: 8883,
                ca_name: String::from_str("ca.crt"),
                mqtt_v5: false,
                recon_intv: (2, 20),
                keep_alive: 20,
                timeout: 5,
                clean_session: false,
                qos_pub: 1,
                qos,
                topics,
            },
        }
    }
}

/// Whether the role switch selects the publisher role: exactly the values
/// `true` and `t` do.
pub fn is_factory(switch: &String) -> (r: bool)
    ensures
        r == (switch@ == "true"@ || switch@ == "t"@),
{
    switch.eq(&String::from_str("true")) || switch.eq(&String::from_str("t"))
}


/// The parts of a `;`-separated identifier list, joined back by `;`.
pub open spec fn spec_id_list(parts: Seq<Seq<u8>>) -> Seq<u8>
    decreases parts.len(),
{
    if parts.len() == 0 {
        Seq::empty()
    } else if parts.len() == 1 {
        parts[0]
    } else {
        spec_id_list(parts.drop_last()) + seq![59u8] + parts.last()
    }
}

/// The list so far, with the part still being read at its end.
pub open spec fn spec_id_list_open(parts: Seq<Seq<u8>>, cur: Seq<u8>) -> Seq<u8> {
    if parts.len() == 0 {
        cur
    } else {
        spec_id_list(parts) + seq![59u8] + cur
    }
}

proof fn lemma_id_list_close(parts: Seq<Seq<u8>>, cur: Seq<u8>)
    ensures
        spec_id_list(parts.push(cur)) == spec_id_list_open(parts, cur),
{
    if parts.len() == 0 {
        assert(parts.push(cur)[0] == cur);
    } else {
        assert(parts.push(cur).drop_last() =~= parts);
        assert(parts.push(cur).last() == cur);
    }
}

/// Split a `;`-separated identifier list into its parts: no part carries the
/// separator, and joining the parts back with `;` is the input. The channel
/// and sensor lists of the environment are read this way.
pub fn split_ids(s: &Vec<u8>) -> (r: Vec<Vec<u8>>)
    ensures
        r@.len() >= 1,
        forall|k: int, j: int|
            0 <= k < r@.len() && 0 <= j < r@[k]@.len() ==> (#[trigger] r@[k]@[j]) != 59,
        spec_id_list(r@.map_values(|v: Vec<u8>| v@)) == s@,
{
    let mut parts: Vec<Vec<u8>> = Vec::new();
    let mut cur: Vec<u8> = Vec::new();
    let mut i: usize = 0;
    while i < s.len()
        invariant
            i <= s@.len(),
            forall|k: int, j: int|
                0 <= k < parts@.len() && 0 <= j < parts@[k]@.len() ==> (#[trigger] parts@[k]@[j])
                    != 59,
            forall|j: int| 0 <= j < cur@.len() ==> (#[trigger] cur@[j]) != 59,
            spec_id_list_open(parts@.map_values(|v: Vec<u8>| v@), cur@) == s@.subrange(
                0,
                i as int,
            ),
        decreases s@.len() - i,
    {
        let ghost done0 = parts@.map_values(|v: Vec<u8>| v@);
        let ghost cur0 = cur@;
        let b = s[i];
        if b == 59 {
            parts.push(cur);
            cur = Vec::new();
            proof {
                assert(parts@.map_values(|v: Vec<u8>| v@) =~= done0.push(cur0));
                lemma_id_list_close(done0, cur0);
                assert(spec_id_list_open(parts@.map_values(|v: Vec<u8>| v@), cur@)
                    =~= s@.subrange(0, i + 1));
            }
        } else {
            cur.push(b);
            proof {
                assert(spec_id_list_open(done0, cur@) =~= s@.subrange(0, i + 1));
            }
        }
        i = i + 1;
    }
    let ghost done0 = parts@.map_values(|v: Vec<u8>| v@);
    let ghost cur0 = cur@;
    parts.push(cur);
    proof {
        assert(s@.subrange(0, s@.len() as int) =~= s@);
        assert(parts@.map_values(|v: Vec<u8>| v@) =~= done0.push(cur0));
        lemma_id_list_close(done0, cur0);
        assert(parts@[parts@.len() - 1] == parts@.last());
    }
    parts
}

} // verus!
