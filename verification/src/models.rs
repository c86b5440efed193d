//! The persisted records: one struct per table of the index.
//!
//! Text is carried as bytes throughout; the identifiers, links and values
//! these rows hold are opaque octet strings to the engine. A link field that
//! is empty denotes an absent link.

use vstd::prelude::*;

verus! {

/// The local device.
pub struct Thing {
    pub id: i32,
    pub thing_key: Vec<u8>,
}

/// A logical topic/stream partition owned by a thing.
pub struct Channel {
    pub id: i32,
    pub thing_id: i32,
    pub channel_key: Vec<u8>,
}

/// The local thing's own decentralized identifier and credential.
pub struct Identification {
    pub id: i32,
    pub thing_id: i32,
    pub did: Vec<u8>,
    pub vc: Vec<u8>,
}

/// Per-channel ledger stream link state.
pub struct Stream {
    pub id: i32,
    pub channel_id: i32,
    pub ann_link: Vec<u8>,
    pub sub_link: Vec<u8>,
    pub key_link: Vec<u8>,
    pub msg_link: Vec<u8>,
    pub num_subs: i32,
}

/// A remote peer's identifier and its verification state.
pub struct Identity {
    pub id: i32,
    pub did: Vec<u8>,
    pub verified: bool,
    pub unverifiable: bool,
    pub subscribed: bool,
}

/// Per-thing runtime facts.
pub struct Config {
    pub thing_id: i32,
    pub ip: Vec<u8>,
    pub pk_timestamp: i64,
}

/// A kind of sensor, unique on its description.
pub struct SensorType {
    pub id: i32,
    pub description: Vec<u8>,
    pub unit: Vec<u8>,
}

/// A sensor attached to a channel; `sensor_id` is its external key.
pub struct Sensor {
    pub id: i32,
    pub channel_id: i32,
    pub sensor_types_id: i32,
    pub sensor_id: Vec<u8>,
    pub sensor_name: Vec<u8>,
}

/// A reading, with its three-flag provenance vector: seen on the bus
/// (`mqtt`), anchored on the ledger (`iota`), and confirmed byte-for-byte on
/// both planes (`verified`).
pub struct SensorData {
    pub id: i32,
    pub sensor_id: i32,
    pub sensor_value: Vec<u8>,
    pub sensor_time: i64,
    pub mqtt: bool,
    pub iota: bool,
    pub verified: bool,
}

/// Arguments for inserting a stream row.
pub struct StreamsEntry {
    pub channel_id: i32,
    pub ann_link: Vec<u8>,
    pub sub_link: Vec<u8>,
    pub key_link: Vec<u8>,
    pub msg_link: Vec<u8>,
}

/// Arguments for inserting a sensor row.
pub struct SensorEntry {
    pub channel_id: i32,
    pub sensor_types_id: i32,
    pub sensor_id: Vec<u8>,
    pub sensor_name: Vec<u8>,
}

/// Arguments for inserting a reading.
pub struct SensorDataEntry {
    pub sensor_id: i32,
    pub sensor_value: Vec<u8>,
    pub sensor_time: i64,
    pub mqtt: bool,
    pub iota: bool,
    pub verified: bool,
}

/// Byte-string equality, decided by content.
pub fn bytes_eq(a: &Vec<u8>, b: &Vec<u8>) -> (r: bool)
    ensures
        r == (a@ == b@),
{
    if a.len() != b.len() {
        assert(a@ != b@);
        return false;
    }
    let mut i: usize = 0;
    while i < a.len()
        invariant
            i <= a@.len(),
            a@.len() == b@.len(),
            forall|j: int| 0 <= j < i ==> a@[j] == b@[j],
        decreases a@.len() - i,
    {
        if a[i] != b[i] {
            return false;
        }
        i = i + 1;
    }
    assert(a@ =~= b@);
    true
}

/// A copy of a byte string with the same content.
pub fn copy_bytes(v: &Vec<u8>) -> (r: Vec<u8>)
    ensures
        r@ == v@,
{
    let mut r: Vec<u8> = Vec::new();
    let mut i: usize = 0;
    while i < v.len()
        invariant
            i <= v@.len(),
            r@ == v@.subrange(0, i as int),
        decreases v@.len() - i,
    {
        r.push(v[i]);
        assert(r@ =~= v@.subrange(0, i + 1));
        i = i + 1;
    }
    assert(v@.subrange(0, v@.len() as int) =~= v@);
    r
}

} // verus!
