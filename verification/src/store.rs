//! The persistence index: nine tables and their invariants.
//!
//! The process owns exactly one `Store`. Row ids are assigned densely in
//! insertion order (the row at position `i` has id `i + 1`), each table's
//! natural key is unique, and a peer's flags respect the verification
//! lattice. Every mutation below preserves `wf`, and the readings table
//! never holds two rows for one `(sensor_id, sensor_time)` pair.

use vstd::prelude::*;

use crate::models::{
    bytes_eq, copy_bytes, Channel, Config, Identification, Identity, Sensor, SensorData,
    SensorDataEntry, SensorEntry, SensorType, StreamsEntry, Stream, Thing,
};

verus! {

/// The largest row count a table may reach (ids are `i32`).
pub open spec fn max_rows() -> int {
    0x7FFF_FFFF
}

pub struct Store {
    pub things: Vec<Thing>,
    pub channels: Vec<Channel>,
    pub identifications: Vec<Identification>,
    pub identities: Vec<Identity>,
    pub streams: Vec<Stream>,
    pub sensor_types: Vec<SensorType>,
    pub sensors: Vec<Sensor>,
    pub sensor_data: Vec<SensorData>,
    pub configs: Vec<Config>,
}

impl Store {
    pub open spec fn things_wf(self) -> bool {
        &&& self.things@.len() <= max_rows()
        &&& forall|i: int| 0 <= i < self.things@.len() ==> #[trigger] self.things@[i].id == i + 1
        &&& forall|i: int, j: int|
            0 <= i < j < self.things@.len() ==> #[trigger] self.things@[i].thing_key@
                != #[trigger] self.things@[j].thing_key@
    }

    pub open spec fn channels_wf(self) -> bool {
        &&& self.channels@.len() <= max_rows()
        &&& forall|i: int|
            0 <= i < self.channels@.len() ==> #[trigger] self.channels@[i].id == i + 1
        &&& forall|i: int, j: int|
            0 <= i < j < self.channels@.len() ==> !(#[trigger] self.channels@[i].channel_key@
                == #[trigger] self.channels@[j].channel_key@ && self.channels@[i].thing_id
                == self.channels@[j].thing_id)
    }

    pub open spec fn identifications_wf(self) -> bool {
        &&& self.identifications@.len() <= max_rows()
        &&& forall|i: int|
            0 <= i < self.identifications@.len() ==> #[trigger] self.identifications@[i].id == i + 1
        &&& forall|i: int, j: int|
            0 <= i < j < self.identifications@.len() ==> #[trigger] self.identifications@[i].thing_id
                != #[trigger] self.identifications@[j].thing_id
    }

    /// A peer's flags respect the lattice: `subscribed` only ever holds of a
    /// verified peer, and a peer is never both verified and unverifiable.
    pub open spec fn identity_flags_wf(x: Identity) -> bool {
        &&& x.subscribed ==> x.verified
        &&& !(x.verified && x.unverifiable)
    }

    pub open spec fn identities_wf(self) -> bool {
        &&& self.identities@.len() <= max_rows()
        &&& forall|i: int|
            0 <= i < self.identities@.len() ==> #[trigger] self.identities@[i].id == i + 1
        &&& forall|i: int, j: int|
            0 <= i < j < self.identities@.len() ==> #[trigger] self.identities@[i].did@
                != #[trigger] self.identities@[j].did@
        &&& forall|i: int|
            0 <= i < self.identities@.len() ==> Self::identity_flags_wf(
                #[trigger] self.identities@[i],
            )
    }

    pub open spec fn streams_wf(self) -> bool {
        &&& self.streams@.len() <= max_rows()
        &&& forall|i: int| 0 <= i < self.streams@.len() ==> #[trigger] self.streams@[i].id == i + 1
        &&& forall|i: int, j: int|
            0 <= i < j < self.streams@.len() ==> #[trigger] self.streams@[i].channel_id
                != #[trigger] self.streams@[j].channel_id
        &&& forall|i: int| 0 <= i < self.streams@.len() ==> #[trigger] self.streams@[i].num_subs >= 0
    }

    pub open spec fn sensor_types_wf(self) -> bool {
        &&& self.sensor_types@.len() <= max_rows()
        &&& forall|i: int|
            0 <= i < self.sensor_types@.len() ==> #[trigger] self.sensor_types@[i].id == i + 1
        &&& forall|i: int, j: int|
            0 <= i < j < self.sensor_types@.len() ==> #[trigger] self.sensor_types@[i].description@
                != #[trigger] self.sensor_types@[j].description@
    }

    pub open spec fn sensors_wf(self) -> bool {
        &&& self.sensors@.len() <= max_rows()
        &&& forall|i: int| 0 <= i < self.sensors@.len() ==> #[trigger] self.sensors@[i].id == i + 1
        &&& forall|i: int, j: int|
            0 <= i < j < self.sensors@.len() ==> #[trigger] self.sensors@[i].sensor_id@
                != #[trigger] self.sensors@[j].sensor_id@
    }

    /// At most one reading per `(sensor_id, sensor_time)` pair.
    pub open spec fn sensor_data_wf(self) -> bool {
        &&& self.sensor_data@.len() <= max_rows()
        &&& forall|i: int|
            0 <= i < self.sensor_data@.len() ==> #[trigger] self.sensor_data@[i].id == i + 1
        &&& forall|i: int, j: int|
            0 <= i < j < self.sensor_data@.len() ==> !(#[trigger] self.sensor_data@[i].sensor_id
                == #[trigger] self.sensor_data@[j].sensor_id && self.sensor_data@[i].sensor_time
                == self.sensor_data@[j].sensor_time)
    }

    pub open spec fn configs_wf(self) -> bool {
        &&& self.configs@.len() <= max_rows()
        &&& forall|i: int, j: int|
            0 <= i < j < self.configs@.len() ==> #[trigger] self.configs@[i].thing_id
                != #[trigger] self.configs@[j].thing_id
    }

    pub open spec fn wf(self) -> bool {
        &&& self.things_wf()
        &&& self.channels_wf()
        &&& self.identifications_wf()
        &&& self.identities_wf()
        &&& self.streams_wf()
        &&& self.sensor_types_wf()
        &&& self.sensors_wf()
        &&& self.sensor_data_wf()
        &&& self.configs_wf()
    }

    pub fn new() -> (r: Store)
        ensures
            r.wf(),
            r.things@.len() == 0,
            r.channels@.len() == 0,
            r.identifications@.len() == 0,
            r.identities@.len() == 0,
            r.streams@.len() == 0,
            r.sensor_types@.len() == 0,
            r.sensors@.len() == 0,
            r.sensor_data@.len() == 0,
            r.configs@.len() == 0,
    {
        Store {
            things: Vec::new(),
            channels: Vec::new(),
            identifications: Vec::new(),
            identities: Vec::new(),
            streams: Vec::new(),
            sensor_types: Vec::new(),
            sensors: Vec::new(),
            sensor_data: Vec::new(),
            configs: Vec::new(),
        }
    }
}

// ----- existence of a row by its natural key -----

pub open spec fn has_thing(s: Store, key: Seq<u8>) -> bool {
    exists|i: int| 0 <= i < s.things@.len() && #[trigger] s.things@[i].thing_key@ == key
}

pub open spec fn has_channel(s: Store, key: Seq<u8>) -> bool {
    exists|i: int| 0 <= i < s.channels@.len() && #[trigger] s.channels@[i].channel_key@ == key
}

pub open spec fn has_identification(s: Store, thing_id: i32) -> bool {
    exists|i: int|
        0 <= i < s.identifications@.len() && #[trigger] s.identifications@[i].thing_id == thing_id
}

pub open spec fn has_identity(s: Store, did: Seq<u8>) -> bool {
    exists|i: int| 0 <= i < s.identities@.len() && #[trigger] s.identities@[i].did@ == did
}

pub open spec fn has_stream(s: Store, channel_id: i32) -> bool {
    exists|i: int| 0 <= i < s.streams@.len() && #[trigger] s.streams@[i].channel_id == channel_id
}

pub open spec fn has_sensor_type(s: Store, description: Seq<u8>) -> bool {
    exists|i: int|
        0 <= i < s.sensor_types@.len() && #[trigger] s.sensor_types@[i].description@ == description
}

pub open spec fn has_sensor(s: Store, sensor_key: Seq<u8>) -> bool {
    exists|i: int| 0 <= i < s.sensors@.len() && #[trigger] s.sensors@[i].sensor_id@ == sensor_key
}

pub open spec fn has_reading(s: Store, sensor_id: i32, time: i64) -> bool {
    exists|i: int|
        0 <= i < s.sensor_data@.len() && #[trigger] s.sensor_data@[i].sensor_id == sensor_id
            && s.sensor_data@[i].sensor_time == time
}

pub open spec fn has_config(s: Store, thing_id: i32) -> bool {
    exists|i: int| 0 <= i < s.configs@.len() && #[trigger] s.configs@[i].thing_id == thing_id
}

// ----- the recorded state of one peer -----

pub open spec fn peer_verified(s: Store, did: Seq<u8>) -> bool {
    exists|i: int|
        0 <= i < s.identities@.len() && #[trigger] s.identities@[i].did@ == did
            && s.identities@[i].verified
}

pub open spec fn peer_unverifiable(s: Store, did: Seq<u8>) -> bool {
    exists|i: int|
        0 <= i < s.identities@.len() && #[trigger] s.identities@[i].did@ == did
            && s.identities@[i].unverifiable
}

pub open spec fn peer_subscribed(s: Store, did: Seq<u8>) -> bool {
    exists|i: int|
        0 <= i < s.identities@.len() && #[trigger] s.identities@[i].did@ == did
            && s.identities@[i].subscribed
}

/// With unique identifiers, the recorded state of a peer is the state of its
/// row.
pub proof fn lemma_peer_at(s: Store, i: int)
    requires
        s.identities_wf(),
        0 <= i < s.identities@.len(),
    ensures
        peer_verified(s, s.identities@[i].did@) == s.identities@[i].verified,
        peer_unverifiable(s, s.identities@[i].did@) == s.identities@[i].unverifiable,
        peer_subscribed(s, s.identities@[i].did@) == s.identities@[i].subscribed,
        has_identity(s, s.identities@[i].did@),
{
    let d = s.identities@[i].did@;
    assert forall|j: int|
        0 <= j < s.identities@.len() && (#[trigger] s.identities@[j].did@) == d implies j == i by {
        if j < i {
            assert(s.identities@[j].did@ != s.identities@[i].did@);
        } else if i < j {
            assert(s.identities@[i].did@ != s.identities@[j].did@);
        }
    }
}

/// A peer with no row is in the unknown state.
pub proof fn lemma_peer_absent(s: Store, d: Seq<u8>)
    requires
        !has_identity(s, d),
    ensures
        !peer_verified(s, d),
        !peer_unverifiable(s, d),
        !peer_subscribed(s, d),
{
    assert forall|j: int|
        0 <= j < s.identities@.len() implies (#[trigger] s.identities@[j].did@) != d by {
        if s.identities@[j].did@ == d {
            assert(has_identity(s, d));
        }
    }
}

// ----- which part of the store a mutation may touch -----

pub open spec fn same_but_things(a: Store, b: Store) -> bool {
    &&& a.channels == b.channels
    &&& a.identifications == b.identifications
    &&& a.identities == b.identities
    &&& a.streams == b.streams
    &&& a.sensor_types == b.sensor_types
    &&& a.sensors == b.sensors
    &&& a.sensor_data == b.sensor_data
    &&& a.configs == b.configs
}

pub open spec fn same_but_channels(a: Store, b: Store) -> bool {
    &&& a.things == b.things
    &&& a.identifications == b.identifications
    &&& a.identities == b.identities
    &&& a.streams == b.streams
    &&& a.sensor_types == b.sensor_types
    &&& a.sensors == b.sensors
    &&& a.sensor_data == b.sensor_data
    &&& a.configs == b.configs
}

pub open spec fn same_but_identifications(a: Store, b: Store) -> bool {
    &&& a.things == b.things
    &&& a.channels == b.channels
    &&& a.identities == b.identities
    &&& a.streams == b.streams
    &&& a.sensor_types == b.sensor_types
    &&& a.sensors == b.sensors
    &&& a.sensor_data == b.sensor_data
    &&& a.configs == b.configs
}

pub open spec fn same_but_identities(a: Store, b: Store) -> bool {
    &&& a.things == b.things
    &&& a.channels == b.channels
    &&& a.identifications == b.identifications
    &&& a.streams == b.streams
    &&& a.sensor_types == b.sensor_types
    &&& a.sensors == b.sensors
    &&& a.sensor_data == b.sensor_data
    &&& a.configs == b.configs
}

pub open spec fn same_but_streams(a: Store, b: Store) -> bool {
    &&& a.things == b.things
    &&& a.channels == b.channels
    &&& a.identifications == b.identifications
    &&& a.identities == b.identities
    &&& a.sensor_types == b.sensor_types
    &&& a.sensors == b.sensors
    &&& a.sensor_data == b.sensor_data
    &&& a.configs == b.configs
}

pub open spec fn same_but_sensor_types(a: Store, b: Store) -> bool {
    &&& a.things == b.things
    &&& a.channels == b.channels
    &&& a.identifications == b.identifications
    &&& a.identities == b.identities
    &&& a.streams == b.streams
    &&& a.sensors == b.sensors
    &&& a.sensor_data == b.sensor_data
    &&& a.configs == b.configs
}

pub open spec fn same_but_sensors(a: Store, b: Store) -> bool {
    &&& a.things == b.things
    &&& a.channels == b.channels
    &&& a.identifications == b.identifications
    &&& a.identities == b.identities
    &&& a.streams == b.streams
    &&& a.sensor_types == b.sensor_types
    &&& a.sensor_data == b.sensor_data
    &&& a.configs == b.configs
}

pub open spec fn same_but_sensor_data(a: Store, b: Store) -> bool {
    &&& a.things == b.things
    &&& a.channels == b.channels
    &&& a.identifications == b.identifications
    &&& a.identities == b.identities
    &&& a.streams == b.streams
    &&& a.sensor_types == b.sensor_types
    &&& a.sensors == b.sensors
    &&& a.configs == b.configs
}

pub open spec fn same_but_configs(a: Store, b: Store) -> bool {
    &&& a.things == b.things
    &&& a.channels == b.channels
    &&& a.identifications == b.identifications
    &&& a.identities == b.identities
    &&& a.streams == b.streams
    &&& a.sensor_types == b.sensor_types
    &&& a.sensors == b.sensors
    &&& a.sensor_data == b.sensor_data
}

// ----- things, channels, identification -----

impl Store {
    fn find_thing(&self, key: &Vec<u8>) -> (r: Option<usize>)
        ensures
            match r {
                Some(i) => i < self.things@.len() && self.things@[i as int].thing_key@ == key@,
                None => forall|j: int| 0 <= j < self.things@.len() ==> (#[trigger] self.things@[j].thing_key@) != key@,
            },
    {
        let mut i: usize = 0;
        while i < self.things.len()
            invariant
                i <= self.things@.len(),
                forall|j: int| 0 <= j < i ==> #[trigger] self.things@[j].thing_key@ != key@,
            decreases self.things@.len() - i,
        {
            if bytes_eq(&self.things[i].thing_key, key) {
                return Some(i);
            }
            i = i + 1;
        }
        None
    }

    /// Insert the local device row; refused if a row with this key exists.
    pub fn create_thing(&mut self, thing_key: &Vec<u8>) -> (r: Result<usize, i32>)
        requires
            old(self).wf(),
        ensures
            final(self).wf(),
            same_but_things(*old(self), *final(self)),
            match r {
                Ok(n) => {
                    &&& n == 1
                    &&& !has_thing(*old(self), thing_key@)
                    &&& final(self).things@ == old(self).things@.push(
                        final(self).things@.last(),
                    )
                    &&& final(self).things@.last().thing_key@ == thing_key@
                },
                Err(_) => {
                    &&& *final(self) == *old(self)
                    &&& has_thing(*old(self), thing_key@) || old(self).things@.len() == max_rows()
                },
            },
    {
        if self.things.len() >= 0x7FFF_FFFF {
            return Err(-1);
        }
        match self.find_thing(thing_key) {
            Some(_) => Err(-1),
            None => {
                let id = (self.things.len() + 1) as i32;
                self.things.push(Thing { id, thing_key: copy_bytes(thing_key) });
                proof {
                    let ghost t0 = old(self).things@;
                    let ghost t1 = self.things@;
                    assert forall|a: int, b: int|
                        0 <= a < b < t1.len() implies t1[a].thing_key@ != t1[b].thing_key@ by {
                        assert(t1[a] == t0[a]);
                        if b < t0.len() {
                            assert(t1[b] == t0[b]);
                            assert(t0[a].thing_key@ != t0[b].thing_key@);
                        } else {
                            assert(t1[b].thing_key@ == thing_key@);
                            assert(t0[a].thing_key@ != thing_key@);
                        }
                    }
                }
                Ok(1)
            },
        }
    }

    /// The device row with this key; owed exactly when one exists.
    pub fn select_thing(&self, thing_key: &Vec<u8>) -> (r: Result<&Thing, i32>)
        ensures
            match r {
                Ok(t) => exists|i: int|
                    0 <= i < self.things@.len() && *t == #[trigger] self.things@[i]
                        && self.things@[i].thing_key@ == thing_key@,
                Err(_) => !has_thing(*self, thing_key@),
            },
    {
        match self.find_thing(thing_key) {
            Some(i) => Ok(&self.things[i]),
            None => Err(-1),
        }
    }

    fn find_channel(&self, key: &Vec<u8>) -> (r: Option<usize>)
        ensures
            match r {
                Some(i) => i < self.channels@.len() && self.channels@[i as int].channel_key@
                    == key@,
                None => forall|j: int| 0 <= j < self.channels@.len() ==> (#[trigger] self.channels@[j].channel_key@) != key@,
            },
    {
        let mut i: usize = 0;
        while i < self.channels.len()
            invariant
                i <= self.channels@.len(),
                forall|j: int| 0 <= j < i ==> #[trigger] self.channels@[j].channel_key@ != key@,
            decreases self.channels@.len() - i,
        {
            if bytes_eq(&self.channels[i].channel_key, key) {
                return Some(i);
            }
            i = i + 1;
        }
        None
    }

    /// Insert a channel row for this thing; refused if the thing already has
    /// a channel with this key.
    pub fn create_channel(&mut self, thing_id: i32, channel_key: &Vec<u8>) -> (r: Result<
        usize,
        i32,
    >)
        requires
            old(self).wf(),
        ensures
            final(self).wf(),
            same_but_channels(*old(self), *final(self)),
            match r {
                Ok(n) => {
                    &&& n == 1
                    &&& !has_channel(*old(self), channel_key@)
                    &&& final(self).channels@ == old(self).channels@.push(
                        final(self).channels@.last(),
                    )
                    &&& final(self).channels@.last().channel_key@ == channel_key@
                    &&& final(self).channels@.last().thing_id == thing_id
                },
                Err(_) => {
                    &&& *final(self) == *old(self)
                    &&& has_channel(*old(self), channel_key@) || old(self).channels@.len()
                        == max_rows()
                },
            },
    {
        if self.channels.len() >= 0x7FFF_FFFF {
            return Err(-1);
        }
        match self.find_channel(channel_key) {
            Some(_) => Err(-1),
            None => {
                let id = (self.channels.len() + 1) as i32;
                self.channels.push(
                    Channel { id, thing_id, channel_key: copy_bytes(channel_key) },
                );
                proof {
                    let ghost t0 = old(self).channels@;
                    let ghost t1 = self.channels@;
                    assert forall|a: int, b: int|
                        0 <= a < b < t1.len() implies !(t1[a].channel_key@ == t1[b].channel_key@ && t1[a].thing_id == t1[b].thing_id) by {
                        assert(t1[a] == t0[a]);
                        if b < t0.len() {
                            assert(t1[b] == t0[b]);
                            assert(!(t0[a].channel_key@ == t0[b].channel_key@ && t0[a].thing_id == t0[b].thing_id));
                        } else {
                            assert(t1[b].channel_key@ == channel_key@);
                            assert(t0[a].channel_key@ != channel_key@);
                        }
                    }
                }
                Ok(1)
            },
        }
    }

    /// The channel row with this key; owed exactly when one exists.
    pub fn select_channel(&self, channel_key: &Vec<u8>) -> (r: Result<&Channel, i32>)
        ensures
            match r {
                Ok(c) => exists|i: int|
                    0 <= i < self.channels@.len() && *c == #[trigger] self.channels@[i]
                        && self.channels@[i].channel_key@ == channel_key@,
                Err(_) => !has_channel(*self, channel_key@),
            },
    {
        match self.find_channel(channel_key) {
            Some(i) => Ok(&self.channels[i]),
            None => Err(-1),
        }
    }

    fn find_identification(&self, thing_id: i32) -> (r: Option<usize>)
        ensures
            match r {
                Some(i) => i < self.identifications@.len()
                    && self.identifications@[i as int].thing_id == thing_id,
                None => forall|j: int| 0 <= j < self.identifications@.len() ==> (#[trigger] self.identifications@[j].thing_id) != thing_id,
            },
    {
        let mut i: usize = 0;
        while i < self.identifications.len()
            invariant
                i <= self.identifications@.len(),
                forall|j: int|
                    0 <= j < i ==> #[trigger] self.identifications@[j].thing_id != thing_id,
            decreases self.identifications@.len() - i,
        {
            if self.identifications[i].thing_id == thing_id {
                return Some(i);
            }
            i = i + 1;
        }
        None
    }

    /// Record the local thing's own identifier and credential; refused if the
    /// thing already has one (at most one identification per thing).
    pub fn create_identification(&mut self, thing_id: i32, did: &Vec<u8>, vc: &Vec<u8>) -> (r:
        Result<usize, i32>)
        requires
            old(self).wf(),
        ensures
            final(self).wf(),
            same_but_identifications(*old(self), *final(self)),
            match r {
                Ok(n) => {
                    &&& n == 1
                    &&& !has_identification(*old(self), thing_id)
                    &&& final(self).identifications@ == old(self).identifications@.push(
                        final(self).identifications@.last(),
                    )
                    &&& final(self).identifications@.last().thing_id == thing_id
                    &&& final(self).identifications@.last().did@ == did@
                    &&& final(self).identifications@.last().vc@ == vc@
                },
                Err(_) => {
                    &&& *final(self) == *old(self)
                    &&& has_identification(*old(self), thing_id)
                        || old(self).identifications@.len() == max_rows()
                },
            },
    {
        if self.identifications.len() >= 0x7FFF_FFFF {
            return Err(-1);
        }
        match self.find_identification(thing_id) {
            Some(_) => Err(-1),
            None => {
                let id = (self.identifications.len() + 1) as i32;
                self.identifications.push(
                    Identification { id, thing_id, did: copy_bytes(did), vc: copy_bytes(vc) },
                );
                proof {
                    let ghost t0 = old(self).identifications@;
                    let ghost t1 = self.identifications@;
                    assert forall|a: int, b: int|
                        0 <= a < b < t1.len() implies t1[a].thing_id != t1[b].thing_id by {
                        assert(t1[a] == t0[a]);
                        if b < t0.len() {
                            assert(t1[b] == t0[b]);
                            assert(t0[a].thing_id != t0[b].thing_id);
                        } else {
                            assert(t1[b].thing_id == thing_id);
                            assert(t0[a].thing_id != thing_id);
                        }
                    }
                }
                Ok(1)
            },
        }
    }

    /// The local identification for this thing; owed exactly when one exists.
    pub fn select_identification(&self, thing_id: i32) -> (r: Result<&Identification, i32>)
        ensures
            match r {
                Ok(x) => exists|i: int|
                    0 <= i < self.identifications@.len() && *x
                        == #[trigger] self.identifications@[i] && self.identifications@[i].thing_id
                        == thing_id,
                Err(_) => !has_identification(*self, thing_id),
            },
    {
        match self.find_identification(thing_id) {
            Some(i) => Ok(&self.identifications[i]),
            None => Err(-1),
        }
    }
}

/// Only the sensor catalog and the readings may differ.
pub open spec fn same_but_sensor_tables(a: Store, b: Store) -> bool {
    &&& a.things == b.things
    &&& a.channels == b.channels
    &&& a.identifications == b.identifications
    &&& a.identities == b.identities
    &&& a.streams == b.streams
    &&& a.configs == b.configs
}

// ----- peer identities: the verification lattice -----

/// One step of a peer record: the identifier never changes, `verified` and
/// `subscribed` only ever rise, `unverifiable` only ever rises, and once a
/// peer is unverifiable its `verified` flag is frozen.
pub open spec fn identity_evolves(a: Identity, b: Identity) -> bool {
    &&& b.id == a.id
    &&& b.did@ == a.did@
    &&& (a.verified ==> b.verified)
    &&& (a.subscribed ==> b.subscribed)
    &&& (a.unverifiable ==> b.unverifiable)
    &&& (a.unverifiable ==> b.verified == a.verified)
}

/// Peer rows are never deleted, and every existing row takes lattice steps
/// only.
pub open spec fn identities_evolve(a: Store, b: Store) -> bool {
    &&& a.identities@.len() <= b.identities@.len()
    &&& forall|i: int|
        0 <= i < a.identities@.len() ==> identity_evolves(
            #[trigger] a.identities@[i],
            #[trigger] b.identities@[i],
        )
}

impl Store {
    fn find_identity(&self, did: &Vec<u8>) -> (r: Option<usize>)
        ensures
            match r {
                Some(i) => i < self.identities@.len() && self.identities@[i as int].did@ == did@,
                None => forall|j: int| 0 <= j < self.identities@.len() ==> (#[trigger] self.identities@[j].did@) != did@,
            },
    {
        let mut i: usize = 0;
        while i < self.identities.len()
            invariant
                i <= self.identities@.len(),
                forall|j: int| 0 <= j < i ==> #[trigger] self.identities@[j].did@ != did@,
            decreases self.identities@.len() - i,
        {
            if bytes_eq(&self.identities[i].did, did) {
                return Some(i);
            }
            i = i + 1;
        }
        None
    }

    /// Record a first-seen peer; refused if the identifier is already known.
    pub fn create_identity(&mut self, did: &Vec<u8>, verified: bool) -> (r: Result<usize, i32>)
        requires
            old(self).wf(),
        ensures
            final(self).wf(),
            same_but_identities(*old(self), *final(self)),
            identities_evolve(*old(self), *final(self)),
            match r {
                Ok(n) => {
                    &&& n == 1
                    &&& !has_identity(*old(self), did@)
                    &&& final(self).identities@ == old(self).identities@.push(
                        final(self).identities@.last(),
                    )
                    &&& final(self).identities@.last().did@ == did@
                    &&& final(self).identities@.last().verified == verified
                    &&& final(self).identities@.last().unverifiable == false
                    &&& final(self).identities@.last().subscribed == false
                },
                Err(_) => {
                    &&& *final(self) == *old(self)
                    &&& has_identity(*old(self), did@) || old(self).identities@.len() == max_rows()
                },
            },
    {
        if self.identities.len() >= 0x7FFF_FFFF {
            return Err(-1);
        }
        match self.find_identity(did) {
            Some(_) => Err(-1),
            None => {
                let id = (self.identities.len() + 1) as i32;
                self.identities.push(
                    Identity {
                        id,
                        did: copy_bytes(did),
                        verified,
                        unverifiable: false,
                        subscribed: false,
                    },
                );
                proof {
                    let ghost t0 = old(self).identities@;
                    let ghost t1 = self.identities@;
                    assert forall|a: int, b: int|
                        0 <= a < b < t1.len() implies t1[a].did@ != t1[b].did@ by {
                        assert(t1[a] == t0[a]);
                        if b < t0.len() {
                            assert(t1[b] == t0[b]);
                            assert(t0[a].did@ != t0[b].did@);
                        } else {
                            assert(t1[b].did@ == did@);
                            assert(t0[a].did@ != did@);
                        }
                    }
                }
                Ok(1)
            },
        }
    }

    /// The peer row for this identifier; owed exactly when one exists.
    pub fn select_identity(&self, did: &Vec<u8>) -> (r: Result<&Identity, i32>)
        ensures
            match r {
                Ok(x) => exists|i: int|
                    0 <= i < self.identities@.len() && *x == #[trigger] self.identities@[i]
                        && self.identities@[i].did@ == did@,
                Err(_) => !has_identity(*self, did@),
            },
    {
        match self.find_identity(did) {
            Some(i) => Ok(&self.identities[i]),
            None => Err(-1),
        }
    }

    /// The positions of all peers whose `verified` flag has this value, in
    /// table order and completely.
    pub fn select_identities(&self, is_verified: bool) -> (r: Vec<usize>)
        ensures
            forall|k: int|
                0 <= k < r@.len() ==> #[trigger] r@[k] < self.identities@.len()
                    && self.identities@[r@[k] as int].verified == is_verified,
            forall|k1: int, k2: int| 0 <= k1 < k2 < r@.len() ==> r@[k1] < r@[k2],
            forall|j: int|
                0 <= j < self.identities@.len() && #[trigger] self.identities@[j].verified
                    == is_verified ==> exists|k: int| 0 <= k < r@.len() && #[trigger] r@[k] == j,
    {
        let mut r: Vec<usize> = Vec::new();
        let mut i: usize = 0;
        while i < self.identities.len()
            invariant
                i <= self.identities@.len(),
                forall|k: int|
                    0 <= k < r@.len() ==> #[trigger] r@[k] < i
                        && self.identities@[r@[k] as int].verified == is_verified,
                forall|k1: int, k2: int| 0 <= k1 < k2 < r@.len() ==> r@[k1] < r@[k2],
                forall|j: int|
                    0 <= j < i && #[trigger] self.identities@[j].verified == is_verified ==> exists|
                        k: int,
                    | 0 <= k < r@.len() && #[trigger] r@[k] == j,
            decreases self.identities@.len() - i,
        {
            let ghost r0 = r@;
            if self.identities[i].verified == is_verified {
                r.push(i);
            }
            proof {
                assert forall|j: int|
                    0 <= j < i + 1 && #[trigger] self.identities@[j].verified
                        == is_verified implies exists|k: int|
                    0 <= k < r@.len() && #[trigger] r@[k] == j by {
                    if j < i as int {
                        let k0 = choose|k: int| 0 <= k < r0.len() && #[trigger] r0[k] == j;
                        assert(r@[k0] == r0[k0]);
                    } else {
                        assert(r@[r@.len() - 1] == i);
                    }
                }
            }
            i = i + 1;
        }
        r
    }

    /// Raise a peer's `verified` flag after a successful proof; a peer
    /// already marked unverifiable is left as it is.
    pub fn update_identity(&mut self, did: &Vec<u8>, verification: bool) -> (r: Result<i32, i32>)
        requires
            old(self).wf(),
        ensures
            final(self).wf(),
            same_but_identities(*old(self), *final(self)),
            identities_evolve(*old(self), *final(self)),
            match r {
                Ok(n) => n == 1 && exists|i: int|
                    {
                        &&& 0 <= i < old(self).identities@.len()
                        &&& (#[trigger] old(self).identities@[i]).did@ == did@
                        &&& final(self).identities@ == old(self).identities@.update(
                            i,
                            final(self).identities@[i],
                        )
                        &&& final(self).identities@[i].verified == (old(
                            self,
                        ).identities@[i].verified || (verification && !old(
                            self,
                        ).identities@[i].unverifiable))
                        &&& final(self).identities@[i].unverifiable == old(
                            self,
                        ).identities@[i].unverifiable
                        &&& final(self).identities@[i].subscribed == old(
                            self,
                        ).identities@[i].subscribed
                        &&& final(self).identities@[i].did == old(self).identities@[i].did
                        &&& final(self).identities@[i].id == old(self).identities@[i].id
                    },
                Err(_) => *final(self) == *old(self) && !has_identity(*old(self), did@),
            },
    {
        match self.find_identity(did) {
            None => Err(-1),
            Some(i) => {
                let mut row = self.identities.remove(i);
                row.verified = row.verified || (verification && !row.unverifiable);
                self.identities.insert(i, row);
                proof {
                    assert(self.identities@ =~= old(self).identities@.update(
                        i as int,
                        self.identities@[i as int],
                    ));
                }
                Ok(1)
            },
        }
    }

    /// Mark a peer unverifiable after repeated failures; a peer already
    /// verified is left as it is (the transition exists only out of the
    /// unknown state).
    pub fn update_identity_to_unverifiable(&mut self, did: &Vec<u8>, is_unverifiable: bool) -> (r:
        Result<i32, i32>)
        requires
            old(self).wf(),
        ensures
            final(self).wf(),
            same_but_identities(*old(self), *final(self)),
            identities_evolve(*old(self), *final(self)),
            match r {
                Ok(n) => n == 1 && exists|i: int|
                    {
                        &&& 0 <= i < old(self).identities@.len()
                        &&& (#[trigger] old(self).identities@[i]).did@ == did@
                        &&& final(self).identities@ == old(self).identities@.update(
                            i,
                            final(self).identities@[i],
                        )
                        &&& final(self).identities@[i].unverifiable == (old(
                            self,
                        ).identities@[i].unverifiable || (is_unverifiable && !old(
                            self,
                        ).identities@[i].verified))
                        &&& final(self).identities@[i].verified == old(
                            self,
                        ).identities@[i].verified
                        &&& final(self).identities@[i].subscribed == old(
                            self,
                        ).identities@[i].subscribed
                        &&& final(self).identities@[i].did == old(self).identities@[i].did
                        &&& final(self).identities@[i].id == old(self).identities@[i].id
                    },
                Err(_) => *final(self) == *old(self) && !has_identity(*old(self), did@),
            },
    {
        match self.find_identity(did) {
            None => Err(-1),
            Some(i) => {
                let mut row = self.identities.remove(i);
                row.unverifiable = row.unverifiable || (is_unverifiable && !row.verified);
                self.identities.insert(i, row);
                proof {
                    assert(self.identities@ =~= old(self).identities@.update(
                        i as int,
                        self.identities@[i as int],
                    ));
                }
                Ok(1)
            },
        }
    }

    /// Mark a verified peer as admitted to the stream; a peer not yet
    /// verified is left as it is (`subscribed` is reached from `verified`
    /// only).
    pub fn update_identity_to_subscribed(&mut self, did: &Vec<u8>, is_subscribed: bool) -> (r:
        Result<i32, i32>)
        requires
            old(self).wf(),
        ensures
            final(self).wf(),
            same_but_identities(*old(self), *final(self)),
            identities_evolve(*old(self), *final(self)),
            match r {
                Ok(n) => n == 1 && exists|i: int|
                    {
                        &&& 0 <= i < old(self).identities@.len()
                        &&& (#[trigger] old(self).identities@[i]).did@ == did@
                        &&& final(self).identities@ == old(self).identities@.update(
                            i,
                            final(self).identities@[i],
                        )
                        &&& final(self).identities@[i].subscribed == (old(
                            self,
                        ).identities@[i].subscribed || (is_subscribed && old(
                            self,
                        ).identities@[i].verified))
                        &&& final(self).identities@[i].verified == old(
                            self,
                        ).identities@[i].verified
                        &&& final(self).identities@[i].unverifiable == old(
                            self,
                        ).identities@[i].unverifiable
                        &&& final(self).identities@[i].did == old(self).identities@[i].did
                        &&& final(self).identities@[i].id == old(self).identities@[i].id
                    },
                Err(_) => *final(self) == *old(self) && !has_identity(*old(self), did@),
            },
    {
        match self.find_identity(did) {
            None => Err(-1),
            Some(i) => {
                let mut row = self.identities.remove(i);
                row.subscribed = row.subscribed || (is_subscribed && row.verified);
                self.identities.insert(i, row);
                proof {
                    assert(self.identities@ =~= old(self).identities@.update(
                        i as int,
                        self.identities@[i as int],
                    ));
                }
                Ok(1)
            },
        }
    }
}

// ----- ledger stream link state -----

/// Which link of a stream row an update writes.
#[derive(Clone, Copy, PartialEq, Eq, Structural, Debug)]
pub enum StreamField {
    Announcement,
    Subscription,
    Keyload,
    MsgLink,
    NumSubs,
}

/// One update step of a stream row: exactly the named field changes.
pub open spec fn stream_step(a: Stream, b: Stream, field: StreamField, link: Seq<u8>, num: i32) -> bool {
    &&& b.id == a.id
    &&& b.channel_id == a.channel_id
    &&& match field {
        StreamField::Announcement => b.ann_link@ == link && b.sub_link == a.sub_link && b.key_link
            == a.key_link && b.msg_link == a.msg_link && b.num_subs == a.num_subs,
        StreamField::Subscription => b.sub_link@ == link && b.ann_link == a.ann_link && b.key_link
            == a.key_link && b.msg_link == a.msg_link && b.num_subs == a.num_subs,
        StreamField::Keyload => b.key_link@ == link && b.ann_link == a.ann_link && b.sub_link
            == a.sub_link && b.msg_link == a.msg_link && b.num_subs == a.num_subs,
        StreamField::MsgLink => b.msg_link@ == link && b.ann_link == a.ann_link && b.sub_link
            == a.sub_link && b.key_link == a.key_link && b.num_subs == a.num_subs,
        StreamField::NumSubs => b.num_subs == num && b.ann_link == a.ann_link && b.sub_link
            == a.sub_link && b.key_link == a.key_link && b.msg_link == a.msg_link,
    }
}

impl Store {
    fn find_stream(&self, channel_id: i32) -> (r: Option<usize>)
        ensures
            match r {
                Some(i) => i < self.streams@.len() && self.streams@[i as int].channel_id
                    == channel_id,
                None => forall|j: int| 0 <= j < self.streams@.len() ==> (#[trigger] self.streams@[j].channel_id) != channel_id,
            },
    {
        let mut i: usize = 0;
        while i < self.streams.len()
            invariant
                i <= self.streams@.len(),
                forall|j: int| 0 <= j < i ==> #[trigger] self.streams@[j].channel_id != channel_id,
            decreases self.streams@.len() - i,
        {
            if self.streams[i].channel_id == channel_id {
                return Some(i);
            }
            i = i + 1;
        }
        None
    }

    /// Insert the link state of a channel's stream, with no subscribers yet;
    /// refused if the channel already has one.
    pub fn create_stream(&mut self, entry: StreamsEntry) -> (r: Result<usize, i32>)
        requires
            old(self).wf(),
        ensures
            final(self).wf(),
            same_but_streams(*old(self), *final(self)),
            match r {
                Ok(n) => {
                    &&& n == 1
                    &&& !has_stream(*old(self), entry.channel_id)
                    &&& final(self).streams@ == old(self).streams@.push(
                        final(self).streams@.last(),
                    )
                    &&& final(self).streams@.last().channel_id == entry.channel_id
                    &&& final(self).streams@.last().ann_link@ == entry.ann_link@
                    &&& final(self).streams@.last().sub_link@ == entry.sub_link@
                    &&& final(self).streams@.last().key_link@ == entry.key_link@
                    &&& final(self).streams@.last().msg_link@ == entry.msg_link@
                    &&& final(self).streams@.last().num_subs == 0
                },
                Err(_) => {
                    &&& *final(self) == *old(self)
                    &&& has_stream(*old(self), entry.channel_id) || old(self).streams@.len()
                        == max_rows()
                },
            },
    {
        if self.streams.len() >= 0x7FFF_FFFF {
            return Err(-1);
        }
        match self.find_stream(entry.channel_id) {
            Some(_) => Err(-1),
            None => {
                let id = (self.streams.len() + 1) as i32;
                self.streams.push(
                    Stream {
                        id,
                        channel_id: entry.channel_id,
                        ann_link: entry.ann_link,
                        sub_link: entry.sub_link,
                        key_link: entry.key_link,
                        msg_link: entry.msg_link,
                        num_subs: 0,
                    },
                );
                proof {
                    let ghost t0 = old(self).streams@;
                    let ghost t1 = self.streams@;
                    assert forall|a: int, b: int|
                        0 <= a < b < t1.len() implies t1[a].channel_id != t1[b].channel_id by {
                        assert(t1[a] == t0[a]);
                        if b < t0.len() {
                            assert(t1[b] == t0[b]);
                            assert(t0[a].channel_id != t0[b].channel_id);
                        } else {
                            assert(t1[b].channel_id == entry.channel_id);
                            assert(t0[a].channel_id != entry.channel_id);
                        }
                    }
                }
                Ok(1)
            },
        }
    }

    /// The stream row of this channel; owed exactly when one exists.
    pub fn select_stream(&self, channel_id: i32) -> (r: Result<&Stream, i32>)
        ensures
            match r {
                Ok(x) => exists|i: int|
                    0 <= i < self.streams@.len() && *x == #[trigger] self.streams@[i]
                        && self.streams@[i].channel_id == channel_id,
                Err(_) => !has_stream(*self, channel_id),
            },
    {
        match self.find_stream(channel_id) {
            Some(i) => Ok(&self.streams[i]),
            None => Err(-1),
        }
    }

    /// Write one link (or the subscriber count) of a channel's stream row.
    pub fn update_stream(
        &mut self,
        channel_id: i32,
        field: StreamField,
        link: &Vec<u8>,
        num_subscribers: i32,
    ) -> (r: Result<i32, i32>)
        requires
            old(self).wf(),
        ensures
            final(self).wf(),
            same_but_streams(*old(self), *final(self)),
            match r {
                Ok(n) => n == 1 && exists|i: int|
                    {
                        &&& 0 <= i < old(self).streams@.len()
                        &&& (#[trigger] old(self).streams@[i]).channel_id == channel_id
                        &&& final(self).streams@ == old(self).streams@.update(
                            i,
                            final(self).streams@[i],
                        )
                        &&& stream_step(
                            old(self).streams@[i],
                            final(self).streams@[i],
                            field,
                            link@,
                            num_subscribers,
                        )
                    },
                Err(_) => {
                    &&& *final(self) == *old(self)
                    &&& !has_stream(*old(self), channel_id) || (field is NumSubs
                        && num_subscribers < 0)
                },
            },
    {
        if matches!(field, StreamField::NumSubs) && num_subscribers < 0 {
            return Err(-1);
        }
        match self.find_stream(channel_id) {
            None => Err(-1),
            Some(i) => {
                let mut row = self.streams.remove(i);
                match field {
                    StreamField::Announcement => {
                        row.ann_link = copy_bytes(link);
                    },
                    StreamField::Subscription => {
                        row.sub_link = copy_bytes(link);
                    },
                    StreamField::Keyload => {
                        row.key_link = copy_bytes(link);
                    },
                    StreamField::MsgLink => {
                        row.msg_link = copy_bytes(link);
                    },
                    StreamField::NumSubs => {
                        row.num_subs = num_subscribers;
                    },
                }
                self.streams.insert(i, row);
                proof {
                    assert(self.streams@ =~= old(self).streams@.update(
                        i as int,
                        self.streams@[i as int],
                    ));
                }
                Ok(1)
            },
        }
    }
}

// ----- sensor catalog and readings -----

/// Which provenance flag of a reading an update writes.
#[derive(Clone, Copy, PartialEq, Eq, Structural, Debug)]
pub enum SensorFlag {
    Mqtt,
    Iota,
    Verified,
}

/// One update step of a reading: exactly the named flag changes.
pub open spec fn reading_step(a: SensorData, b: SensorData, flag: SensorFlag, v: bool) -> bool {
    &&& b.id == a.id
    &&& b.sensor_id == a.sensor_id
    &&& b.sensor_value == a.sensor_value
    &&& b.sensor_time == a.sensor_time
    &&& match flag {
        SensorFlag::Mqtt => b.mqtt == v && b.iota == a.iota && b.verified == a.verified,
        SensorFlag::Iota => b.iota == v && b.mqtt == a.mqtt && b.verified == a.verified,
        SensorFlag::Verified => b.verified == v && b.mqtt == a.mqtt && b.iota == a.iota,
    }
}

/// A reading of this sensor may be anchored on the ledger only while the
/// sensor's channel has a non-empty keyload link.
pub open spec fn iota_permitted(s: Store, data_sensor_id: i32) -> bool {
    exists|i: int, j: int|
        {
            &&& 0 <= i < s.sensors@.len()
            &&& 0 <= j < s.streams@.len()
            &&& (#[trigger] s.sensors@[i]).id == data_sensor_id
            &&& (#[trigger] s.streams@[j]).channel_id == s.sensors@[i].channel_id
            &&& s.streams@[j].key_link@.len() > 0
        }
}

impl Store {
    fn find_sensor_type(&self, description: &Vec<u8>) -> (r: Option<usize>)
        ensures
            match r {
                Some(i) => i < self.sensor_types@.len()
                    && self.sensor_types@[i as int].description@ == description@,
                None => forall|j: int| 0 <= j < self.sensor_types@.len() ==> (#[trigger] self.sensor_types@[j].description@) != description@,
            },
    {
        let mut i: usize = 0;
        while i < self.sensor_types.len()
            invariant
                i <= self.sensor_types@.len(),
                forall|j: int|
                    0 <= j < i ==> #[trigger] self.sensor_types@[j].description@ != description@,
            decreases self.sensor_types@.len() - i,
        {
            if bytes_eq(&self.sensor_types[i].description, description) {
                return Some(i);
            }
            i = i + 1;
        }
        None
    }

    /// Insert a sensor type; refused if the description is already catalogued
    /// (types are unique on their description).
    pub fn create_sensor_type(&mut self, description: &Vec<u8>, unit: &Vec<u8>) -> (r: Result<
        usize,
        i32,
    >)
        requires
            old(self).wf(),
        ensures
            final(self).wf(),
            same_but_sensor_types(*old(self), *final(self)),
            match r {
                Ok(n) => {
                    &&& n == 1
                    &&& !has_sensor_type(*old(self), description@)
                    &&& final(self).sensor_types@ == old(self).sensor_types@.push(
                        final(self).sensor_types@.last(),
                    )
                    &&& final(self).sensor_types@.last().description@ == description@
                    &&& final(self).sensor_types@.last().unit@ == unit@
                },
                Err(_) => {
                    &&& *final(self) == *old(self)
                    &&& has_sensor_type(*old(self), description@) || old(
                        self,
                    ).sensor_types@.len() == max_rows()
                },
            },
    {
        if self.sensor_types.len() >= 0x7FFF_FFFF {
            return Err(-1);
        }
        match self.find_sensor_type(description) {
            Some(_) => Err(-1),
            None => {
                let id = (self.sensor_types.len() + 1) as i32;
                self.sensor_types.push(
                    SensorType { id, description: copy_bytes(description), unit: copy_bytes(unit) },
                );
                proof {
                    let ghost t0 = old(self).sensor_types@;
                    let ghost t1 = self.sensor_types@;
                    assert forall|a: int, b: int|
                        0 <= a < b < t1.len() implies t1[a].description@ != t1[b].description@ by {
                        assert(t1[a] == t0[a]);
                        if b < t0.len() {
                            assert(t1[b] == t0[b]);
                            assert(t0[a].description@ != t0[b].description@);
                        } else {
                            assert(t1[b].description@ == description@);
                            assert(t0[a].description@ != description@);
                        }
                    }
                }
                Ok(1)
            },
        }
    }

    /// The sensor type with this description; owed exactly when one exists.
    pub fn select_sensor_type_by_desc(&self, descr: &Vec<u8>) -> (r: Result<&SensorType, i32>)
        ensures
            match r {
                Ok(x) => exists|i: int|
                    0 <= i < self.sensor_types@.len() && *x == #[trigger] self.sensor_types@[i]
                        && self.sensor_types@[i].description@ == descr@,
                Err(_) => !has_sensor_type(*self, descr@),
            },
    {
        match self.find_sensor_type(descr) {
            Some(i) => Ok(&self.sensor_types[i]),
            None => Err(-1),
        }
    }

    /// The sensor type with this id; owed exactly when the id is assigned.
    pub fn select_sensor_type_by_id(&self, identifier: i32) -> (r: Result<&SensorType, i32>)
        requires
            self.wf(),
        ensures
            match r {
                Ok(x) => 1 <= identifier <= self.sensor_types@.len() && *x
                    == self.sensor_types@[identifier - 1],
                Err(_) => !(1 <= identifier <= self.sensor_types@.len()),
            },
    {
        if identifier >= 1 && (identifier as usize) <= self.sensor_types.len() {
            Ok(&self.sensor_types[(identifier - 1) as usize])
        } else {
            Err(-1)
        }
    }

    fn find_sensor(&self, sensor_key: &Vec<u8>) -> (r: Option<usize>)
        ensures
            match r {
                Some(i) => i < self.sensors@.len() && self.sensors@[i as int].sensor_id@
                    == sensor_key@,
                None => forall|j: int| 0 <= j < self.sensors@.len() ==> (#[trigger] self.sensors@[j].sensor_id@) != sensor_key@,
            },
    {
        let mut i: usize = 0;
        while i < self.sensors.len()
            invariant
                i <= self.sensors@.len(),
                forall|j: int| 0 <= j < i ==> #[trigger] self.sensors@[j].sensor_id@ != sensor_key@,
            decreases self.sensors@.len() - i,
        {
            if bytes_eq(&self.sensors[i].sensor_id, sensor_key) {
                return Some(i);
            }
            i = i + 1;
        }
        None
    }

    /// Catalogue a sensor; refused if its external key is already known.
    pub fn create_sensor(&mut self, entry: SensorEntry) -> (r: Result<usize, i32>)
        requires
            old(self).wf(),
        ensures
            final(self).wf(),
            same_but_sensors(*old(self), *final(self)),
            match r {
                Ok(n) => {
                    &&& n == 1
                    &&& !has_sensor(*old(self), entry.sensor_id@)
                    &&& final(self).sensors@ == old(self).sensors@.push(
                        final(self).sensors@.last(),
                    )
                    &&& final(self).sensors@.last().sensor_id@ == entry.sensor_id@
                    &&& final(self).sensors@.last().sensor_name@ == entry.sensor_name@
                    &&& final(self).sensors@.last().channel_id == entry.channel_id
                    &&& final(self).sensors@.last().sensor_types_id == entry.sensor_types_id
                },
                Err(_) => {
                    &&& *final(self) == *old(self)
                    &&& has_sensor(*old(self), entry.sensor_id@) || old(self).sensors@.len()
                        == max_rows()
                },
            },
    {
        if self.sensors.len() >= 0x7FFF_FFFF {
            return Err(-1);
        }
        match self.find_sensor(&entry.sensor_id) {
            Some(_) => Err(-1),
            None => {
                let id = (self.sensors.len() + 1) as i32;
                self.sensors.push(
                    Sensor {
                        id,
                        channel_id: entry.channel_id,
                        sensor_types_id: entry.sensor_types_id,
                        sensor_id: entry.sensor_id,
                        sensor_name: entry.sensor_name,
                    },
                );
                proof {
                    let ghost t0 = old(self).sensors@;
                    let ghost t1 = self.sensors@;
                    assert forall|a: int, b: int|
                        0 <= a < b < t1.len() implies t1[a].sensor_id@ != t1[b].sensor_id@ by {
                        assert(t1[a] == t0[a]);
                        if b < t0.len() {
                            assert(t1[b] == t0[b]);
                            assert(t0[a].sensor_id@ != t0[b].sensor_id@);
                        } else {
                            assert(t1[b].sensor_id@ == entry.sensor_id@);
                            assert(t0[a].sensor_id@ != entry.sensor_id@);
                        }
                    }
                }
                Ok(1)
            },
        }
    }

    /// The sensor with this table id; owed exactly when the id is assigned.
    pub fn select_sensor(&self, sensor_identifier: i32) -> (r: Result<&Sensor, i32>)
        requires
            self.wf(),
        ensures
            match r {
                Ok(x) => 1 <= sensor_identifier <= self.sensors@.len() && *x
                    == self.sensors@[sensor_identifier - 1],
                Err(_) => !(1 <= sensor_identifier <= self.sensors@.len()),
            },
    {
        if sensor_identifier >= 1 && (sensor_identifier as usize) <= self.sensors.len() {
            Ok(&self.sensors[(sensor_identifier - 1) as usize])
        } else {
            Err(-1)
        }
    }

    /// The sensor with this external key; owed exactly when one exists.
    pub fn select_sensor_by_name(&self, sensor_identifier: &Vec<u8>) -> (r: Result<&Sensor, i32>)
        ensures
            match r {
                Ok(x) => exists|i: int|
                    0 <= i < self.sensors@.len() && *x == #[trigger] self.sensors@[i]
                        && self.sensors@[i].sensor_id@ == sensor_identifier@,
                Err(_) => !has_sensor(*self, sensor_identifier@),
            },
    {
        match self.find_sensor(sensor_identifier) {
            Some(i) => Ok(&self.sensors[i]),
            None => Err(-1),
        }
    }

    fn find_reading(&self, sensor_id: i32, time: i64) -> (r: Option<usize>)
        ensures
            match r {
                Some(i) => i < self.sensor_data@.len() && self.sensor_data@[i as int].sensor_id
                    == sensor_id && self.sensor_data@[i as int].sensor_time == time,
                None => forall|j: int| 0 <= j < self.sensor_data@.len() ==> !((#[trigger] self.sensor_data@[j].sensor_id) == sensor_id && self.sensor_data@[j].sensor_time == time),
            },
    {
        let mut i: usize = 0;
        while i < self.sensor_data.len()
            invariant
                i <= self.sensor_data@.len(),
                forall|j: int|
                    0 <= j < i ==> !(#[trigger] self.sensor_data@[j].sensor_id == sensor_id
                        && self.sensor_data@[j].sensor_time == time),
            decreases self.sensor_data@.len() - i,
        {
            if self.sensor_data[i].sensor_id == sensor_id && self.sensor_data[i].sensor_time
                == time {
                return Some(i);
            }
            i = i + 1;
        }
        None
    }

    /// The position of the reading for `(sensor_id, time)`; owed exactly when
    /// one exists (the pair is unique).
    pub fn select_sensor_entry_by_time_and_id(&self, sensor_id: i32, timestamp: i64) -> (r: Result<
        usize,
        i32,
    >)
        ensures
            match r {
                Ok(i) => i < self.sensor_data@.len() && self.sensor_data@[i as int].sensor_id
                    == sensor_id && self.sensor_data@[i as int].sensor_time == timestamp,
                Err(_) => !has_reading(*self, sensor_id, timestamp),
            },
    {
        match self.find_reading(sensor_id, timestamp) {
            Some(i) => Ok(i),
            None => Err(-1),
        }
    }

    /// Insert a reading. Refused if a reading for the same
    /// `(sensor_id, sensor_time)` pair exists (readings are never
    /// duplicated), and refused with nothing changed if it claims a ledger
    /// anchoring while the sensor's channel has no keyload link.
    pub fn create_sensor_data(&mut self, entry: SensorDataEntry) -> (r: Result<usize, i32>)
        requires
            old(self).wf(),
        ensures
            final(self).wf(),
            same_but_sensor_data(*old(self), *final(self)),
            match r {
                Ok(n) => {
                    &&& n == 1
                    &&& !has_reading(*old(self), entry.sensor_id, entry.sensor_time)
                    &&& (entry.iota ==> iota_permitted(*old(self), entry.sensor_id))
                    &&& final(self).sensor_data@ == old(self).sensor_data@.push(
                        final(self).sensor_data@.last(),
                    )
                    &&& final(self).sensor_data@.last().sensor_id == entry.sensor_id
                    &&& final(self).sensor_data@.last().sensor_value@ == entry.sensor_value@
                    &&& final(self).sensor_data@.last().sensor_time == entry.sensor_time
                    &&& final(self).sensor_data@.last().mqtt == entry.mqtt
                    &&& final(self).sensor_data@.last().iota == entry.iota
                    &&& final(self).sensor_data@.last().verified == entry.verified
                },
                Err(_) => {
                    &&& *final(self) == *old(self)
                    &&& has_reading(*old(self), entry.sensor_id, entry.sensor_time) || (entry.iota
                        && !iota_permitted(*old(self), entry.sensor_id)) || old(
                        self,
                    ).sensor_data@.len() == max_rows()
                },
            },
    {
        if self.sensor_data.len() >= 0x7FFF_FFFF {
            return Err(-1);
        }
        if entry.iota && !self.check_iota_permitted(entry.sensor_id) {
            return Err(-1);
        }
        match self.find_reading(entry.sensor_id, entry.sensor_time) {
            Some(_) => Err(-1),
            None => {
                let id = (self.sensor_data.len() + 1) as i32;
                self.sensor_data.push(
                    SensorData {
                        id,
                        sensor_id: entry.sensor_id,
                        sensor_value: entry.sensor_value,
                        sensor_time: entry.sensor_time,
                        mqtt: entry.mqtt,
                        iota: entry.iota,
                        verified: entry.verified,
                    },
                );
                proof {
                    let ghost t0 = old(self).sensor_data@;
                    let ghost t1 = self.sensor_data@;
                    assert forall|a: int, b: int|
                        0 <= a < b < t1.len() implies !(t1[a].sensor_id == t1[b].sensor_id && t1[a].sensor_time == t1[b].sensor_time) by {
                        assert(t1[a] == t0[a]);
                        if b < t0.len() {
                            assert(t1[b] == t0[b]);
                            assert(!(t0[a].sensor_id == t0[b].sensor_id && t0[a].sensor_time == t0[b].sensor_time));
                        } else {
                            assert(t1[b].sensor_id == entry.sensor_id && t1[b].sensor_time == entry.sensor_time);
                            assert(!(t0[a].sensor_id == entry.sensor_id && t0[a].sensor_time == entry.sensor_time));
                        }
                    }
                }
                Ok(1)
            },
        }
    }

    /// Whether the ledger gate is open for readings of this sensor.
    pub fn check_iota_permitted(&self, data_sensor_id: i32) -> (r: bool)
        requires
            self.wf(),
        ensures
            r == iota_permitted(*self, data_sensor_id),
    {
        if data_sensor_id >= 1 && (data_sensor_id as usize) <= self.sensors.len() {
            let channel_id = self.sensors[(data_sensor_id - 1) as usize].channel_id;
            match self.find_stream(channel_id) {
                Some(j) => {
                    let open = self.streams[j].key_link.len() > 0;
                    proof {
                        if open {
                            assert(iota_permitted(*self, data_sensor_id)) by {
                                assert(self.sensors@[data_sensor_id - 1].id == data_sensor_id);
                            }
                        } else {
                            assert forall|i: int, j2: int|
                                0 <= i < self.sensors@.len() && 0 <= j2 < self.streams@.len() && (
                                #[trigger] self.sensors@[i]).id == data_sensor_id && (
                                #[trigger] self.streams@[j2]).channel_id
                                    == self.sensors@[i].channel_id implies self.streams@[j2].key_link@.len()
                                == 0 by {
                                assert(i == data_sensor_id - 1);
                                assert(j2 == j);
                            }
                        }
                    }
                    open
                },
                None => {
                    proof {
                        assert forall|i: int, j2: int|
                            0 <= i < self.sensors@.len() && 0 <= j2 < self.streams@.len() && (
                            #[trigger] self.sensors@[i]).id == data_sensor_id implies (
                        #[trigger] self.streams@[j2]).channel_id != self.sensors@[i].channel_id by {
                            assert(i == data_sensor_id - 1);
                        }
                    }
                    false
                },
            }
        } else {
            false
        }
    }

    /// Write one provenance flag of a reading. Setting the ledger flag is
    /// refused while the sensor's channel has no keyload link.
    pub fn update_sensor_entry(&mut self, identifier: i32, flag: SensorFlag, is_true: bool) -> (r:
        Result<i32, i32>)
        requires
            old(self).wf(),
        ensures
            final(self).wf(),
            same_but_sensor_data(*old(self), *final(self)),
            match r {
                Ok(n) => {
                    &&& n == 1
                    &&& 1 <= identifier <= old(self).sensor_data@.len()
                    &&& final(self).sensor_data@ == old(self).sensor_data@.update(
                        identifier - 1,
                        final(self).sensor_data@[identifier - 1],
                    )
                    &&& reading_step(
                        old(self).sensor_data@[identifier - 1],
                        final(self).sensor_data@[identifier - 1],
                        flag,
                        is_true,
                    )
                    &&& (flag is Iota && is_true ==> iota_permitted(
                        *old(self),
                        old(self).sensor_data@[identifier - 1].sensor_id,
                    ))
                },
                Err(_) => {
                    &&& *final(self) == *old(self)
                    &&& !(1 <= identifier <= old(self).sensor_data@.len()) || (flag is Iota
                        && is_true && !iota_permitted(
                        *old(self),
                        old(self).sensor_data@[identifier - 1].sensor_id,
                    ))
                },
            },
    {
        if !(identifier >= 1 && (identifier as usize) <= self.sensor_data.len()) {
            return Err(-1);
        }
        let i = (identifier - 1) as usize;
        if matches!(flag, SensorFlag::Iota) && is_true && !self.check_iota_permitted(
            self.sensor_data[i].sensor_id,
        ) {
            return Err(-1);
        }
        let mut row = self.sensor_data.remove(i);
        match flag {
            SensorFlag::Mqtt => {
                row.mqtt = is_true;
            },
            SensorFlag::Iota => {
                row.iota = is_true;
            },
            SensorFlag::Verified => {
                row.verified = is_true;
            },
        }
        self.sensor_data.insert(i, row);
        proof {
            assert(self.sensor_data@ =~= old(self).sensor_data@.update(
                i as int,
                self.sensor_data@[i as int],
            ));
        }
        Ok(1)
    }
}

// ----- per-thing configuration -----

/// Which fact of a config row an update writes.
#[derive(Clone, Copy, PartialEq, Eq, Structural, Debug)]
pub enum ConfigField {
    Ip,
    PkTimestamp,
}

impl Store {
    fn find_config(&self, thing_id: i32) -> (r: Option<usize>)
        ensures
            match r {
                Some(i) => i < self.configs@.len() && self.configs@[i as int].thing_id == thing_id,
                None => forall|j: int| 0 <= j < self.configs@.len() ==> (#[trigger] self.configs@[j].thing_id) != thing_id,
            },
    {
        let mut i: usize = 0;
        while i < self.configs.len()
            invariant
                i <= self.configs@.len(),
                forall|j: int| 0 <= j < i ==> #[trigger] self.configs@[j].thing_id != thing_id,
            decreases self.configs@.len() - i,
        {
            if self.configs[i].thing_id == thing_id {
                return Some(i);
            }
            i = i + 1;
        }
        None
    }

    /// Insert the runtime facts of a thing; refused if it already has some.
    pub fn create_configuration(&mut self, thing_id: i32, ext_ip: &Vec<u8>, pk_timestamp: i64) -> (r:
        Result<usize, i32>)
        requires
            old(self).wf(),
        ensures
            final(self).wf(),
            same_but_configs(*old(self), *final(self)),
            match r {
                Ok(n) => {
                    &&& n == 1
                    &&& !has_config(*old(self), thing_id)
                    &&& final(self).configs@ == old(self).configs@.push(
                        final(self).configs@.last(),
                    )
                    &&& final(self).configs@.last().thing_id == thing_id
                    &&& final(self).configs@.last().ip@ == ext_ip@
                    &&& final(self).configs@.last().pk_timestamp == pk_timestamp
                },
                Err(_) => {
                    &&& *final(self) == *old(self)
                    &&& has_config(*old(self), thing_id) || old(self).configs@.len() == max_rows()
                },
            },
    {
        if self.configs.len() >= 0x7FFF_FFFF {
            return Err(-1);
        }
        match self.find_config(thing_id) {
            Some(_) => Err(-1),
            None => {
                self.configs.push(
                    Config { thing_id, ip: copy_bytes(ext_ip), pk_timestamp },
                );
                proof {
                    let ghost t0 = old(self).configs@;
                    let ghost t1 = self.configs@;
                    assert forall|a: int, b: int|
                        0 <= a < b < t1.len() implies t1[a].thing_id != t1[b].thing_id by {
                        assert(t1[a] == t0[a]);
                        if b < t0.len() {
                            assert(t1[b] == t0[b]);
                            assert(t0[a].thing_id != t0[b].thing_id);
                        } else {
                            assert(t1[b].thing_id == thing_id);
                            assert(t0[a].thing_id != thing_id);
                        }
                    }
                }
                Ok(1)
            },
        }
    }

    /// Write one runtime fact of a thing's config row.
    pub fn update_configuration(
        &mut self,
        thing_identifier: i32,
        field: ConfigField,
        ext_ip: &Vec<u8>,
        timestamp: i64,
    ) -> (r: Result<i32, i32>)
        requires
            old(self).wf(),
        ensures
            final(self).wf(),
            same_but_configs(*old(self), *final(self)),
            match r {
                Ok(n) => n == 1 && exists|i: int|
                    {
                        &&& 0 <= i < old(self).configs@.len()
                        &&& (#[trigger] old(self).configs@[i]).thing_id == thing_identifier
                        &&& final(self).configs@ == old(self).configs@.update(
                            i,
                            final(self).configs@[i],
                        )
                        &&& final(self).configs@[i].thing_id == thing_identifier
                        &&& match field {
                            ConfigField::Ip => final(self).configs@[i].ip@ == ext_ip@
                                && final(self).configs@[i].pk_timestamp
                                == old(self).configs@[i].pk_timestamp,
                            ConfigField::PkTimestamp => final(self).configs@[i].pk_timestamp
                                == timestamp
                                && final(self).configs@[i].ip == old(self).configs@[i].ip,
                        }
                    },
                Err(_) => *final(self) == *old(self) && !has_config(*old(self), thing_identifier),
            },
    {
        match self.find_config(thing_identifier) {
            None => Err(-1),
            Some(i) => {
                let mut row = self.configs.remove(i);
                match field {
                    ConfigField::Ip => {
                        row.ip = copy_bytes(ext_ip);
                    },
                    ConfigField::PkTimestamp => {
                        row.pk_timestamp = timestamp;
                    },
                }
                self.configs.insert(i, row);
                proof {
                    assert(self.configs@ =~= old(self).configs@.update(
                        i as int,
                        self.configs@[i as int],
                    ));
                }
                Ok(1)
            },
        }
    }
}

} // verus!
