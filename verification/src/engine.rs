//! The reconciliation engine: receive, classify, dispatch, publish,
//! cross-verify.
//!
//! Every function here is a state transition over the index and the engine's
//! transient bookkeeping. Outside work (RPC gateways, the broker) is never
//! performed here: a handler returns an [`Action`] naming the call to make,
//! and the result of that call is handed back to an `apply_*` function.
//! Messages whose embedded identifier is the node's own are dropped with no
//! persistent mutation.

use vstd::prelude::*;

use crate::codec::{
    spec_dec_command, spec_dec_did, spec_dec_sensor, spec_dec_setting, spec_dec_streams, Command,
    Did, DidModel, Sensor as SensorMsg, SensorModel, Setting, SettingModel, Streams, StreamsModel,
};
use crate::topics::Topic;
use crate::models::{bytes_eq, copy_bytes, Sensor, SensorData, SensorDataEntry, SensorEntry,
    SensorType};
use crate::store::{
    same_but_streams,
    has_channel,
    has_identity,
    has_sensor_type,
    has_thing, has_reading, has_sensor, has_stream, identities_evolve,
    lemma_peer_absent, lemma_peer_at, peer_subscribed, peer_unverifiable, peer_verified,
    same_but_identities, same_but_sensor_tables, SensorFlag, Store, StreamField,
};
use crate::models::StreamsEntry;

verus! {

/// The role a node plays on a channel's ledger stream.
#[derive(Clone, Copy, PartialEq, Eq, Structural, Debug)]
pub enum Role {
    Publisher,
    Subscriber,
}

/// Why a handler refused an event. A refused event mutates nothing beyond
/// what its contract states.
#[derive(Clone, Copy, PartialEq, Eq, Structural, Debug)]
pub enum EngineError {
    /// The payload did not decode under its topic's schema.
    DecodeFailed,
    /// The embedded identifier is the node's own.
    SelfMessage,
    /// A `did` response named a pair not outstanding.
    ChallengeMismatch,
    /// A row the step needed was missing or could not be written.
    StorageFailed,
    /// The channel's stream has no keyload link yet.
    KeyloadMissing,
    /// The outside call this step consumed reported failure.
    CallFailed,
}

/// The outside call a handler asks its driver to make, or the payload it
/// asks it to publish.
pub enum Action {
    /// Nothing to do.
    Idle,
    /// Sign the credential over this challenge and publish the reply on the
    /// `did` topic.
    RequestProof { did: Vec<u8>, challenge: Vec<u8>, vc: Vec<u8> },
    /// Verify this signed credential against the ledger.
    RequestVerify { did: Vec<u8>, challenge: Vec<u8>, vc: Vec<u8> },
    /// Admit this subscription link to the stream (author side).
    AddSubscriber { sub_link: Vec<u8> },
    /// Close the reader set by minting a keyload.
    CreateKeyload,
    /// Join the stream under this announcement link (subscriber side).
    CreateSubscriber { ann_link: Vec<u8> },
    /// Fetch the keyload under this link (subscriber side).
    ReceiveKeyload { key_link: Vec<u8> },
    /// Publish this payload on the `stream` topic.
    PublishStream { payload: Streams },
    /// Write the received authority certificate to disk.
    WriteCaFile { pk: Vec<u8> },
}

/// A challenge issued to a peer and not yet answered.
pub struct PendingChallenge {
    pub did: Vec<u8>,
    pub challenge: Vec<u8>,
}

/// How many verifications of a peer have failed in a row.
pub struct AttemptCount {
    pub did: Vec<u8>,
    pub failures: u32,
}

/// After this many failed verifications a peer becomes unverifiable.
pub const MAX_VERIFY_FAILURES: u32 = 10;

/// The engine's transient bookkeeping: outstanding challenges and failure
/// counts, both keyed by the peer identifier.
pub struct Engine {
    pub pending: Vec<PendingChallenge>,
    pub attempts: Vec<AttemptCount>,
}

impl Engine {
    pub open spec fn wf(self) -> bool {
        forall|i: int, j: int|
            0 <= i < j < self.attempts@.len() ==> #[trigger] self.attempts@[i].did@
                != #[trigger] self.attempts@[j].did@
    }

    pub fn new() -> (r: Engine)
        ensures
            r.wf(),
            r.pending@.len() == 0,
            r.attempts@.len() == 0,
    {
        Engine { pending: Vec::new(), attempts: Vec::new() }
    }
}

// ----- the identity plane -----

/// How many verifications of this peer have failed in a row.
pub open spec fn failures_of(e: Engine, did: Seq<u8>) -> int {
    if exists|i: int| 0 <= i < e.attempts@.len() && #[trigger] e.attempts@[i].did@ == did {
        let i = choose|i: int| 0 <= i < e.attempts@.len() && #[trigger] e.attempts@[i].did@ == did;
        e.attempts@[i].failures as int
    } else {
        0
    }
}

/// Whether this (identifier, challenge) pair is outstanding.
pub open spec fn pair_outstanding(e: Engine, did: Seq<u8>, challenge: Seq<u8>) -> bool {
    exists|i: int|
        0 <= i < e.pending@.len() && #[trigger] e.pending@[i].did@ == did
            && e.pending@[i].challenge@ == challenge
}

impl Engine {
    fn find_pending(&self, did: &Vec<u8>, challenge: &Vec<u8>) -> (r: Option<usize>)
        ensures
            match r {
                Some(i) => i < self.pending@.len() && self.pending@[i as int].did@ == did@
                    && self.pending@[i as int].challenge@ == challenge@,
                None => !pair_outstanding(*self, did@, challenge@),
            },
    {
        let mut i: usize = 0;
        while i < self.pending.len()
            invariant
                i <= self.pending@.len(),
                forall|j: int|
                    0 <= j < i ==> !(#[trigger] self.pending@[j].did@ == did@
                        && self.pending@[j].challenge@ == challenge@),
            decreases self.pending@.len() - i,
        {
            if bytes_eq(&self.pending[i].did, did) && bytes_eq(&self.pending[i].challenge, challenge) {
                return Some(i);
            }
            i = i + 1;
        }
        None
    }

    fn find_attempt(&self, did: &Vec<u8>) -> (r: Option<usize>)
        ensures
            match r {
                Some(i) => i < self.attempts@.len() && self.attempts@[i as int].did@ == did@,
                None => forall|j: int|
                    0 <= j < self.attempts@.len() ==> (#[trigger] self.attempts@[j].did@) != did@,
            },
    {
        let mut i: usize = 0;
        while i < self.attempts.len()
            invariant
                i <= self.attempts@.len(),
                forall|j: int| 0 <= j < i ==> (#[trigger] self.attempts@[j].did@) != did@,
            decreases self.attempts@.len() - i,
        {
            if bytes_eq(&self.attempts[i].did, did) {
                return Some(i);
            }
            i = i + 1;
        }
        None
    }

    /// Record one more failed verification of this peer; the count saturates
    /// at the threshold. Returns the new count.
    fn bump_failures(&mut self, did: &Vec<u8>) -> (r: u32)
        requires
            old(self).wf(),
        ensures
            final(self).wf(),
            final(self).pending == old(self).pending,
            r as int == failures_of(*final(self), did@),
            failures_of(*final(self), did@) == if failures_of(*old(self), did@)
                < MAX_VERIFY_FAILURES {
                failures_of(*old(self), did@) + 1
            } else {
                failures_of(*old(self), did@)
            },
            forall|d: Seq<u8>|
                d != did@ ==> #[trigger] failures_of(*final(self), d) == failures_of(*old(self), d),
    {
        match self.find_attempt(did) {
            Some(i) => {
                let mut row = self.attempts.remove(i);
                if row.failures < MAX_VERIFY_FAILURES {
                    row.failures = row.failures + 1;
                }
                let f = row.failures;
                self.attempts.insert(i, row);
                proof {
                    assert(self.attempts@ =~= old(self).attempts@.update(
                        i as int,
                        self.attempts@[i as int],
                    ));
                    assert forall|d: Seq<u8>| d != did@ implies #[trigger] failures_of(
                        *self,
                        d,
                    ) == failures_of(*old(self), d) by {
                        lemma_failures_frame(*old(self), *self, i as int, d);
                    }
                    lemma_failures_at(*old(self), i as int);
                    lemma_failures_at(*self, i as int);
                }
                f
            },
            None => {
                self.attempts.push(AttemptCount { did: copy_bytes(did), failures: 1 });
                proof {
                    let n = self.attempts@.len() - 1;
                    assert forall|a: int, b: int|
                        0 <= a < b < self.attempts@.len() implies self.attempts@[a].did@
                        != self.attempts@[b].did@ by {
                        assert(self.attempts@[a] == old(self).attempts@[a]);
                        if b < n {
                            assert(self.attempts@[b] == old(self).attempts@[b]);
                        } else {
                            assert(self.attempts@[b].did@ == did@);
                        }
                    }
                    assert forall|d: Seq<u8>| d != did@ implies #[trigger] failures_of(
                        *self,
                        d,
                    ) == failures_of(*old(self), d) by {
                        lemma_failures_frame_push(*old(self), *self, d);
                    }
                    lemma_failures_at(*self, n);
                    lemma_failures_none(*old(self), did@);
                }
                1
            },
        }
    }

    /// Forget the failure count of this peer (it verified).
    fn clear_failures(&mut self, did: &Vec<u8>)
        requires
            old(self).wf(),
        ensures
            final(self).wf(),
            final(self).pending == old(self).pending,
            failures_of(*final(self), did@) == 0,
            forall|d: Seq<u8>|
                d != did@ ==> #[trigger] failures_of(*final(self), d) == failures_of(*old(self), d),
    {
        match self.find_attempt(did) {
            Some(i) => {
                let _ = self.attempts.remove(i);
                proof {
                    assert forall|a: int, b: int|
                        0 <= a < b < self.attempts@.len() implies self.attempts@[a].did@
                        != self.attempts@[b].did@ by {
                        lemma_remove_keeps(old(self).attempts@, i as int, a);
                        lemma_remove_keeps(old(self).attempts@, i as int, b);
                    }
                    lemma_failures_none(*self, did@);
                    assert forall|d: Seq<u8>| d != did@ implies #[trigger] failures_of(
                        *self,
                        d,
                    ) == failures_of(*old(self), d) by {
                        lemma_failures_frame_remove(*old(self), *self, i as int, d);
                    }
                }
            },
            None => {
                proof {
                    lemma_failures_none(*self, did@);
                }
            },
        }
    }
}

/// After removal, every surviving position holds a row of the table before.
proof fn lemma_remove_keeps(s: Seq<AttemptCount>, i: int, a: int)
    requires
        0 <= i < s.len(),
        0 <= a < s.len() - 1,
    ensures
        s.remove(i)[a] == if a < i {
            s[a]
        } else {
            s[a + 1]
        },
{
}

/// In a well-keyed table, the count of the row at `i` is the count of its
/// key.
proof fn lemma_failures_at(e: Engine, i: int)
    requires
        e.wf(),
        0 <= i < e.attempts@.len(),
    ensures
        failures_of(e, e.attempts@[i].did@) == e.attempts@[i].failures as int,
{
    let d = e.attempts@[i].did@;
    assert(exists|j: int| 0 <= j < e.attempts@.len() && #[trigger] e.attempts@[j].did@ == d);
    let j = choose|j: int| 0 <= j < e.attempts@.len() && #[trigger] e.attempts@[j].did@ == d;
    if i < j {
        assert(e.attempts@[i].did@ != e.attempts@[j].did@);
    } else if j < i {
        assert(e.attempts@[j].did@ != e.attempts@[i].did@);
    }
}

/// A key with no row counts zero failures.
proof fn lemma_failures_none(e: Engine, d: Seq<u8>)
    requires
        forall|j: int| 0 <= j < e.attempts@.len() ==> (#[trigger] e.attempts@[j].did@) != d,
    ensures
        failures_of(e, d) == 0,
{
}

/// Updating one row leaves every other key's count unchanged.
proof fn lemma_failures_frame(e0: Engine, e1: Engine, i: int, d: Seq<u8>)
    requires
        e0.wf(),
        e1.wf(),
        0 <= i < e0.attempts@.len(),
        e1.attempts@ == e0.attempts@.update(i, e1.attempts@[i]),
        e0.attempts@[i].did@ != d,
        e1.attempts@[i].did@ != d,
    ensures
        failures_of(e1, d) == failures_of(e0, d),
{
    if exists|j: int| 0 <= j < e0.attempts@.len() && #[trigger] e0.attempts@[j].did@ == d {
        let j = choose|j: int| 0 <= j < e0.attempts@.len() && #[trigger] e0.attempts@[j].did@ == d;
        assert(e1.attempts@[j].did@ == d);
        lemma_failures_witness(e0, d);
        lemma_failures_witness(e1, d);
        assert(e1.attempts@[j] == e0.attempts@[j]);
    } else {
        assert forall|j: int| 0 <= j < e1.attempts@.len() implies (
        #[trigger] e1.attempts@[j].did@) != d by {
            if j != i {
                assert(e1.attempts@[j] == e0.attempts@[j]);
            }
        }
    }
}

/// Appending a row for one key leaves every other key's count unchanged.
proof fn lemma_failures_frame_push(e0: Engine, e1: Engine, d: Seq<u8>)
    requires
        e0.wf(),
        e1.wf(),
        e1.attempts@ == e0.attempts@.push(e1.attempts@.last()),
        e1.attempts@.last().did@ != d,
    ensures
        failures_of(e1, d) == failures_of(e0, d),
{
    if exists|j: int| 0 <= j < e0.attempts@.len() && #[trigger] e0.attempts@[j].did@ == d {
        let j = choose|j: int| 0 <= j < e0.attempts@.len() && #[trigger] e0.attempts@[j].did@ == d;
        assert(e1.attempts@[j].did@ == d);
        lemma_failures_witness(e0, d);
        lemma_failures_witness(e1, d);
        assert(e1.attempts@[j] == e0.attempts@[j]);
    } else {
        assert forall|j: int| 0 <= j < e1.attempts@.len() implies (
        #[trigger] e1.attempts@[j].did@) != d by {
            if j < e1.attempts@.len() - 1 {
                assert(e1.attempts@[j] == e0.attempts@[j]);
            }
        }
    }
}

/// Removing one key's row leaves every other key's count unchanged.
proof fn lemma_failures_frame_remove(e0: Engine, e1: Engine, i: int, d: Seq<u8>)
    requires
        e0.wf(),
        e1.wf(),
        0 <= i < e0.attempts@.len(),
        e1.attempts@ == e0.attempts@.remove(i),
        e0.attempts@[i].did@ != d,
    ensures
        failures_of(e1, d) == failures_of(e0, d),
{
    assert forall|a: int| 0 <= a < e1.attempts@.len() implies e1.attempts@[a] == (if a < i {
        e0.attempts@[a]
    } else {
        e0.attempts@[a + 1]
    }) by {
        lemma_remove_keeps(e0.attempts@, i, a);
    }
    if exists|j: int| 0 <= j < e0.attempts@.len() && #[trigger] e0.attempts@[j].did@ == d {
        let j = choose|j: int| 0 <= j < e0.attempts@.len() && #[trigger] e0.attempts@[j].did@ == d;
        if j < i {
            assert(e1.attempts@[j].did@ == d);
        } else {
            assert(j > i);
            assert(e1.attempts@[j - 1] == e0.attempts@[j]);
            assert(e1.attempts@[j - 1].did@ == d);
        }
        lemma_failures_witness(e0, d);
        lemma_failures_witness(e1, d);
    } else {
        assert forall|a: int| 0 <= a < e1.attempts@.len() implies (
        #[trigger] e1.attempts@[a].did@) != d by {}
    }
}

/// Any two rows for one key agree on the count (keys are unique), so the
/// chosen one does.
proof fn lemma_failures_witness(e: Engine, d: Seq<u8>)
    requires
        forall|a: int, b: int|
            0 <= a < b < e.attempts@.len() ==> #[trigger] e.attempts@[a].did@
                != #[trigger] e.attempts@[b].did@,
        exists|j: int| 0 <= j < e.attempts@.len() && #[trigger] e.attempts@[j].did@ == d,
    ensures
        forall|j: int|
            0 <= j < e.attempts@.len() && (#[trigger] e.attempts@[j].did@) == d ==> failures_of(
                e,
                d,
            ) == e.attempts@[j].failures as int,
{
    let j0 = choose|j: int| 0 <= j < e.attempts@.len() && #[trigger] e.attempts@[j].did@ == d;
    assert forall|j: int|
        0 <= j < e.attempts@.len() && (#[trigger] e.attempts@[j].did@) == d implies failures_of(
        e,
        d,
    ) == e.attempts@[j].failures as int by {
        if j < j0 {
            assert(e.attempts@[j].did@ != e.attempts@[j0].did@);
        } else if j0 < j {
            assert(e.attempts@[j0].did@ != e.attempts@[j].did@);
        }
    }
}

// ----- cross-plane agreement -----

/// A reading fetched from the ledger stream, as decoded from its payload.
pub struct LedgerReading {
    pub did: Vec<u8>,
    pub vc: Vec<u8>,
    pub sensor_id: Vec<u8>,
    pub sensor_name: Vec<u8>,
    pub sensor_type: Vec<u8>,
    pub value: Vec<u8>,
    pub unit: Vec<u8>,
    pub timestamp: i64,
}

/// The comparable fields of a ledger reading.
pub ghost struct LedgerReadingModel {
    pub did: Seq<u8>,
    pub vc: Seq<u8>,
    pub sensor_id: Seq<u8>,
    pub sensor_name: Seq<u8>,
    pub sensor_type: Seq<u8>,
    pub value: Seq<u8>,
    pub unit: Seq<u8>,
    pub timestamp: i64,
}

impl View for LedgerReading {
    type V = LedgerReadingModel;

    open spec fn view(&self) -> LedgerReadingModel {
        LedgerReadingModel {
            did: self.did@,
            vc: self.vc@,
            sensor_id: self.sensor_id@,
            sensor_name: self.sensor_name@,
            sensor_type: self.sensor_type@,
            value: self.value@,
            unit: self.unit@,
            timestamp: self.timestamp,
        }
    }
}

/// The comparable fields of a bus message, against a stored reading and its
/// catalog rows: both planes agree on
/// `(sensor_id, name, type, value, unit, timestamp)`.
pub open spec fn fields_match(
    m_sensor_id: Seq<u8>,
    m_name: Seq<u8>,
    m_typ: Seq<u8>,
    m_value: Seq<u8>,
    m_unit: Seq<u8>,
    m_timestamp: i64,
    db: SensorData,
    st: SensorType,
    sn: Sensor,
) -> bool {
    &&& m_sensor_id == sn.sensor_id@
    &&& m_name == sn.sensor_name@
    &&& m_typ == st.description@
    &&& m_unit == st.unit@
    &&& m_value == db.sensor_value@
    &&& m_timestamp == db.sensor_time
}

/// Whether a bus `sensors` message agrees with a stored reading.
pub fn compare_mqtt_to_db(
    db_entry: &SensorData,
    msg: &SensorMsg,
    sensor_type: &SensorType,
    sensor: &Sensor,
) -> (r: bool)
    ensures
        r == fields_match(
            msg@.sensor_id,
            msg@.name,
            msg@.typ,
            msg@.value,
            msg@.unit,
            msg@.timestamp,
            *db_entry,
            *sensor_type,
            *sensor,
        ),
{
    bytes_eq(&msg.sensor_id, &sensor.sensor_id) && bytes_eq(&msg.name, &sensor.sensor_name)
        && bytes_eq(&msg.typ, &sensor_type.description) && bytes_eq(&msg.unit, &sensor_type.unit)
        && bytes_eq(&msg.value, &db_entry.sensor_value) && msg.timestamp == db_entry.sensor_time
}

/// Whether a ledger reading agrees with a stored reading.
pub fn compare_iota_to_db(
    db_entry: &SensorData,
    msg: &LedgerReading,
    sensor_type: &SensorType,
    sensor: &Sensor,
) -> (r: bool)
    ensures
        r == fields_match(
            msg@.sensor_id,
            msg@.sensor_name,
            msg@.sensor_type,
            msg@.value,
            msg@.unit,
            msg@.timestamp,
            *db_entry,
            *sensor_type,
            *sensor,
        ),
{
    bytes_eq(&msg.sensor_id, &sensor.sensor_id) && bytes_eq(&msg.sensor_name, &sensor.sensor_name)
        && bytes_eq(&msg.sensor_type, &sensor_type.description) && bytes_eq(
        &msg.unit,
        &sensor_type.unit,
    ) && bytes_eq(&msg.value, &db_entry.sensor_value) && msg.timestamp == db_entry.sensor_time
}

/// Whether the reading at `ri` agrees with the given message fields, judged
/// against the reading's own catalog rows.
pub open spec fn catalog_match_at(
    s: Store,
    ri: int,
    m_sensor_id: Seq<u8>,
    m_name: Seq<u8>,
    m_typ: Seq<u8>,
    m_value: Seq<u8>,
    m_unit: Seq<u8>,
    m_timestamp: i64,
) -> bool
    recommends
        0 <= ri < s.sensor_data@.len(),
{
    exists|sn: int, st: int|
        {
            &&& 0 <= sn < s.sensors@.len()
            &&& 0 <= st < s.sensor_types@.len()
            &&& (#[trigger] s.sensors@[sn]).id == s.sensor_data@[ri].sensor_id
            &&& (#[trigger] s.sensor_types@[st]).id == s.sensors@[sn].sensor_types_id
            &&& fields_match(
                m_sensor_id,
                m_name,
                m_typ,
                m_value,
                m_unit,
                m_timestamp,
                s.sensor_data@[ri],
                s.sensor_types@[st],
                s.sensors@[sn],
            )
        }
}

/// What one plane's ingest of a reading does to the readings table, given
/// the sensor row id it resolved to. A fresh pair inserts exactly one row
/// flagged for the ingesting plane; a second sighting of the pair never adds
/// a row: it raises `verified` (and the ingesting plane's flag) when all
/// comparable fields agree, and changes nothing when they do not.
pub open spec fn ingest_outcome(
    a: Store,
    b: Store,
    sid: i32,
    m_sensor_id: Seq<u8>,
    m_name: Seq<u8>,
    m_typ: Seq<u8>,
    m_value: Seq<u8>,
    m_unit: Seq<u8>,
    m_timestamp: i64,
    from_bus: bool,
) -> bool {
    if !has_reading(a, sid, m_timestamp) {
        &&& b.sensor_data@ == a.sensor_data@.push(b.sensor_data@.last())
        &&& b.sensor_data@.last().sensor_id == sid
        &&& b.sensor_data@.last().sensor_value@ == m_value
        &&& b.sensor_data@.last().sensor_time == m_timestamp
        &&& b.sensor_data@.last().mqtt == from_bus
        &&& b.sensor_data@.last().iota == !from_bus
        &&& b.sensor_data@.last().verified == false
    } else {
        forall|ri: int|
            0 <= ri < a.sensor_data@.len() && (#[trigger] a.sensor_data@[ri]).sensor_id == sid
                && a.sensor_data@[ri].sensor_time == m_timestamp ==> if catalog_match_at(
                b,
                ri,
                m_sensor_id,
                m_name,
                m_typ,
                m_value,
                m_unit,
                m_timestamp,
            ) {
                &&& b.sensor_data@ == a.sensor_data@.update(ri, b.sensor_data@[ri])
                &&& b.sensor_data@[ri].verified == true
                &&& b.sensor_data@[ri].mqtt == (a.sensor_data@[ri].mqtt || from_bus)
                &&& b.sensor_data@[ri].iota == (a.sensor_data@[ri].iota || !from_bus)
                &&& b.sensor_data@[ri].sensor_value == a.sensor_data@[ri].sensor_value
                &&& b.sensor_data@[ri].sensor_time == a.sensor_data@[ri].sensor_time
                &&& b.sensor_data@[ri].sensor_id == a.sensor_data@[ri].sensor_id
                &&& b.sensor_data@[ri].id == a.sensor_data@[ri].id
            } else {
                b.sensor_data == a.sensor_data
            }
    }
}

/// Exactly what ingesting a `sensors` bus message does: the catalog rows for
/// the message's type and sensor exist afterwards, the reading lands (or is
/// confirmed) per [`ingest_outcome`], and an error is possible only for a
/// catalog or readings table at its bound or a sensor row pointing at no
/// catalogued type.
pub open spec fn bus_ingest_post(s0: Store, s1: Store, m: SensorModel, ok: bool) -> bool {
    &&& same_but_sensor_tables(s0, s1)
    &&& (!ok ==> {
        &&& s1.sensor_data == s0.sensor_data
        &&& {
            ||| (!has_sensor_type(s0, m.typ) && s0.sensor_types@.len()
                == crate::store::max_rows())
            ||| (!has_sensor(s0, m.sensor_id) && s0.sensors@.len() == crate::store::max_rows())
            ||| s0.sensor_data@.len() == crate::store::max_rows()
            ||| (exists|sn: int|
                0 <= sn < s1.sensors@.len() && (#[trigger] s1.sensors@[sn]).sensor_id@
                    == m.sensor_id && !(1 <= s1.sensors@[sn].sensor_types_id
                    <= s1.sensor_types@.len()))
        }
    })
    &&& (ok ==> {
        &&& has_sensor(s1, m.sensor_id)
        &&& has_sensor_type(s1, m.typ)
        &&& forall|sn: int|
            0 <= sn < s1.sensors@.len() && (#[trigger] s1.sensors@[sn]).sensor_id@ == m.sensor_id
                ==> ingest_outcome(
                s0,
                s1,
                s1.sensors@[sn].id,
                m.sensor_id,
                m.name,
                m.typ,
                m.value,
                m.unit,
                m.timestamp,
                true,
            )
    })
}

/// Ingest a `sensors` bus message for this channel; see [`bus_ingest_post`].
pub fn save_mqtt_sensor_data(store: &mut Store, channel_id: i32, msg: &SensorMsg) -> (r: Result<
    u32,
    EngineError,
>)
    requires
        old(store).wf(),
    ensures
        final(store).wf(),
        r is Ok ==> r == Ok::<u32, EngineError>(0),
        bus_ingest_post(*old(store), *final(store), msg@, r is Ok),
{
    let _ = store.create_sensor_type(&msg.typ, &msg.unit);
    let type_id: i32 = match store.select_sensor_type_by_desc(&msg.typ) {
        Ok(st) => st.id,
        Err(_) => {
            return Err(EngineError::StorageFailed);
        },
    };
    let _ = store.create_sensor(
        SensorEntry {
            channel_id,
            sensor_types_id: type_id,
            sensor_id: copy_bytes(&msg.sensor_id),
            sensor_name: copy_bytes(&msg.name),
        },
    );
    let sid: i32 = match store.select_sensor_by_name(&msg.sensor_id) {
        Ok(sn) => sn.id,
        Err(_) => {
            return Err(EngineError::StorageFailed);
        },
    };
    ingest_reading(
        store,
        sid,
        &msg.sensor_id,
        &msg.name,
        &msg.typ,
        &msg.value,
        &msg.unit,
        msg.timestamp,
        true,
    )
}

/// Exactly what ingesting a ledger reading does, mirroring the bus side with
/// the planes swapped; additionally nothing lands while the keyload gate of
/// the reading's sensor is closed.
pub open spec fn ledger_ingest_post(
    s0: Store,
    s1: Store,
    m: LedgerReadingModel,
    ok: bool,
) -> bool {
    &&& same_but_sensor_tables(s0, s1)
    &&& (!ok ==> {
        &&& s1.sensor_data == s0.sensor_data
        &&& {
            ||| (!has_sensor_type(s0, m.sensor_type) && s0.sensor_types@.len()
                == crate::store::max_rows())
            ||| (!has_sensor(s0, m.sensor_id) && s0.sensors@.len() == crate::store::max_rows())
            ||| s0.sensor_data@.len() == crate::store::max_rows()
            ||| (exists|sn: int|
                0 <= sn < s1.sensors@.len() && (#[trigger] s1.sensors@[sn]).sensor_id@
                    == m.sensor_id && !(1 <= s1.sensors@[sn].sensor_types_id
                    <= s1.sensor_types@.len()))
            ||| (exists|sn: int|
                0 <= sn < s1.sensors@.len() && (#[trigger] s1.sensors@[sn]).sensor_id@
                    == m.sensor_id && !crate::store::iota_permitted(s1, s1.sensors@[sn].id))
        }
    })
    &&& (ok ==> {
        &&& has_sensor(s1, m.sensor_id)
        &&& has_sensor_type(s1, m.sensor_type)
        &&& forall|sn: int|
            0 <= sn < s1.sensors@.len() && (#[trigger] s1.sensors@[sn]).sensor_id@ == m.sensor_id
                ==> ingest_outcome(
                s0,
                s1,
                s1.sensors@[sn].id,
                m.sensor_id,
                m.sensor_name,
                m.sensor_type,
                m.value,
                m.unit,
                m.timestamp,
                false,
            )
    })
}

/// Ingest a reading fetched from the ledger stream, after the channel's
/// keyload gate is known open; see [`ledger_ingest_post`].
pub fn save_iota_sensor_data(store: &mut Store, channel_id: i32, msg: &LedgerReading) -> (r: Result<
    u32,
    EngineError,
>)
    requires
        old(store).wf(),
    ensures
        final(store).wf(),
        r is Ok ==> r == Ok::<u32, EngineError>(0),
        ledger_ingest_post(*old(store), *final(store), msg@, r is Ok),
{
    let _ = store.create_sensor_type(&msg.sensor_type, &msg.unit);
    let type_id: i32 = match store.select_sensor_type_by_desc(&msg.sensor_type) {
        Ok(st) => st.id,
        Err(_) => {
            return Err(EngineError::StorageFailed);
        },
    };
    let _ = store.create_sensor(
        SensorEntry {
            channel_id,
            sensor_types_id: type_id,
            sensor_id: copy_bytes(&msg.sensor_id),
            sensor_name: copy_bytes(&msg.sensor_name),
        },
    );
    let sid: i32 = match store.select_sensor_by_name(&msg.sensor_id) {
        Ok(sn) => sn.id,
        Err(_) => {
            return Err(EngineError::StorageFailed);
        },
    };
    ingest_reading(
        store,
        sid,
        &msg.sensor_id,
        &msg.sensor_name,
        &msg.sensor_type,
        &msg.value,
        &msg.unit,
        msg.timestamp,
        false,
    )
}

/// The shared tail of both ingest paths: insert the pair's first sighting,
/// or confirm (never duplicate) its second.
fn ingest_reading(
    store: &mut Store,
    sid: i32,
    m_sensor_id: &Vec<u8>,
    m_name: &Vec<u8>,
    m_typ: &Vec<u8>,
    m_value: &Vec<u8>,
    m_unit: &Vec<u8>,
    m_timestamp: i64,
    from_bus: bool,
) -> (r: Result<u32, EngineError>)
    requires
        old(store).wf(),
    ensures
        final(store).wf(),
        same_but_sensor_tables(*old(store), *final(store)),
        final(store).sensors == old(store).sensors,
        final(store).sensor_types == old(store).sensor_types,
        r is Ok ==> r == Ok::<u32, EngineError>(0),
        r is Err ==> {
            ||| old(store).sensor_data@.len() == crate::store::max_rows()
            ||| (!from_bus && !crate::store::iota_permitted(*old(store), sid))
            ||| !(1 <= sid <= old(store).sensors@.len())
            ||| (1 <= sid <= old(store).sensors@.len() && !(1 <= old(store).sensors@[sid
                - 1].sensor_types_id <= old(store).sensor_types@.len()))
        },
        match r {
            Ok(_) => ingest_outcome(
                *old(store),
                *final(store),
                sid,
                m_sensor_id@,
                m_name@,
                m_typ@,
                m_value@,
                m_unit@,
                m_timestamp,
                from_bus,
            ),
            Err(_) => final(store).sensor_data == old(store).sensor_data,
        },
{
    match store.select_sensor_entry_by_time_and_id(sid, m_timestamp) {
        Err(_) => {
            if !from_bus && !store.check_iota_permitted(sid) {
                return Err(EngineError::KeyloadMissing);
            }
            match store.create_sensor_data(
                SensorDataEntry {
                    sensor_id: sid,
                    sensor_value: copy_bytes(m_value),
                    sensor_time: m_timestamp,
                    mqtt: from_bus,
                    iota: !from_bus,
                    verified: false,
                },
            ) {
                Ok(_) => Ok(0),
                Err(_) => Err(EngineError::StorageFailed),
            }
        },
        Ok(ri) => {
            let row_id = self_id_of_reading(store, ri);
            let matched = {
                let db = &store.sensor_data[ri];
                let sn = match store.select_sensor(sid) {
                    Ok(x) => x,
                    Err(_) => {
                        return Err(EngineError::StorageFailed);
                    },
                };
                let st = match store.select_sensor_type_by_id(sn.sensor_types_id) {
                    Ok(x) => x,
                    Err(_) => {
                        return Err(EngineError::StorageFailed);
                    },
                };
                bytes_eq(m_sensor_id, &sn.sensor_id) && bytes_eq(m_name, &sn.sensor_name)
                    && bytes_eq(m_typ, &st.description) && bytes_eq(m_unit, &st.unit) && bytes_eq(
                    m_value,
                    &db.sensor_value,
                ) && m_timestamp == db.sensor_time
            };
            if matched {
                if !from_bus && !store.check_iota_permitted(sid) {
                    return Err(EngineError::KeyloadMissing);
                }
                match store.update_sensor_entry(row_id, SensorFlag::Verified, true) {
                    Ok(_) => (),
                    Err(_) => {
                        return Err(EngineError::StorageFailed);
                    },
                };
                if from_bus {
                    match store.update_sensor_entry(row_id, SensorFlag::Mqtt, true) {
                        Ok(_) => (),
                        Err(_) => {
                            return Err(EngineError::StorageFailed);
                        },
                    };
                } else {
                    proof {
                        assert(crate::store::iota_permitted(*store, store.sensor_data@[ri as int].sensor_id));
                    }
                    match store.update_sensor_entry(row_id, SensorFlag::Iota, true) {
                        Ok(_) => (),
                        Err(_) => {
                            return Err(EngineError::StorageFailed);
                        },
                    };
                }
                proof {
                    assert(store.sensor_data@ =~= old(store).sensor_data@.update(
                        ri as int,
                        store.sensor_data@[ri as int],
                    ));
                }
                Ok(0)
            } else {
                Ok(0)
            }
        },
    }
}

/// The table id of the reading at this position.
fn self_id_of_reading(store: &Store, ri: usize) -> (r: i32)
    requires
        store.wf(),
        ri < store.sensor_data@.len(),
    ensures
        r == store.sensor_data@[ri as int].id,
{
    store.sensor_data[ri].id
}


// ----- topic handlers: the identity plane -----

/// Exactly what handling a `did`-topic message does: a proof request naming
/// this node yields a signature request; a response for a foreign identifier
/// is accepted only while its (identifier, challenge) pair is outstanding,
/// which then stops being outstanding; everything else is dropped; the
/// node's own messages change nothing.
pub open spec fn identity_topic_post(
    e0: Engine,
    e1: Engine,
    self_did: Seq<u8>,
    m: DidModel,
    r: Result<Action, EngineError>,
) -> bool {
    &&& e1.attempts == e0.attempts
    &&& (m.did == self_did ==> e1 == e0)
    &&& if m.proof_request && m.did == self_did {
        &&& e1 == e0
        &&& match r {
            Ok(a) => match a {
                Action::RequestProof { did, challenge, vc } => did@ == m.did && challenge@
                    == m.challenge && vc@ == m.vc,
                _ => false,
            },
            Err(_) => false,
        }
    } else if !m.proof_request && m.did != self_did {
        if pair_outstanding(e0, m.did, m.challenge) {
            &&& match r {
                Ok(a) => match a {
                    Action::RequestVerify { did, challenge, vc } => did@ == m.did && challenge@
                        == m.challenge && vc@ == m.vc,
                    _ => false,
                },
                Err(_) => false,
            }
            &&& exists|k: int|
                0 <= k < e0.pending@.len() && (#[trigger] e0.pending@[k]).did@ == m.did
                    && e0.pending@[k].challenge@ == m.challenge && e1.pending@
                    == e0.pending@.remove(k)
        } else {
            &&& e1 == e0
            &&& match r {
                Ok(_) => false,
                Err(e) => e == EngineError::ChallengeMismatch,
            }
        }
    } else {
        &&& e1 == e0
        &&& match r {
            Ok(a) => a is Idle,
            Err(_) => false,
        }
    }
}

/// Handle a message on the `did` topic; see [`identity_topic_post`].
/// Nothing persistent changes here.
pub fn mqtt_identity(eng: &mut Engine, self_did: &Vec<u8>, msg: &Did) -> (r: Result<
    Action,
    EngineError,
>)
    requires
        old(eng).wf(),
    ensures
        final(eng).wf(),
        identity_topic_post(*old(eng), *final(eng), self_did@, msg@, r),
{
    let is_thing = bytes_eq(&msg.did, self_did);
    if msg.proof_request && is_thing {
        Ok(
            Action::RequestProof {
                did: copy_bytes(&msg.did),
                challenge: copy_bytes(&msg.challenge),
                vc: copy_bytes(&msg.vc),
            },
        )
    } else if !msg.proof_request && !is_thing {
        match eng.find_pending(&msg.did, &msg.challenge) {
            Some(k) => {
                let _ = eng.pending.remove(k);
                Ok(
                    Action::RequestVerify {
                        did: copy_bytes(&msg.did),
                        challenge: copy_bytes(&msg.challenge),
                        vc: copy_bytes(&msg.vc),
                    },
                )
            },
            None => Err(EngineError::ChallengeMismatch),
        }
    } else {
        Ok(Action::Idle)
    }
}

/// Exactly what handling an `identity`-topic broadcast does: the node's own
/// broadcast is dropped, a foreign one asks the driver to verify the
/// credential right away.
pub open spec fn first_contact_post(self_did: Seq<u8>, m: DidModel, r: Result<
    Action,
    EngineError,
>) -> bool {
    if m.did == self_did {
        match r {
            Ok(_) => false,
            Err(e) => e == EngineError::SelfMessage,
        }
    } else {
        match r {
            Ok(a) => match a {
                Action::RequestVerify { did, challenge, vc } => did@ == m.did && challenge@
                    == m.challenge && vc@ == m.vc,
                _ => false,
            },
            Err(_) => false,
        }
    }
}

/// Handle a first-contact broadcast on the `identity` topic; see
/// [`first_contact_post`].
pub fn mqtt_first_verification(self_did: &Vec<u8>, msg: &Did) -> (r: Result<Action, EngineError>)
    ensures
        first_contact_post(self_did@, msg@, r),
{
    if bytes_eq(&msg.did, self_did) {
        Err(EngineError::SelfMessage)
    } else {
        Ok(
            Action::RequestVerify {
                did: copy_bytes(&msg.did),
                challenge: copy_bytes(&msg.challenge),
                vc: copy_bytes(&msg.vc),
            },
        )
    }
}

/// Record the outcome of a verification call for a peer. The peer's row is
/// created at first contact; a success raises `verified` unless the peer is
/// already unverifiable; a failure counts toward the threshold, at which an
/// unverified peer becomes unverifiable for good.
pub fn apply_verify_result(store: &mut Store, eng: &mut Engine, did: &Vec<u8>, code: i32) -> (r:
    Result<u32, EngineError>)
    requires
        old(store).wf(),
        old(eng).wf(),
    ensures
        final(store).wf(),
        final(eng).wf(),
        same_but_identities(*old(store), *final(store)),
        identities_evolve(*old(store), *final(store)),
        final(eng).pending == old(eng).pending,
        r is Ok ==> r == Ok::<u32, EngineError>(0),
        r is Err ==> !has_identity(*old(store), did@) && old(store).identities@.len()
            == crate::store::max_rows(),
        match r {
            Ok(_) => {
                &&& has_identity(*final(store), did@)
                &&& peer_subscribed(*final(store), did@) == peer_subscribed(*old(store), did@)
                &&& (code == 0 ==> {
                    &&& peer_unverifiable(*final(store), did@) == peer_unverifiable(
                        *old(store),
                        did@,
                    )
                    &&& (!peer_unverifiable(*old(store), did@) ==> peer_verified(
                        *final(store),
                        did@,
                    ))
                    &&& (peer_unverifiable(*old(store), did@) ==> peer_verified(
                        *final(store),
                        did@,
                    ) == peer_verified(*old(store), did@))
                    &&& failures_of(*final(eng), did@) == 0
                })
                &&& (code != 0 ==> {
                    &&& peer_verified(*final(store), did@) == peer_verified(*old(store), did@)
                    &&& failures_of(*final(eng), did@) == (if failures_of(*old(eng), did@)
                        < MAX_VERIFY_FAILURES {
                        failures_of(*old(eng), did@) + 1
                    } else {
                        failures_of(*old(eng), did@)
                    })
                    &&& (failures_of(*final(eng), did@) >= MAX_VERIFY_FAILURES && !peer_verified(
                        *old(store),
                        did@,
                    ) ==> peer_unverifiable(*final(store), did@))
                    &&& (failures_of(*final(eng), did@) < MAX_VERIFY_FAILURES
                        ==> peer_unverifiable(*final(store), did@) == peer_unverifiable(
                        *old(store),
                        did@,
                    ))
                })
            },
            Err(_) => *final(store) == *old(store) && *final(eng) == *old(eng),
        },
{
    let known = match store.select_identity(did) {
        Ok(_) => true,
        Err(_) => false,
    };
    proof {
        if !known {
            lemma_peer_absent(*store, did@);
        }
    }
    if !known {
        match store.create_identity(did, false) {
            Ok(_) => (),
            Err(_) => {
                return Err(EngineError::StorageFailed);
            },
        };
        proof {
            lemma_peer_at(*store, store.identities@.len() - 1);
        }
    }
    let ghost mid = *store;
    proof {
        assert(has_identity(mid, did@));
    }
    if code == 0 {
        match store.update_identity(did, true) {
            Ok(_) => (),
            Err(_) => {
                return Err(EngineError::StorageFailed);
            },
        };
        proof {
            let i = choose|i: int|
                {
                    &&& 0 <= i < mid.identities@.len()
                    &&& (#[trigger] mid.identities@[i]).did@ == did@
                    &&& store.identities@ == mid.identities@.update(i, store.identities@[i])
                    &&& store.identities@[i].verified == (mid.identities@[i].verified || (true
                        && !mid.identities@[i].unverifiable))
                    &&& store.identities@[i].unverifiable == mid.identities@[i].unverifiable
                    &&& store.identities@[i].subscribed == mid.identities@[i].subscribed
                    &&& store.identities@[i].did == mid.identities@[i].did
                };
            lemma_peer_at(mid, i);
            lemma_peer_at(*store, i);
        }
        eng.clear_failures(did);
        Ok(0)
    } else {
        let f = eng.bump_failures(did);
        if f >= MAX_VERIFY_FAILURES {
            match store.update_identity_to_unverifiable(did, true) {
                Ok(_) => (),
                Err(_) => {
                    return Err(EngineError::StorageFailed);
                },
            };
            proof {
                let i = choose|i: int|
                    {
                        &&& 0 <= i < mid.identities@.len()
                        &&& (#[trigger] mid.identities@[i]).did@ == did@
                        &&& store.identities@ == mid.identities@.update(i, store.identities@[i])
                        &&& store.identities@[i].unverifiable == (mid.identities@[i].unverifiable
                            || (true && !mid.identities@[i].verified))
                        &&& store.identities@[i].verified == mid.identities@[i].verified
                        &&& store.identities@[i].subscribed == mid.identities@[i].subscribed
                        &&& store.identities@[i].did == mid.identities@[i].did
                    };
                lemma_peer_at(mid, i);
                lemma_peer_at(*store, i);
            }
        } else {
            proof {
                let ghost j = choose|j: int|
                    0 <= j < store.identities@.len() && (#[trigger] store.identities@[j]).did@
                        == did@;
                lemma_peer_at(*store, j);
            }
        }
        Ok(0)
    }
}


/// One verification request per peer still in the unknown state: each gets a
/// fresh 30-character alphanumeric challenge, and each issued
/// (identifier, challenge) pair becomes outstanding. Peers already verified
/// or unverifiable get none.
pub fn request_identity_verification(store: &Store, eng: &mut Engine) -> (msgs: Vec<Did>)
    requires
        old(eng).wf(),
    ensures
        final(eng).wf(),
        final(eng).attempts == old(eng).attempts,
        // every request names an unknown peer, asks for proof, and carries a
        // fresh well-formed challenge, recorded as outstanding
        msgs@.len() == final(eng).pending@.len() - old(eng).pending@.len(),
        forall|j: int|
            0 <= j < old(eng).pending@.len() ==> #[trigger] final(eng).pending@[j] == old(
                eng,
            ).pending@[j],
        forall|k: int|
            0 <= k < msgs@.len() ==> {
                &&& (#[trigger] msgs@[k]).proof_request == true
                &&& msgs@[k].vc@.len() == 0
                &&& msgs@[k].challenge@.len() == 30
                &&& final(eng).pending@[old(eng).pending@.len() + k].did@ == msgs@[k].did@
                &&& final(eng).pending@[old(eng).pending@.len() + k].challenge@
                    == msgs@[k].challenge@
                &&& exists|i: int|
                    0 <= i < store.identities@.len() && (#[trigger] store.identities@[i]).did@
                        == msgs@[k].did@ && !store.identities@[i].verified
                        && !store.identities@[i].unverifiable
            },
        // and every unknown peer gets a request
        forall|i: int|
            0 <= i < store.identities@.len() && !(#[trigger] store.identities@[i]).verified
                && !store.identities@[i].unverifiable ==> exists|k: int|
                0 <= k < msgs@.len() && (#[trigger] msgs@[k]).did@ == store.identities@[i].did@,
{
    let mut msgs: Vec<Did> = Vec::new();
    let mut i: usize = 0;
    while i < store.identities.len()
        invariant
            old(eng).wf(),
            eng.wf(),
            eng.attempts == old(eng).attempts,
            i <= store.identities@.len(),
            msgs@.len() == eng.pending@.len() - old(eng).pending@.len(),
            old(eng).pending@.len() <= eng.pending@.len(),
            forall|j: int|
                0 <= j < old(eng).pending@.len() ==> #[trigger] eng.pending@[j] == old(
                    eng,
                ).pending@[j],
            forall|k: int|
                0 <= k < msgs@.len() ==> {
                    &&& (#[trigger] msgs@[k]).proof_request == true
                    &&& msgs@[k].vc@.len() == 0
                    &&& msgs@[k].challenge@.len() == 30
                    &&& eng.pending@[old(eng).pending@.len() + k].did@ == msgs@[k].did@
                    &&& eng.pending@[old(eng).pending@.len() + k].challenge@ == msgs@[k].challenge@
                    &&& exists|q: int|
                        0 <= q < store.identities@.len() && (#[trigger] store.identities@[q]).did@
                            == msgs@[k].did@ && !store.identities@[q].verified
                            && !store.identities@[q].unverifiable
                },
            forall|q: int|
                0 <= q < i && !(#[trigger] store.identities@[q]).verified
                    && !store.identities@[q].unverifiable ==> exists|k: int|
                    0 <= k < msgs@.len() && (#[trigger] msgs@[k]).did@ == store.identities@[q].did@,
        decreases store.identities@.len() - i,
    {
        let ghost msgs0 = msgs@;
        if !store.identities[i].verified && !store.identities[i].unverifiable {
            let challenge = crate::random::generate_random_sequence();
            let did = copy_bytes(&store.identities[i].did);
            eng.pending.push(
                PendingChallenge { did: copy_bytes(&did), challenge: copy_bytes(&challenge) },
            );
            msgs.push(Did { did, challenge, vc: Vec::new(), proof_request: true });
            assert(msgs@[msgs@.len() - 1].did@ == store.identities@[i as int].did@);
        }
        proof {
            assert forall|q: int|
                0 <= q < i + 1 && !(#[trigger] store.identities@[q]).verified
                    && !store.identities@[q].unverifiable implies exists|k: int|
                0 <= k < msgs@.len() && (#[trigger] msgs@[k]).did@
                    == store.identities@[q].did@ by {
                if q < i as int {
                    let k0 = choose|k: int|
                        0 <= k < msgs0.len() && (#[trigger] msgs0[k]).did@
                            == store.identities@[q].did@;
                    assert(msgs@[k0].did@ == store.identities@[q].did@);
                } else {
                    assert(msgs@[msgs@.len() - 1].did@ == store.identities@[q].did@);
                }
            }
        }
        i = i + 1;
    }
    msgs
}


// ----- topic handlers: the stream plane -----

/// What saving an announcement link does to the stream table: the channel's
/// row is created with the link, or its announcement field is rewritten.
pub open spec fn ann_saved(a: Store, b: Store, cid: i32, link: Seq<u8>) -> bool {
    if has_stream(a, cid) {
        exists|i: int|
            {
                &&& 0 <= i < a.streams@.len()
                &&& (#[trigger] a.streams@[i]).channel_id == cid
                &&& b.streams@ == a.streams@.update(i, b.streams@[i])
                &&& crate::store::stream_step(
                    a.streams@[i],
                    b.streams@[i],
                    StreamField::Announcement,
                    link,
                    0,
                )
            }
    } else {
        &&& b.streams@ == a.streams@.push(b.streams@.last())
        &&& b.streams@.last().channel_id == cid
        &&& b.streams@.last().ann_link@ == link
        &&& b.streams@.last().sub_link@.len() == 0
        &&& b.streams@.last().key_link@.len() == 0
        &&& b.streams@.last().msg_link@.len() == 0
        &&& b.streams@.last().num_subs == 0
    }
}

/// Exactly what handling a `stream`-topic message does. The node's own
/// message is dropped with nothing changed; a first-seen peer is recorded,
/// unverified, and no existing peer row moves; a message from a peer not
/// verified is ignored. For a verified peer, the publisher admits a
/// subscription link, and a subscriber joins under an announcement link
/// (persisting it) or fetches an offered keyload. An error is possible only
/// for the node's own message, a peer table at its bound, or — on the
/// subscriber's verified-announcement arm — a missing channel row or a
/// stream table at its bound.
pub open spec fn stream_topic_post(
    s0: Store,
    s1: Store,
    role: Role,
    self_did: Seq<u8>,
    channel_key: Seq<u8>,
    m: StreamsModel,
    r: Result<Action, EngineError>,
) -> bool {
    &&& identities_evolve(s0, s1)
    &&& s1.things == s0.things
    &&& s1.channels == s0.channels
    &&& s1.identifications == s0.identifications
    &&& s1.sensor_types == s0.sensor_types
    &&& s1.sensors == s0.sensors
    &&& s1.sensor_data == s0.sensor_data
    &&& s1.configs == s0.configs
    &&& (m.did == self_did ==> s1 == s0)
    &&& (s1.identities@ == s0.identities@ || (s1.identities@ == s0.identities@.push(
        s1.identities@.last(),
    ) && s1.identities@.last().did@ == m.did && !s1.identities@.last().verified
        && !s1.identities@.last().unverifiable && !s1.identities@.last().subscribed))
    &&& (r is Err ==> {
        ||| m.did == self_did
        ||| (!has_identity(s0, m.did) && s0.identities@.len() == crate::store::max_rows())
        ||| (role is Subscriber && m.announcement_link.len() > 0 && peer_verified(s1, m.did)
            && !has_channel(s0, channel_key))
        ||| (role is Subscriber && m.announcement_link.len() > 0 && peer_verified(s1, m.did)
            && s0.streams@.len() == crate::store::max_rows())
    })
    &&& match r {
        Err(e) => {
            &&& (e == EngineError::SelfMessage <==> m.did == self_did)
            &&& s1.streams == s0.streams
        },
        Ok(a) => {
            &&& m.did != self_did
            &&& has_identity(s1, m.did)
            &&& match a {
                Action::AddSubscriber { sub_link } => {
                    &&& role is Publisher
                    &&& sub_link@ == m.subscription_link
                    &&& m.subscription_link.len() > 0
                    &&& peer_verified(s1, m.did)
                    &&& s1.streams == s0.streams
                },
                Action::CreateSubscriber { ann_link } => {
                    &&& role is Subscriber
                    &&& ann_link@ == m.announcement_link
                    &&& m.announcement_link.len() > 0
                    &&& peer_verified(s1, m.did)
                    &&& exists|c: int|
                        0 <= c < s0.channels@.len() && (#[trigger] s0.channels@[c]).channel_key@
                            == channel_key && ann_saved(
                            s0,
                            s1,
                            s0.channels@[c].id,
                            m.announcement_link,
                        )
                },
                Action::ReceiveKeyload { key_link } => {
                    &&& role is Subscriber
                    &&& key_link@ == m.keyload_link
                    &&& m.keyload_link.len() > 0
                    &&& m.announcement_link.len() == 0
                    &&& peer_verified(s1, m.did)
                    &&& s1.streams == s0.streams
                },
                Action::Idle => {
                    &&& s1.streams == s0.streams
                    &&& (role is Publisher ==> (m.subscription_link.len() == 0 || !peer_verified(
                        s1,
                        m.did,
                    )))
                    &&& (role is Subscriber ==> ((m.announcement_link.len() == 0
                        && m.keyload_link.len() == 0) || !peer_verified(s1, m.did)))
                },
                _ => false,
            }
        },
    }
}

/// Handle a message on the `stream` topic; see [`stream_topic_post`].
pub fn mqtt_streams(
    store: &mut Store,
    role: Role,
    self_did: &Vec<u8>,
    channel_key: &Vec<u8>,
    msg: &Streams,
) -> (r: Result<Action, EngineError>)
    requires
        old(store).wf(),
    ensures
        final(store).wf(),
        stream_topic_post(*old(store), *final(store), role, self_did@, channel_key@, msg@, r),
{
    if bytes_eq(&msg.did, self_did) {
        return Err(EngineError::SelfMessage);
    }
    let known = match store.select_identity(&msg.did) {
        Ok(_) => true,
        Err(_) => false,
    };
    if !known {
        match store.create_identity(&msg.did, false) {
            Ok(_) => (),
            Err(_) => {
                return Err(EngineError::StorageFailed);
            },
        };
    }
    let verified = match store.select_identity(&msg.did) {
        Ok(x) => {
            let ghost i = choose|i: int|
                0 <= i < store.identities@.len() && *x == #[trigger] store.identities@[i]
                    && store.identities@[i].did@ == msg@.did;
            proof {
                lemma_peer_at(*store, i);
            }
            x.verified
        },
        Err(_) => {
            return Err(EngineError::StorageFailed);
        },
    };
    match role {
        Role::Publisher => {
            if verified && msg.subscription_link.len() > 0 {
                Ok(Action::AddSubscriber { sub_link: copy_bytes(&msg.subscription_link) })
            } else {
                Ok(Action::Idle)
            }
        },
        Role::Subscriber => {
            if verified && msg.announcement_link.len() > 0 {
                let cid = match store.select_channel(channel_key) {
                    Ok(c) => c.id,
                    Err(_) => {
                        return Err(EngineError::StorageFailed);
                    },
                };
                let have = match store.select_stream(cid) {
                    Ok(_) => true,
                    Err(_) => false,
                };
                if have {
                    match store.update_stream(cid, StreamField::Announcement, &msg.announcement_link, 0) {
                        Ok(_) => (),
                        Err(_) => {
                            return Err(EngineError::StorageFailed);
                        },
                    };
                } else {
                    match store.create_stream(
                        StreamsEntry {
                            channel_id: cid,
                            ann_link: copy_bytes(&msg.announcement_link),
                            sub_link: Vec::new(),
                            key_link: Vec::new(),
                            msg_link: Vec::new(),
                        },
                    ) {
                        Ok(_) => (),
                        Err(_) => {
                            return Err(EngineError::StorageFailed);
                        },
                    };
                }
                Ok(Action::CreateSubscriber { ann_link: copy_bytes(&msg.announcement_link) })
            } else if verified && msg.keyload_link.len() > 0 {
                Ok(Action::ReceiveKeyload { key_link: copy_bytes(&msg.keyload_link) })
            } else {
                Ok(Action::Idle)
            }
        },
    }
}


// ----- results of stream-plane calls -----

/// What rewriting one field of the channel's stream row does.
pub open spec fn stream_field_saved(
    a: Store,
    b: Store,
    cid: i32,
    field: StreamField,
    link: Seq<u8>,
    num: i32,
) -> bool {
    exists|i: int|
        {
            &&& 0 <= i < a.streams@.len()
            &&& (#[trigger] a.streams@[i]).channel_id == cid
            &&& b.streams@ == a.streams@.update(i, b.streams@[i])
            &&& crate::store::stream_step(a.streams@[i], b.streams@[i], field, link, num)
        }
}

/// One field of the stream row of the channel recorded under this key was
/// rewritten.
pub open spec fn channel_stream_saved(
    a: Store,
    b: Store,
    key: Seq<u8>,
    field: StreamField,
    link: Seq<u8>,
    num: i32,
) -> bool {
    exists|c: int|
        0 <= c < a.channels@.len() && (#[trigger] a.channels@[c]).channel_key@ == key
            && stream_field_saved(a, b, a.channels@[c].id, field, link, num)
}

/// Record a successful admission: one more subscriber on the channel's
/// stream, the admitted peer marked subscribed; when the expected count is
/// reached, ask the driver to mint the keyload.
pub fn apply_add_subscriber(
    store: &mut Store,
    channel_key: &Vec<u8>,
    peer_did: &Vec<u8>,
    code: i32,
    total_num_subscribers: i32,
) -> (r: Result<Action, EngineError>)
    requires
        old(store).wf(),
    ensures
        final(store).wf(),
        identities_evolve(*old(store), *final(store)),
        final(store).things == old(store).things,
        final(store).channels == old(store).channels,
        final(store).identifications == old(store).identifications,
        final(store).sensor_types == old(store).sensor_types,
        final(store).sensors == old(store).sensors,
        final(store).sensor_data == old(store).sensor_data,
        final(store).configs == old(store).configs,
        code != 0 ==> r is Err && *final(store) == *old(store),
        match r {
            Ok(a) => {
                &&& code == 0
                &&& exists|c: int, i: int|
                    {
                        &&& 0 <= c < old(store).channels@.len()
                        &&& (#[trigger] old(store).channels@[c]).channel_key@ == channel_key@
                        &&& 0 <= i < old(store).streams@.len()
                        &&& (#[trigger] old(store).streams@[i]).channel_id == old(
                            store,
                        ).channels@[c].id
                        &&& final(store).streams@ == old(store).streams@.update(
                            i,
                            final(store).streams@[i],
                        )
                        &&& crate::store::stream_step(
                            old(store).streams@[i],
                            final(store).streams@[i],
                            StreamField::NumSubs,
                            Seq::<u8>::empty(),
                            (old(store).streams@[i].num_subs + 1) as i32,
                        )
                        &&& ((a is CreateKeyload) <==> old(store).streams@[i].num_subs + 1
                            == total_num_subscribers)
                    }
                &&& (peer_verified(*old(store), peer_did@) ==> peer_subscribed(
                    *final(store),
                    peer_did@,
                ))
                &&& match a {
                    Action::CreateKeyload => true,
                    Action::Idle => true,
                    _ => false,
                }
            },
            Err(_) => {
                &&& *final(store) == *old(store)
                &&& {
                    ||| code != 0
                    ||| !has_channel(*old(store), channel_key@)
                    ||| (exists|c: int|
                        0 <= c < old(store).channels@.len() && (
                        #[trigger] old(store).channels@[c]).channel_key@ == channel_key@
                            && !has_stream(*old(store), old(store).channels@[c].id))
                    ||| (exists|c: int, i: int|
                        {
                            &&& 0 <= c < old(store).channels@.len()
                            &&& (#[trigger] old(store).channels@[c]).channel_key@ == channel_key@
                            &&& 0 <= i < old(store).streams@.len()
                            &&& (#[trigger] old(store).streams@[i]).channel_id == old(
                                store,
                            ).channels@[c].id
                            &&& old(store).streams@[i].num_subs >= 0x7FFF_FFFE
                        })
                    ||| !has_identity(*old(store), peer_did@)
                }
            },
        },
{
    if code != 0 {
        return Err(EngineError::CallFailed);
    }
    let cid = match store.select_channel(channel_key) {
        Ok(c) => c.id,
        Err(_) => {
            return Err(EngineError::StorageFailed);
        },
    };
    let num = match store.select_stream(cid) {
        Ok(st) => st.num_subs,
        Err(_) => {
            return Err(EngineError::StorageFailed);
        },
    };
    if num >= 0x7FFF_FFFE {
        return Err(EngineError::StorageFailed);
    }
    let peer_known = match store.select_identity(peer_did) {
        Ok(_) => true,
        Err(_) => false,
    };
    if !peer_known {
        return Err(EngineError::StorageFailed);
    }
    let new_num = num + 1;
    let empty: Vec<u8> = Vec::new();
    match store.update_stream(cid, StreamField::NumSubs, &empty, new_num) {
        Ok(_) => (),
        Err(_) => {
            return Err(EngineError::StorageFailed);
        },
    };
    let ghost mid = *store;
    match store.update_identity_to_subscribed(peer_did, true) {
        Ok(_) => (),
        Err(_) => {
            return Err(EngineError::StorageFailed);
        },
    };
    proof {
        if peer_verified(*old(store), peer_did@) {
            let i = choose|i: int|
                {
                    &&& 0 <= i < mid.identities@.len()
                    &&& (#[trigger] mid.identities@[i]).did@ == peer_did@
                    &&& store.identities@ == mid.identities@.update(i, store.identities@[i])
                    &&& store.identities@[i].subscribed == (mid.identities@[i].subscribed || (true
                        && mid.identities@[i].verified))
                    &&& store.identities@[i].verified == mid.identities@[i].verified
                };
            lemma_peer_at(mid, i);
            lemma_peer_at(*store, i);
        }
    }
    if new_num == total_num_subscribers {
        Ok(Action::CreateKeyload)
    } else {
        Ok(Action::Idle)
    }
}

/// Persist a freshly minted keyload link and build the `stream` payload that
/// publishes it.
pub fn apply_keyload_created(
    store: &mut Store,
    channel_key: &Vec<u8>,
    key_link: &Vec<u8>,
    self_did: &Vec<u8>,
    self_vc: &Vec<u8>,
) -> (r: Result<Streams, EngineError>)
    requires
        old(store).wf(),
    ensures
        final(store).wf(),
        same_but_streams(*old(store), *final(store)),
        r is Err ==> !has_channel(*old(store), channel_key@) || (exists|c: int|
            0 <= c < old(store).channels@.len() && (#[trigger] old(store).channels@[c]).channel_key@
                == channel_key@ && !has_stream(*old(store), old(store).channels@[c].id)),
        match r {
            Ok(p) => {
                &&& channel_stream_saved(
                    *old(store),
                    *final(store),
                    channel_key@,
                    StreamField::Keyload,
                    key_link@,
                    0,
                )
                &&& p@.keyload_link == key_link@
                &&& p@.did == self_did@
                &&& p@.vc == self_vc@
                &&& p@.announcement_link.len() == 0
                &&& p@.subscription_link.len() == 0
            },
            Err(_) => *final(store) == *old(store),
        },
{
    let cid = match store.select_channel(channel_key) {
        Ok(c) => c.id,
        Err(_) => {
            return Err(EngineError::StorageFailed);
        },
    };
    match store.update_stream(cid, StreamField::Keyload, key_link, 0) {
        Ok(_) => (),
        Err(_) => {
            return Err(EngineError::StorageFailed);
        },
    };
    Ok(
        Streams {
            did: copy_bytes(self_did),
            vc: copy_bytes(self_vc),
            announcement_link: Vec::new(),
            subscription_link: Vec::new(),
            keyload_link: copy_bytes(key_link),
        },
    )
}

/// Persist the subscription link a successful join returned and build the
/// `stream` payload that sends it to the author.
pub fn apply_subscriber_created(
    store: &mut Store,
    channel_key: &Vec<u8>,
    sub_link: &Vec<u8>,
    code: i32,
    self_did: &Vec<u8>,
    self_vc: &Vec<u8>,
) -> (r: Result<Streams, EngineError>)
    requires
        old(store).wf(),
    ensures
        final(store).wf(),
        same_but_streams(*old(store), *final(store)),
        code != 0 ==> r is Err && *final(store) == *old(store),
        r is Err ==> code != 0 || !has_channel(*old(store), channel_key@) || (exists|c: int|
            0 <= c < old(store).channels@.len() && (#[trigger] old(store).channels@[c]).channel_key@
                == channel_key@ && !has_stream(*old(store), old(store).channels@[c].id)),
        match r {
            Ok(p) => {
                &&& code == 0
                &&& channel_stream_saved(
                    *old(store),
                    *final(store),
                    channel_key@,
                    StreamField::Subscription,
                    sub_link@,
                    0,
                )
                &&& p@.subscription_link == sub_link@
                &&& p@.did == self_did@
                &&& p@.vc == self_vc@
                &&& p@.announcement_link.len() == 0
                &&& p@.keyload_link.len() == 0
            },
            Err(_) => true,
        },
{
    if code != 0 {
        return Err(EngineError::CallFailed);
    }
    let cid = match store.select_channel(channel_key) {
        Ok(c) => c.id,
        Err(_) => {
            return Err(EngineError::StorageFailed);
        },
    };
    match store.update_stream(cid, StreamField::Subscription, sub_link, 0) {
        Ok(_) => (),
        Err(_) => {
            return Err(EngineError::StorageFailed);
        },
    };
    Ok(
        Streams {
            did: copy_bytes(self_did),
            vc: copy_bytes(self_vc),
            announcement_link: Vec::new(),
            subscription_link: copy_bytes(sub_link),
            keyload_link: Vec::new(),
        },
    )
}

/// Persist a keyload link the subscriber fetched with success, and mark the
/// offering author as the stream we are subscribed to.
pub fn apply_keyload_received(
    store: &mut Store,
    channel_key: &Vec<u8>,
    key_link: &Vec<u8>,
    code: i32,
    peer_did: &Vec<u8>,
) -> (r: Result<u32, EngineError>)
    requires
        old(store).wf(),
    ensures
        final(store).wf(),
        identities_evolve(*old(store), *final(store)),
        final(store).things == old(store).things,
        final(store).channels == old(store).channels,
        final(store).identifications == old(store).identifications,
        final(store).sensor_types == old(store).sensor_types,
        final(store).sensors == old(store).sensors,
        final(store).sensor_data == old(store).sensor_data,
        final(store).configs == old(store).configs,
        code != 0 ==> r is Err && *final(store) == *old(store),
        r is Ok ==> r == Ok::<u32, EngineError>(0),
        match r {
            Ok(_) => {
                &&& code == 0
                &&& channel_stream_saved(
                    *old(store),
                    *final(store),
                    channel_key@,
                    StreamField::Keyload,
                    key_link@,
                    0,
                )
                &&& (peer_verified(*old(store), peer_did@) ==> peer_subscribed(
                    *final(store),
                    peer_did@,
                ))
            },
            Err(_) => {
                &&& *final(store) == *old(store)
                &&& {
                    ||| code != 0
                    ||| !has_channel(*old(store), channel_key@)
                    ||| (exists|c: int|
                        0 <= c < old(store).channels@.len() && (
                        #[trigger] old(store).channels@[c]).channel_key@ == channel_key@
                            && !has_stream(*old(store), old(store).channels@[c].id))
                    ||| !has_identity(*old(store), peer_did@)
                }
            },
        },
{
    if code != 0 {
        return Err(EngineError::CallFailed);
    }
    let cid = match store.select_channel(channel_key) {
        Ok(c) => c.id,
        Err(_) => {
            return Err(EngineError::StorageFailed);
        },
    };
    let have_stream = match store.select_stream(cid) {
        Ok(_) => true,
        Err(_) => false,
    };
    if !have_stream {
        return Err(EngineError::StorageFailed);
    }
    let peer_known = match store.select_identity(peer_did) {
        Ok(_) => true,
        Err(_) => false,
    };
    if !peer_known {
        return Err(EngineError::StorageFailed);
    }
    match store.update_stream(cid, StreamField::Keyload, key_link, 0) {
        Ok(_) => (),
        Err(_) => {
            return Err(EngineError::StorageFailed);
        },
    };
    let ghost mid = *store;
    match store.update_identity_to_subscribed(peer_did, true) {
        Ok(_) => (),
        Err(_) => {
            return Err(EngineError::StorageFailed);
        },
    };
    proof {
        if peer_verified(*old(store), peer_did@) {
            let i = choose|i: int|
                {
                    &&& 0 <= i < mid.identities@.len()
                    &&& (#[trigger] mid.identities@[i]).did@ == peer_did@
                    &&& store.identities@ == mid.identities@.update(i, store.identities@[i])
                    &&& store.identities@[i].subscribed == (mid.identities@[i].subscribed || (true
                        && mid.identities@[i].verified))
                    &&& store.identities@[i].verified == mid.identities@[i].verified
                };
            lemma_peer_at(mid, i);
            lemma_peer_at(*store, i);
        }
    }
    Ok(0)
}

// ----- settings and command topics -----

/// Exactly what handling a `settings`-topic message does: a non-zero key
/// timestamp rewrites the thing's configuration row and hands the
/// certificate bytes out to be written; a zero timestamp changes nothing; an
/// error is possible only when the thing or its configuration row is
/// missing.
pub open spec fn settings_topic_post(
    s0: Store,
    s1: Store,
    thing_key: Seq<u8>,
    m: SettingModel,
    r: Result<Action, EngineError>,
) -> bool {
    &&& crate::store::same_but_configs(s0, s1)
    &&& (m.pk_timestamp == 0 ==> s1 == s0)
    &&& (r is Err ==> s1 == s0 && m.pk_timestamp != 0 && (!has_thing(s0, thing_key) || (exists|
        t: int,
    |
        0 <= t < s0.things@.len() && (#[trigger] s0.things@[t]).thing_key@ == thing_key
            && !crate::store::has_config(s0, s0.things@[t].id))))
    &&& match r {
        Ok(a) => match a {
            Action::Idle => m.pk_timestamp == 0 && s1 == s0,
            Action::WriteCaFile { pk } => {
                &&& m.pk_timestamp != 0
                &&& pk@ == m.pk
                &&& exists|i: int|
                    {
                        &&& 0 <= i < s0.configs@.len()
                        &&& s1.configs@ == s0.configs@.update(i, s1.configs@[i])
                        &&& (#[trigger] s1.configs@[i]).pk_timestamp == m.pk_timestamp
                        &&& s1.configs@[i].ip == s0.configs@[i].ip
                    }
            },
            _ => false,
        },
        Err(_) => true,
    }
}

/// Handle a message on the `settings` topic; see [`settings_topic_post`].
pub fn mqtt_settings(store: &mut Store, thing_key: &Vec<u8>, msg: &Setting) -> (r: Result<
    Action,
    EngineError,
>)
    requires
        old(store).wf(),
    ensures
        final(store).wf(),
        settings_topic_post(*old(store), *final(store), thing_key@, msg@, r),
{
    if msg.pk_timestamp == 0 {
        return Ok(Action::Idle);
    }
    let thing_id = match store.select_thing(thing_key) {
        Ok(t) => t.id,
        Err(_) => {
            return Err(EngineError::StorageFailed);
        },
    };
    let empty: Vec<u8> = Vec::new();
    match store.update_configuration(thing_id, crate::store::ConfigField::PkTimestamp, &empty, msg.pk_timestamp) {
        Ok(_) => (),
        Err(_) => {
            return Err(EngineError::StorageFailed);
        },
    };
    Ok(Action::WriteCaFile { pk: copy_bytes(&msg.pk) })
}

/// Handle a message on the reserved `command` topic: nothing is done.
pub fn mqtt_command(msg: &Command) -> (r: Result<u32, EngineError>)
    ensures
        r == Ok::<u32, EngineError>(0),
{
    let _ = msg;
    Ok(0)
}


// ----- receive: classify and dispatch -----

/// Dispatch one received `(topic, payload)` to its handler. A payload that
/// does not decode under its topic's schema is a protocol violation and is
/// dropped with nothing changed; on the identifier-bearing topics a message
/// naming this node's own identifier mutates nothing persistent.
pub fn dispatch_message(
    store: &mut Store,
    eng: &mut Engine,
    role: Role,
    self_did: &Vec<u8>,
    thing_key: &Vec<u8>,
    channel_key: &Vec<u8>,
    topic: Topic,
    payload: &Vec<u8>,
) -> (r: Result<Action, EngineError>)
    requires
        old(store).wf(),
        old(eng).wf(),
    ensures
        final(store).wf(),
        final(eng).wf(),
        identities_evolve(*old(store), *final(store)),
        // no self echo: a message embedding this node's identifier changes
        // nothing persistent
        (topic is Did && (spec_dec_did(payload@) matches Some(m) && m.did == self_did@))
            ==> *final(store) == *old(store) && *final(eng) == *old(eng),
        (topic is Identity && (spec_dec_did(payload@) matches Some(m) && m.did == self_did@))
            ==> *final(store) == *old(store) && *final(eng) == *old(eng),
        (topic is Stream && (spec_dec_streams(payload@) matches Some(m) && m.did == self_did@))
            ==> *final(store) == *old(store) && *final(eng) == *old(eng),
        // a malformed payload is refused with nothing changed
        (match topic {
            Topic::Did => spec_dec_did(payload@) is None,
            Topic::Identity => spec_dec_did(payload@) is None,
            Topic::Stream => spec_dec_streams(payload@) is None,
            Topic::Sensors => spec_dec_sensor(payload@) is None,
            Topic::Settings => spec_dec_setting(payload@) is None,
            Topic::Command => spec_dec_command(payload@) is None,
        }) ==> r == Err::<Action, EngineError>(EngineError::DecodeFailed) && *final(store) == *old(
            store,
        ) && *final(eng) == *old(eng),
        // on a well-formed payload the dispatched handler's own contract holds
        topic is Did ==> (match spec_dec_did(payload@) {
            Some(m) => *final(store) == *old(store) && identity_topic_post(
                *old(eng),
                *final(eng),
                self_did@,
                m,
                r,
            ),
            None => true,
        }),
        topic is Identity ==> (match spec_dec_did(payload@) {
            Some(m) => *final(store) == *old(store) && *final(eng) == *old(eng)
                && first_contact_post(self_did@, m, r),
            None => true,
        }),
        topic is Stream ==> (match spec_dec_streams(payload@) {
            Some(m) => *final(eng) == *old(eng) && stream_topic_post(
                *old(store),
                *final(store),
                role,
                self_did@,
                channel_key@,
                m,
                r,
            ),
            None => true,
        }),
        topic is Sensors ==> (match spec_dec_sensor(payload@) {
            Some(m) => *final(eng) == *old(eng) && if !has_channel(*old(store), channel_key@) {
                r == Err::<Action, EngineError>(EngineError::StorageFailed) && *final(store)
                    == *old(store)
            } else {
                &&& bus_ingest_post(*old(store), *final(store), m, r is Ok)
                &&& match r {
                    Ok(a) => a is Idle,
                    Err(_) => true,
                }
            },
            None => true,
        }),
        topic is Settings ==> (match spec_dec_setting(payload@) {
            Some(m) => *final(eng) == *old(eng) && settings_topic_post(
                *old(store),
                *final(store),
                thing_key@,
                m,
                r,
            ),
            None => true,
        }),
        topic is Command ==> (spec_dec_command(payload@) is Some ==> *final(store) == *old(store)
            && *final(eng) == *old(eng) && (match r {
            Ok(a) => a is Idle,
            Err(_) => false,
        })),
{
    match topic {
        Topic::Did => match crate::codec::decode_did(payload) {
            None => Err(EngineError::DecodeFailed),
            Some(m) => mqtt_identity(eng, self_did, &m),
        },
        Topic::Identity => match crate::codec::decode_did(payload) {
            None => Err(EngineError::DecodeFailed),
            Some(m) => match mqtt_first_verification(self_did, &m) {
                Ok(a) => Ok(a),
                Err(e) => Err(e),
            },
        },
        Topic::Stream => match crate::codec::decode_streams(payload) {
            None => Err(EngineError::DecodeFailed),
            Some(m) => mqtt_streams(store, role, self_did, channel_key, &m),
        },
        Topic::Sensors => match crate::codec::decode_sensor(payload) {
            None => Err(EngineError::DecodeFailed),
            Some(m) => {
                let cid = match store.select_channel(channel_key) {
                    Ok(c) => c.id,
                    Err(_) => {
                        return Err(EngineError::StorageFailed);
                    },
                };
                match save_mqtt_sensor_data(store, cid, &m) {
                    Ok(_) => Ok(Action::Idle),
                    Err(e) => Err(e),
                }
            },
        },
        Topic::Settings => match crate::codec::decode_setting(payload) {
            None => Err(EngineError::DecodeFailed),
            Some(m) => mqtt_settings(store, thing_key, &m),
        },
        Topic::Command => match crate::codec::decode_command(payload) {
            None => Err(EngineError::DecodeFailed),
            Some(m) => match mqtt_command(&m) {
                Ok(_) => Ok(Action::Idle),
                Err(e) => Err(e),
            },
        },
    }
}

// ----- the publisher's send path -----


/// A pending reading that cannot be batched for the bus: its catalog rows
/// are missing, or a joined field does not fit the wire format.
pub open spec fn bus_row_blocked(s: Store, ri: int) -> bool
    recommends
        0 <= ri < s.sensor_data@.len(),
{
    &&& !s.sensor_data@[ri].mqtt
    &&& if !(1 <= s.sensor_data@[ri].sensor_id <= s.sensors@.len()) {
        true
    } else {
        let sn = s.sensors@[s.sensor_data@[ri].sensor_id - 1];
        if !(1 <= sn.sensor_types_id <= s.sensor_types@.len()) {
            true
        } else {
            ||| sn.sensor_id@.len() > crate::codec::max_field_len()
            ||| sn.sensor_name@.len() > crate::codec::max_field_len()
            ||| s.sensor_types@[sn.sensor_types_id - 1].description@.len()
                > crate::codec::max_field_len()
            ||| s.sensor_types@[sn.sensor_types_id - 1].unit@.len() > crate::codec::max_field_len()
            ||| s.sensor_data@[ri].sensor_value@.len() > crate::codec::max_field_len()
        }
    }
}

/// A confirmed reading that cannot be batched for the ledger: its catalog
/// rows are missing.
pub open spec fn ledger_row_blocked(s: Store, ri: int) -> bool
    recommends
        0 <= ri < s.sensor_data@.len(),
{
    &&& !s.sensor_data@[ri].iota
    &&& s.sensor_data@[ri].verified
    &&& (!(1 <= s.sensor_data@[ri].sensor_id <= s.sensors@.len()) || !(1 <= s.sensors@[s.sensor_data@[ri].sensor_id - 1].sensor_types_id <= s.sensor_types@.len()))
}

/// The collected batch `v` holds exactly the unsent rows among the first
/// `upto` readings, in order, each joined with its catalog rows and
/// encodable.
pub open spec fn unsent_collected(s: Store, v: Seq<(i32, SensorMsg)>, upto: int) -> bool {
    &&& forall|k: int|
        0 <= k < v.len() ==> {
            &&& 1 <= (#[trigger] v[k]).0 <= upto
            &&& !s.sensor_data@[v[k].0 - 1].mqtt
            &&& crate::codec::sensor_encodable(v[k].1@)
            &&& catalog_match_at(
                s,
                v[k].0 - 1,
                v[k].1@.sensor_id,
                v[k].1@.name,
                v[k].1@.typ,
                v[k].1@.value,
                v[k].1@.unit,
                v[k].1@.timestamp,
            )
        }
    &&& forall|k1: int, k2: int| 0 <= k1 < k2 < v.len() ==> v[k1].0 < v[k2].0
    &&& forall|ri: int|
        0 <= ri < upto && !(#[trigger] s.sensor_data@[ri]).mqtt ==> exists|k: int|
            0 <= k < v.len() && (#[trigger] v[k]).0 == ri + 1
}

/// Every reading still unsent on the bus, as `(row id, payload)`, in table
/// order and completely; each payload carries the reading's fields joined
/// with its catalog rows and is encodable.
#[verifier::rlimit(60)]
pub fn collect_unsent_mqtt(store: &Store) -> (r: Result<Vec<(i32, SensorMsg)>, EngineError>)
    requires
        store.wf(),
    ensures
        match r {
            Ok(v) => unsent_collected(*store, v@, store.sensor_data@.len() as int),
            Err(_) => exists|ri: int|
                0 <= ri < store.sensor_data@.len() && bus_row_blocked(*store, ri),
        },
{
    let mut v: Vec<(i32, SensorMsg)> = Vec::new();
    let mut i: usize = 0;
    while i < store.sensor_data.len()
        invariant
            store.wf(),
            i <= store.sensor_data@.len(),
            unsent_collected(*store, v@, i as int),
        decreases store.sensor_data@.len() - i,
    {
        let ghost v0 = v@;
        if !store.sensor_data[i].mqtt {
            let sid = store.sensor_data[i].sensor_id;
            let (type_id, s_key, s_name) = match store.select_sensor(sid) {
                Ok(sn) => (sn.sensor_types_id, copy_bytes(&sn.sensor_id), copy_bytes(&sn.sensor_name)),
                Err(_) => {
                    proof {
                        assert(bus_row_blocked(*store, i as int));
                    }
                    return Err(EngineError::StorageFailed);
                },
            };
            let (t_desc, t_unit) = match store.select_sensor_type_by_id(type_id) {
                Ok(st) => (copy_bytes(&st.description), copy_bytes(&st.unit)),
                Err(_) => {
                    proof {
                        assert(bus_row_blocked(*store, i as int));
                    }
                    return Err(EngineError::StorageFailed);
                },
            };
            let val = copy_bytes(&store.sensor_data[i].sensor_value);
            if s_key.len() > 0xFFFF_FFFF || s_name.len() > 0xFFFF_FFFF || t_desc.len()
                > 0xFFFF_FFFF || t_unit.len() > 0xFFFF_FFFF || val.len() > 0xFFFF_FFFF {
                proof {
                    assert(bus_row_blocked(*store, i as int));
                }
                return Err(EngineError::StorageFailed);
            }
            let msg = SensorMsg {
                sensor_id: s_key,
                name: s_name,
                typ: t_desc,
                value: val,
                unit: t_unit,
                timestamp: store.sensor_data[i].sensor_time,
            };
            let row_id = store.sensor_data[i].id;
            v.push((row_id, msg));
            proof {
                assert(v@[v@.len() - 1].0 == i + 1);
                assert(catalog_match_at(
                    *store,
                    i as int,
                    v@[v@.len() - 1].1@.sensor_id,
                    v@[v@.len() - 1].1@.name,
                    v@[v@.len() - 1].1@.typ,
                    v@[v@.len() - 1].1@.value,
                    v@[v@.len() - 1].1@.unit,
                    v@[v@.len() - 1].1@.timestamp,
                )) by {
                    assert(store.sensors@[sid - 1].id == sid);
                    assert(store.sensor_types@[type_id - 1].id == type_id);
                }
            }
        }
        proof {
            assert forall|ri: int|
                0 <= ri < i + 1 && !(#[trigger] store.sensor_data@[ri]).mqtt implies exists|k: int|
                0 <= k < v@.len() && (#[trigger] v@[k]).0 == ri + 1 by {
                if ri < i as int {
                    let k0 = choose|k: int| 0 <= k < v0.len() && (#[trigger] v0[k]).0 == ri + 1;
                    assert(v@[k0].0 == ri + 1);
                } else {
                    assert(v@[v@.len() - 1].0 == ri + 1);
                }
            }
        }
        i = i + 1;
    }
    Ok(v)
}

/// Persist the link a successful ledger send returned and mark the row
/// anchored. Refused, with nothing changed, while the channel's keyload link
/// is empty: a reading is never marked anchored through a closed gate.
pub fn mark_anchored(
    store: &mut Store,
    channel_key: &Vec<u8>,
    row_id: i32,
    new_msg_link: &Vec<u8>,
) -> (r: Result<u32, EngineError>)
    requires
        old(store).wf(),
    ensures
        final(store).wf(),
        final(store).things == old(store).things,
        final(store).channels == old(store).channels,
        final(store).identifications == old(store).identifications,
        final(store).identities == old(store).identities,
        final(store).sensor_types == old(store).sensor_types,
        final(store).sensors == old(store).sensors,
        final(store).configs == old(store).configs,
        r is Ok ==> r == Ok::<u32, EngineError>(0),
        match r {
            Ok(_) => {
                &&& 1 <= row_id <= old(store).sensor_data@.len()
                &&& final(store).sensor_data@ == old(store).sensor_data@.update(
                    row_id - 1,
                    final(store).sensor_data@[row_id - 1],
                )
                &&& crate::store::reading_step(
                    old(store).sensor_data@[row_id - 1],
                    final(store).sensor_data@[row_id - 1],
                    SensorFlag::Iota,
                    true,
                )
                &&& crate::store::iota_permitted(
                    *old(store),
                    old(store).sensor_data@[row_id - 1].sensor_id,
                )
                &&& channel_stream_saved(
                    *old(store),
                    *final(store),
                    channel_key@,
                    StreamField::MsgLink,
                    new_msg_link@,
                    0,
                )
            },
            Err(_) => {
                &&& *final(store) == *old(store)
                &&& {
                    ||| !has_channel(*old(store), channel_key@)
                    ||| (exists|c: int|
                        0 <= c < old(store).channels@.len() && (
                        #[trigger] old(store).channels@[c]).channel_key@ == channel_key@
                            && !has_stream(*old(store), old(store).channels@[c].id))
                    ||| !(1 <= row_id <= old(store).sensor_data@.len())
                    ||| (1 <= row_id <= old(store).sensor_data@.len()
                        && !crate::store::iota_permitted(
                        *old(store),
                        old(store).sensor_data@[row_id - 1].sensor_id,
                    ))
                }
            },
        },
{
    let cid = match store.select_channel(channel_key) {
        Ok(c) => c.id,
        Err(_) => {
            return Err(EngineError::StorageFailed);
        },
    };
    let have_stream = match store.select_stream(cid) {
        Ok(_) => true,
        Err(_) => false,
    };
    if !have_stream {
        return Err(EngineError::StorageFailed);
    }
    if !(row_id >= 1 && (row_id as usize) <= store.sensor_data.len()) {
        return Err(EngineError::StorageFailed);
    }
    let sid = store.sensor_data[(row_id - 1) as usize].sensor_id;
    if !store.check_iota_permitted(sid) {
        return Err(EngineError::KeyloadMissing);
    }
    match store.update_stream(cid, StreamField::MsgLink, new_msg_link, 0) {
        Ok(_) => (),
        Err(_) => {
            return Err(EngineError::StorageFailed);
        },
    };
    proof {
        assert(crate::store::iota_permitted(*store, sid)) by {
            let (i, j) = choose|i: int, j: int|
                {
                    &&& 0 <= i < old(store).sensors@.len()
                    &&& 0 <= j < old(store).streams@.len()
                    &&& (#[trigger] old(store).sensors@[i]).id == sid
                    &&& (#[trigger] old(store).streams@[j]).channel_id
                        == old(store).sensors@[i].channel_id
                    &&& old(store).streams@[j].key_link@.len() > 0
                };
            assert(store.streams@[j].key_link@.len() > 0);
        }
    }
    match store.update_sensor_entry(row_id, SensorFlag::Iota, true) {
        Ok(_) => (),
        Err(_) => {
            return Err(EngineError::KeyloadMissing);
        },
    };
    Ok(0)
}

/// The `stream` payload that re-publishes the channel's announcement link to
/// solicit subscribers (sent while the keyload is still missing).
pub fn send_announcement(
    store: &Store,
    channel_key: &Vec<u8>,
    self_did: &Vec<u8>,
    self_vc: &Vec<u8>,
) -> (r: Result<Streams, EngineError>)
    requires
        store.wf(),
    ensures
        r is Err ==> !has_channel(*store, channel_key@) || (exists|c: int|
            0 <= c < store.channels@.len() && (#[trigger] store.channels@[c]).channel_key@
                == channel_key@ && !has_stream(*store, store.channels@[c].id)),
        match r {
            Ok(p) => {
                &&& p@.did == self_did@
                &&& p@.vc == self_vc@
                &&& p@.subscription_link.len() == 0
                &&& p@.keyload_link.len() == 0
                &&& exists|c: int, i: int|
                    {
                        &&& 0 <= c < store.channels@.len()
                        &&& (#[trigger] store.channels@[c]).channel_key@ == channel_key@
                        &&& 0 <= i < store.streams@.len()
                        &&& (#[trigger] store.streams@[i]).channel_id == store.channels@[c].id
                        &&& p@.announcement_link == store.streams@[i].ann_link@
                    }
            },
            Err(_) => true,
        },
{
    let cid = match store.select_channel(channel_key) {
        Ok(c) => c.id,
        Err(_) => {
            return Err(EngineError::StorageFailed);
        },
    };
    let ann = match store.select_stream(cid) {
        Ok(st) => copy_bytes(&st.ann_link),
        Err(_) => {
            return Err(EngineError::StorageFailed);
        },
    };
    Ok(
        Streams {
            did: copy_bytes(self_did),
            vc: copy_bytes(self_vc),
            announcement_link: ann,
            subscription_link: Vec::new(),
            keyload_link: Vec::new(),
        },
    )
}


/// The collected batch `v` holds exactly the confirmed-but-unanchored rows
/// among the first `upto` readings, in order, each joined with its catalog
/// rows and stamped with this node's identifier and credential.
pub open spec fn unanchored_collected(
    s: Store,
    v: Seq<(i32, LedgerReading)>,
    upto: int,
    did: Seq<u8>,
    vc: Seq<u8>,
) -> bool {
    &&& forall|k: int|
        0 <= k < v.len() ==> {
            &&& 1 <= (#[trigger] v[k]).0 <= upto
            &&& !s.sensor_data@[v[k].0 - 1].iota
            &&& s.sensor_data@[v[k].0 - 1].verified
            &&& v[k].1@.did == did
            &&& v[k].1@.vc == vc
            &&& catalog_match_at(
                s,
                v[k].0 - 1,
                v[k].1@.sensor_id,
                v[k].1@.sensor_name,
                v[k].1@.sensor_type,
                v[k].1@.value,
                v[k].1@.unit,
                v[k].1@.timestamp,
            )
        }
    &&& forall|k1: int, k2: int| 0 <= k1 < k2 < v.len() ==> v[k1].0 < v[k2].0
    &&& forall|ri: int|
        0 <= ri < upto && !(#[trigger] s.sensor_data@[ri]).iota && s.sensor_data@[ri].verified
            ==> exists|k: int| 0 <= k < v.len() && (#[trigger] v[k]).0 == ri + 1
}

/// Every confirmed reading not yet anchored, as `(row id, ledger reading)`,
/// with the link the next send must chain from. Refused while the channel's
/// keyload link is empty: nothing is anchored through a closed gate.
#[verifier::rlimit(60)]
pub fn collect_unanchored(
    store: &Store,
    channel_key: &Vec<u8>,
    self_did: &Vec<u8>,
    self_vc: &Vec<u8>,
) -> (r: Result<(Vec<(i32, LedgerReading)>, Vec<u8>), EngineError>)
    requires
        store.wf(),
    ensures
        match r {
            Ok(p) => {
                &&& unanchored_collected(
                    *store,
                    p.0@,
                    store.sensor_data@.len() as int,
                    self_did@,
                    self_vc@,
                )
                &&& exists|c: int, i: int|
                    {
                        &&& 0 <= c < store.channels@.len()
                        &&& (#[trigger] store.channels@[c]).channel_key@ == channel_key@
                        &&& 0 <= i < store.streams@.len()
                        &&& (#[trigger] store.streams@[i]).channel_id == store.channels@[c].id
                        &&& store.streams@[i].key_link@.len() > 0
                        &&& p.1@ == if store.streams@[i].msg_link@.len() > 0 {
                            store.streams@[i].msg_link@
                        } else {
                            store.streams@[i].key_link@
                        }
                    }
            },
            Err(_) => {
                ||| !has_channel(*store, channel_key@)
                ||| (exists|c: int|
                    0 <= c < store.channels@.len() && (#[trigger] store.channels@[c]).channel_key@
                        == channel_key@ && !has_stream(*store, store.channels@[c].id))
                ||| (exists|c: int, i: int|
                    {
                        &&& 0 <= c < store.channels@.len()
                        &&& (#[trigger] store.channels@[c]).channel_key@ == channel_key@
                        &&& 0 <= i < store.streams@.len()
                        &&& (#[trigger] store.streams@[i]).channel_id == store.channels@[c].id
                        &&& store.streams@[i].key_link@.len() == 0
                    })
                ||| (exists|ri: int|
                    0 <= ri < store.sensor_data@.len() && ledger_row_blocked(*store, ri))
            },
        },
{
    let cid = match store.select_channel(channel_key) {
        Ok(c) => c.id,
        Err(_) => {
            return Err(EngineError::StorageFailed);
        },
    };
    let start: Vec<u8> = match store.select_stream(cid) {
        Ok(st) => {
            if st.key_link.len() == 0 {
                return Err(EngineError::KeyloadMissing);
            }
            if st.msg_link.len() > 0 {
                copy_bytes(&st.msg_link)
            } else {
                copy_bytes(&st.key_link)
            }
        },
        Err(_) => {
            return Err(EngineError::KeyloadMissing);
        },
    };
    let mut v: Vec<(i32, LedgerReading)> = Vec::new();
    let mut i: usize = 0;
    while i < store.sensor_data.len()
        invariant
            store.wf(),
            i <= store.sensor_data@.len(),
            unanchored_collected(*store, v@, i as int, self_did@, self_vc@),
        decreases store.sensor_data@.len() - i,
    {
        let ghost v0 = v@;
        if !store.sensor_data[i].iota && store.sensor_data[i].verified {
            let sid = store.sensor_data[i].sensor_id;
            let (type_id, s_key, s_name) = match store.select_sensor(sid) {
                Ok(sn) => (sn.sensor_types_id, copy_bytes(&sn.sensor_id), copy_bytes(&sn.sensor_name)),
                Err(_) => {
                    proof {
                        assert(ledger_row_blocked(*store, i as int));
                    }
                    return Err(EngineError::StorageFailed);
                },
            };
            let (t_desc, t_unit) = match store.select_sensor_type_by_id(type_id) {
                Ok(st) => (copy_bytes(&st.description), copy_bytes(&st.unit)),
                Err(_) => {
                    proof {
                        assert(ledger_row_blocked(*store, i as int));
                    }
                    return Err(EngineError::StorageFailed);
                },
            };
            let reading = LedgerReading {
                did: copy_bytes(self_did),
                vc: copy_bytes(self_vc),
                sensor_id: s_key,
                sensor_name: s_name,
                sensor_type: t_desc,
                value: copy_bytes(&store.sensor_data[i].sensor_value),
                unit: t_unit,
                timestamp: store.sensor_data[i].sensor_time,
            };
            let row_id = store.sensor_data[i].id;
            v.push((row_id, reading));
            proof {
                assert(v@[v@.len() - 1].0 == i + 1);
                assert(catalog_match_at(
                    *store,
                    i as int,
                    v@[v@.len() - 1].1@.sensor_id,
                    v@[v@.len() - 1].1@.sensor_name,
                    v@[v@.len() - 1].1@.sensor_type,
                    v@[v@.len() - 1].1@.value,
                    v@[v@.len() - 1].1@.unit,
                    v@[v@.len() - 1].1@.timestamp,
                )) by {
                    assert(store.sensors@[sid - 1].id == sid);
                    assert(store.sensor_types@[type_id - 1].id == type_id);
                }
            }
        }
        proof {
            assert forall|ri: int|
                0 <= ri < i + 1 && !(#[trigger] store.sensor_data@[ri]).iota
                    && store.sensor_data@[ri].verified implies exists|k: int|
                0 <= k < v@.len() && (#[trigger] v@[k]).0 == ri + 1 by {
                if ri < i as int {
                    let k0 = choose|k: int| 0 <= k < v0.len() && (#[trigger] v0[k]).0 == ri + 1;
                    assert(v@[k0].0 == ri + 1);
                } else {
                    assert(v@[v@.len() - 1].0 == ri + 1);
                }
            }
        }
        i = i + 1;
    }
    Ok((v, start))
}


// ----- sensor intake -----

/// Persist one reading handed over by a sensor driver, as pending on both
/// planes. Refused when the sensor is not catalogued, or when a reading for
/// the same `(sensor, timestamp)` pair already exists.
pub fn receive_sensor_data(
    store: &mut Store,
    sensor_key: &Vec<u8>,
    value: &Vec<u8>,
    timestamp: i64,
) -> (r: Result<(), EngineError>)
    requires
        old(store).wf(),
    ensures
        final(store).wf(),
        same_but_sensor_tables(*old(store), *final(store)),
        final(store).sensors == old(store).sensors,
        final(store).sensor_types == old(store).sensor_types,
        r is Err ==> !has_sensor(*old(store), sensor_key@) || (exists|i: int|
            0 <= i < old(store).sensors@.len() && (#[trigger] old(store).sensors@[i]).sensor_id@
                == sensor_key@ && has_reading(*old(store), old(store).sensors@[i].id, timestamp))
            || old(store).sensor_data@.len() == crate::store::max_rows(),
        match r {
            Ok(_) => {
                &&& final(store).sensor_data@ == old(store).sensor_data@.push(
                    final(store).sensor_data@.last(),
                )
                &&& final(store).sensor_data@.last().sensor_value@ == value@
                &&& final(store).sensor_data@.last().sensor_time == timestamp
                &&& final(store).sensor_data@.last().mqtt == false
                &&& final(store).sensor_data@.last().iota == false
                &&& final(store).sensor_data@.last().verified == false
                &&& exists|i: int|
                    0 <= i < old(store).sensors@.len() && (
                    #[trigger] old(store).sensors@[i]).sensor_id@ == sensor_key@ && old(
                        store,
                    ).sensors@[i].id == final(store).sensor_data@.last().sensor_id
            },
            Err(_) => {
                &&& final(store).sensor_data == old(store).sensor_data
                &&& (!has_sensor(*old(store), sensor_key@) ==> *final(store) == *old(store))
            },
        },
{
    let sid = match store.select_sensor_by_name(sensor_key) {
        Ok(sn) => sn.id,
        Err(_) => {
            return Err(EngineError::StorageFailed);
        },
    };
    match store.create_sensor_data(
        SensorDataEntry {
            sensor_id: sid,
            sensor_value: copy_bytes(value),
            sensor_time: timestamp,
            mqtt: false,
            iota: false,
            verified: false,
        },
    ) {
        Ok(_) => Ok(()),
        Err(_) => Err(EngineError::StorageFailed),
    }
}



} // verus!
