//! The library's cross-cutting laws, stated once over the models that the
//! function contracts use.
//!
//! Each mutating function of the store and the engine carries its own exact
//! contract; the lemmas here state what those contracts add up to: peer
//! state only ever climbs the verification lattice, the readings table never
//! holds a duplicate pair, and a reading seen on both planes converges to
//! the fully confirmed state.

use vstd::prelude::*;

use crate::engine::{catalog_match_at, ingest_outcome};
use crate::store::{has_reading, identities_evolve, identity_evolves, Store};

verus! {

/// Law: peer evolution is reflexive and transitive, so across any run of
/// engine steps every peer's `(verified, unverifiable, subscribed)` flags
/// climb the lattice monotonically: `verified` and `subscribed` never fall,
/// `unverifiable` is terminal, and an unverifiable peer's `verified` flag is
/// frozen. Each mutating function ensures `identities_evolve` for its own
/// step; this lemma chains those steps.
pub proof fn lemma_identity_evolution_transitive(s0: Store, s1: Store, s2: Store)
    requires
        identities_evolve(s0, s1),
        identities_evolve(s1, s2),
    ensures
        identities_evolve(s0, s2),
{
    assert forall|i: int| 0 <= i < s0.identities@.len() implies identity_evolves(
        #[trigger] s0.identities@[i],
        #[trigger] s2.identities@[i],
    ) by {
        assert(identity_evolves(s0.identities@[i], s1.identities@[i]));
        assert(identity_evolves(s1.identities@[i], s2.identities@[i]));
    }
}

/// Law: a well-formed store holds at most one reading per
/// `(sensor_id, timestamp)` pair; every mutation preserves well-formedness,
/// so no run ever duplicates a reading.
pub proof fn lemma_readings_unique(s: Store)
    requires
        s.wf(),
    ensures
        forall|i: int, j: int|
            0 <= i < j < s.sensor_data@.len() ==> !(#[trigger] s.sensor_data@[i].sensor_id
                == #[trigger] s.sensor_data@[j].sensor_id && s.sensor_data@[i].sensor_time
                == s.sensor_data@[j].sensor_time),
{
}

/// Law: cross-plane convergence. If a reading is first recorded from one
/// plane and the other plane later delivers a copy whose comparable fields
/// agree, then after the second ingest the row for that
/// `(sensor, timestamp)` pair is flagged as seen on the bus, anchored on the
/// ledger, and verified — whichever plane came first.
pub proof fn lemma_cross_plane_convergence(
    a: Store,
    b: Store,
    c: Store,
    sid: i32,
    m_sensor_id: Seq<u8>,
    m_name: Seq<u8>,
    m_typ: Seq<u8>,
    m_value: Seq<u8>,
    m_unit: Seq<u8>,
    m_timestamp: i64,
    first_from_bus: bool,
)
    requires
        !has_reading(a, sid, m_timestamp),
        ingest_outcome(
            a,
            b,
            sid,
            m_sensor_id,
            m_name,
            m_typ,
            m_value,
            m_unit,
            m_timestamp,
            first_from_bus,
        ),
        ingest_outcome(
            b,
            c,
            sid,
            m_sensor_id,
            m_name,
            m_typ,
            m_value,
            m_unit,
            m_timestamp,
            !first_from_bus,
        ),
        catalog_match_at(
            c,
            a.sensor_data@.len() as int,
            m_sensor_id,
            m_name,
            m_typ,
            m_value,
            m_unit,
            m_timestamp,
        ),
    ensures
        exists|ri: int|
            {
                &&& 0 <= ri < c.sensor_data@.len()
                &&& (#[trigger] c.sensor_data@[ri]).sensor_id == sid
                &&& c.sensor_data@[ri].sensor_time == m_timestamp
                &&& c.sensor_data@[ri].mqtt
                &&& c.sensor_data@[ri].iota
                &&& c.sensor_data@[ri].verified
            },
{
    let ri = a.sensor_data@.len() as int;
    assert(b.sensor_data@[ri].sensor_id == sid);
    assert(b.sensor_data@[ri].sensor_time == m_timestamp);
    assert(has_reading(b, sid, m_timestamp));
    assert(c.sensor_data@[ri].mqtt && c.sensor_data@[ri].iota && c.sensor_data@[ri].verified);
}

} // verus!
