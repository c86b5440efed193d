//! One-shot initialization: ensure the local rows exist, record the minted
//! identity, the external address and the sensor catalog, and open the
//! ledger stream.
//!
//! Every step here is idempotent: run against a store that already holds its
//! rows, it inserts nothing and changes nothing. The outside calls of the
//! startup sequence (minting the identity, creating the stream author,
//! learning the external address) happen in the driver; their results are
//! handed to the `apply` functions below only when the row was missing.

use vstd::prelude::*;

use crate::codec::{Did, Streams};
use crate::engine::EngineError;
use crate::models::{copy_bytes, StreamsEntry};
use crate::store::{
    has_channel, has_config, has_identification, has_stream, has_thing, same_but_configs,
    same_but_streams, ConfigField, Store,
};

verus! {

/// A sensor as configured for this device.
pub struct ConfiguredSensor {
    pub sensor_id: Vec<u8>,
    pub sensor_name: Vec<u8>,
    pub type_descr: Vec<u8>,
    pub unit: Vec<u8>,
}

/// Ensure the thing row and one channel row per configured key exist.
/// Re-run on an initialized store, this inserts nothing: the store is
/// returned exactly as it was.
pub fn init_rows(store: &mut Store, thing_key: &Vec<u8>, channel_keys: &Vec<Vec<u8>>) -> (r: Result<
    i32,
    EngineError,
>)
    requires
        old(store).wf(),
    ensures
        final(store).wf(),
        final(store).identifications == old(store).identifications,
        final(store).identities == old(store).identities,
        final(store).streams == old(store).streams,
        final(store).sensor_types == old(store).sensor_types,
        final(store).sensors == old(store).sensors,
        final(store).sensor_data == old(store).sensor_data,
        final(store).configs == old(store).configs,
        (has_thing(*old(store), thing_key@) && (forall|k: int|
            0 <= k < channel_keys@.len() ==> has_channel(
                *old(store),
                #[trigger] channel_keys@[k]@,
            ))) ==> *final(store) == *old(store),
        r is Err ==> (!has_thing(*old(store), thing_key@) && old(store).things@.len()
            == crate::store::max_rows()) || old(store).channels@.len() + channel_keys@.len()
            > crate::store::max_rows(),
        match r {
            Ok(tid) => {
                &&& has_thing(*final(store), thing_key@)
                &&& exists|i: int|
                    0 <= i < final(store).things@.len() && (
                    #[trigger] final(store).things@[i]).thing_key@ == thing_key@
                        && final(store).things@[i].id == tid
                &&& forall|k: int|
                    0 <= k < channel_keys@.len() ==> has_channel(
                        *final(store),
                        #[trigger] channel_keys@[k]@,
                    )
            },
            Err(_) => true,
        },
{
    let _ = store.create_thing(thing_key);
    let tid = match store.select_thing(thing_key) {
        Ok(t) => t.id,
        Err(_) => {
            return Err(EngineError::StorageFailed);
        },
    };
    let mut k: usize = 0;
    while k < channel_keys.len()
        invariant
            store.wf(),
            k <= channel_keys@.len(),
            store.identifications == old(store).identifications,
            store.identities == old(store).identities,
            store.streams == old(store).streams,
            store.sensor_types == old(store).sensor_types,
            store.sensors == old(store).sensors,
            store.sensor_data == old(store).sensor_data,
            store.configs == old(store).configs,
            store.things == old(store).things || !has_thing(*old(store), thing_key@),
            has_thing(*store, thing_key@),
            store.channels@.len() <= old(store).channels@.len() + k,
            exists|i: int|
                0 <= i < store.things@.len() && (#[trigger] store.things@[i]).thing_key@
                    == thing_key@ && store.things@[i].id == tid,
            (forall|q: int|
                0 <= q < k ==> has_channel(*old(store), #[trigger] channel_keys@[q]@)) ==> store.channels
                == old(store).channels,
            forall|q: int| 0 <= q < k ==> has_channel(*store, #[trigger] channel_keys@[q]@),
        decreases channel_keys@.len() - k,
    {
        let ghost pre = *store;
        let _ = store.create_channel(tid, &channel_keys[k]);
        let present = match store.select_channel(&channel_keys[k]) {
            Ok(_) => true,
            Err(_) => false,
        };
        if !present {
            return Err(EngineError::StorageFailed);
        }
        proof {
            assert forall|q: int|
                0 <= q < k + 1 implies has_channel(*store, #[trigger] channel_keys@[q]@) by {
                if q < k as int {
                    let w = choose|i: int|
                        0 <= i < pre.channels@.len() && #[trigger] pre.channels@[i].channel_key@
                            == channel_keys@[q]@;
                    assert(store.channels@[w].channel_key@ == channel_keys@[q]@);
                }
            }
        }
        k = k + 1;
    }
    Ok(tid)
}

/// Record a freshly minted identity for the thing and build the first-contact
/// broadcast. Called only when the thing has none; a second run is refused
/// and changes nothing.
pub fn apply_identity_created(
    store: &mut Store,
    thing_id: i32,
    did: &Vec<u8>,
    vc: &Vec<u8>,
    challenge: &Vec<u8>,
) -> (r: Result<Did, EngineError>)
    requires
        old(store).wf(),
    ensures
        final(store).wf(),
        crate::store::same_but_identifications(*old(store), *final(store)),
        has_identification(*old(store), thing_id) ==> r is Err && *final(store) == *old(store),
        r is Err ==> has_identification(*old(store), thing_id) || old(
            store,
        ).identifications@.len() == crate::store::max_rows(),
        match r {
            Ok(p) => {
                &&& !has_identification(*old(store), thing_id)
                &&& has_identification(*final(store), thing_id)
                &&& final(store).identifications@ == old(store).identifications@.push(
                    final(store).identifications@.last(),
                )
                &&& final(store).identifications@.last().did@ == did@
                &&& final(store).identifications@.last().vc@ == vc@
                &&& p@.did == did@
                &&& p@.vc == vc@
                &&& p@.challenge == challenge@
                &&& p@.proof_request == false
            },
            Err(_) => *final(store) == *old(store),
        },
{
    match store.create_identification(thing_id, did, vc) {
        Ok(_) => (),
        Err(_) => {
            return Err(EngineError::StorageFailed);
        },
    };
    Ok(
        Did {
            did: copy_bytes(did),
            challenge: copy_bytes(challenge),
            vc: copy_bytes(vc),
            proof_request: false,
        },
    )
}

/// Record the external address: insert the thing's config row, or rewrite
/// its address when one exists.
pub fn update_ip_address(store: &mut Store, ip: &Vec<u8>, thing_id: i32) -> (r: Result<
    (),
    EngineError,
>)
    requires
        old(store).wf(),
    ensures
        final(store).wf(),
        same_but_configs(*old(store), *final(store)),
        r is Err ==> *final(store) == *old(store) && !has_config(*old(store), thing_id) && old(
            store,
        ).configs@.len() == crate::store::max_rows(),
        match r {
            Ok(_) => {
                &&& has_config(*final(store), thing_id)
                &&& exists|i: int|
                    0 <= i < final(store).configs@.len() && (
                    #[trigger] final(store).configs@[i]).thing_id == thing_id
                        && final(store).configs@[i].ip@ == ip@
            },
            Err(_) => true,
        },
{
    match store.create_configuration(thing_id, ip, 0) {
        Ok(_) => {
            proof {
                assert(final(store).configs@.last().thing_id == thing_id);
            }
            Ok(())
        },
        Err(_) => {
            match store.update_configuration(thing_id, ConfigField::Ip, ip, 0) {
                Ok(_) => Ok(()),
                Err(_) => Err(EngineError::StorageFailed),
            }
        },
    }
}

/// Ensure a sensor type and sensor row exist for each configured sensor.
/// Re-run against a catalog that already lists them all, this changes
/// nothing.
pub fn update_sensor_entries(store: &mut Store, channel_id: i32, sensor_list: &Vec<
    ConfiguredSensor,
>) -> (r: Result<(), EngineError>)
    requires
        old(store).wf(),
    ensures
        final(store).wf(),
        crate::store::same_but_sensor_tables(*old(store), *final(store)),
        final(store).sensor_data == old(store).sensor_data,
        (forall|k: int|
            0 <= k < sensor_list@.len() ==> crate::store::has_sensor_type(
                *old(store),
                (#[trigger] sensor_list@[k]).type_descr@,
            ) && crate::store::has_sensor(*old(store), sensor_list@[k].sensor_id@))
            ==> *final(store) == *old(store),
        r is Err ==> old(store).sensor_types@.len() + sensor_list@.len()
            > crate::store::max_rows() || old(store).sensors@.len() + sensor_list@.len()
            > crate::store::max_rows(),
        match r {
            Ok(_) => forall|k: int|
                0 <= k < sensor_list@.len() ==> crate::store::has_sensor_type(
                    *final(store),
                    (#[trigger] sensor_list@[k]).type_descr@,
                ) && crate::store::has_sensor(*final(store), sensor_list@[k].sensor_id@),
            Err(_) => true,
        },
{
    let mut k: usize = 0;
    while k < sensor_list.len()
        invariant
            store.wf(),
            k <= sensor_list@.len(),
            crate::store::same_but_sensor_tables(*old(store), *store),
            store.sensor_data == old(store).sensor_data,
            store.sensor_types@.len() <= old(store).sensor_types@.len() + k,
            store.sensors@.len() <= old(store).sensors@.len() + k,
            (forall|q: int|
                0 <= q < k ==> crate::store::has_sensor_type(
                    *old(store),
                    (#[trigger] sensor_list@[q]).type_descr@,
                ) && crate::store::has_sensor(*old(store), sensor_list@[q].sensor_id@)) ==> *store
                == *old(store),
            forall|q: int|
                0 <= q < k ==> crate::store::has_sensor_type(
                    *store,
                    (#[trigger] sensor_list@[q]).type_descr@,
                ) && crate::store::has_sensor(*store, sensor_list@[q].sensor_id@),
        decreases sensor_list@.len() - k,
    {
        let ghost pre = *store;
        let _ = store.create_sensor_type(&sensor_list[k].type_descr, &sensor_list[k].unit);
        let ghost mid = *store;
        let type_id = match store.select_sensor_type_by_desc(&sensor_list[k].type_descr) {
            Ok(st) => st.id,
            Err(_) => {
                return Err(EngineError::StorageFailed);
            },
        };
        let _ = store.create_sensor(
            crate::models::SensorEntry {
                channel_id,
                sensor_types_id: type_id,
                sensor_id: copy_bytes(&sensor_list[k].sensor_id),
                sensor_name: copy_bytes(&sensor_list[k].sensor_name),
            },
        );
        let present = match store.select_sensor_by_name(&sensor_list[k].sensor_id) {
            Ok(_) => true,
            Err(_) => false,
        };
        if !present {
            return Err(EngineError::StorageFailed);
        }
        proof {
            assert forall|q: int|
                0 <= q < k + 1 implies crate::store::has_sensor_type(
                *store,
                (#[trigger] sensor_list@[q]).type_descr@,
            ) && crate::store::has_sensor(*store, sensor_list@[q].sensor_id@) by {
                if q < k as int {
                    let w1 = choose|i: int|
                        0 <= i < pre.sensor_types@.len()
                            && #[trigger] pre.sensor_types@[i].description@
                            == sensor_list@[q].type_descr@;
                    assert(store.sensor_types@[w1].description@ == sensor_list@[q].type_descr@);
                    let w2 = choose|i: int|
                        0 <= i < pre.sensors@.len() && #[trigger] pre.sensors@[i].sensor_id@
                            == sensor_list@[q].sensor_id@;
                    assert(store.sensors@[w2].sensor_id@ == sensor_list@[q].sensor_id@);
                } else {
                    assert(crate::store::has_sensor_type(mid, sensor_list@[q].type_descr@));
                    let w1 = choose|i: int|
                        0 <= i < mid.sensor_types@.len()
                            && #[trigger] mid.sensor_types@[i].description@
                            == sensor_list@[q].type_descr@;
                    assert(store.sensor_types@[w1].description@ == sensor_list@[q].type_descr@);
                }
            }
        }
        k = k + 1;
    }
    Ok(())
}

/// Record a freshly opened stream for the channel and build the `stream`
/// payload announcing it. Called only when the channel has none; a second
/// run is refused and changes nothing.
pub fn init_streams(
    store: &mut Store,
    channel_id: i32,
    ann_link: &Vec<u8>,
    self_did: &Vec<u8>,
    self_vc: &Vec<u8>,
) -> (r: Result<Streams, EngineError>)
    requires
        old(store).wf(),
    ensures
        final(store).wf(),
        same_but_streams(*old(store), *final(store)),
        has_stream(*old(store), channel_id) ==> r is Err && *final(store) == *old(store),
        r is Err ==> has_stream(*old(store), channel_id) || old(store).streams@.len()
            == crate::store::max_rows(),
        match r {
            Ok(p) => {
                &&& !has_stream(*old(store), channel_id)
                &&& final(store).streams@ == old(store).streams@.push(
                    final(store).streams@.last(),
                )
                &&& final(store).streams@.last().channel_id == channel_id
                &&& final(store).streams@.last().ann_link@ == ann_link@
                &&& final(store).streams@.last().key_link@.len() == 0
                &&& final(store).streams@.last().num_subs == 0
                &&& p@.did == self_did@
                &&& p@.vc == self_vc@
                &&& p@.announcement_link == ann_link@
                &&& p@.subscription_link.len() == 0
                &&& p@.keyload_link.len() == 0
            },
            Err(_) => *final(store) == *old(store),
        },
{
    match store.create_stream(
        StreamsEntry {
            channel_id,
            ann_link: copy_bytes(ann_link),
            sub_link: Vec::new(),
            key_link: Vec::new(),
            msg_link: Vec::new(),
        },
    ) {
        Ok(_) => (),
        Err(_) => {
            return Err(EngineError::StorageFailed);
        },
    };
    Ok(
        Streams {
            did: copy_bytes(self_did),
            vc: copy_bytes(self_vc),
            announcement_link: copy_bytes(ann_link),
            subscription_link: Vec::new(),
            keyload_link: Vec::new(),
        },
    )
}

} // verus!
