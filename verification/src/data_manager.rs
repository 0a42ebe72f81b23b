//! The store-and-forward orchestrator. It consumes an ordered stream of
//! datums (live messages, replayed messages, connectivity notices) and
//! decides, one datum at a time, whether to publish, persist or drop,
//! and what to do with the store once a publish outcome is known. The
//! surrounding workers perform the I/O; every decision is made here.

use vstd::prelude::*;
use crate::data_management::DeviceData;

verus! {

#[derive(Debug, Clone, Copy, PartialEq, Eq, Structural)]
pub enum DatumType {
    Message,
    Notice,
}

/// The unit the orchestrator operates on. `id` is 0 for freshly decoded
/// live data and the record identifier for data sourced from replay; a
/// notice carries the connectivity change instead (0 for disconnected,
/// non-zero for connected).
#[derive(Debug)]
pub struct Datum {
    pub id: u32,
    pub datum_type: DatumType,
    pub value: DeviceData,
}

/// What is to be done with one datum.
#[derive(Debug, Clone, Copy, PartialEq, Eq, Structural)]
pub enum Decision {
    /// Connected: hand the payload to the publisher and await the outcome.
    Publish,
    /// Disconnected, fresh data: persist it without a publish attempt.
    Persist,
    /// Disconnected, replay-sourced data: an invariant violation; log it
    /// and drop the datum, so the record is neither duplicated nor lost.
    Discard,
    /// A connectivity notice was folded into the manager's state; replay
    /// begins exactly when this carries `trigger_replay: true`.
    Notice { trigger_replay: bool },
}

/// What is to be done with the store after a publish outcome.
#[derive(Debug, Clone, Copy, PartialEq, Eq, Structural)]
pub enum FollowUp {
    /// A fresh datum failed to publish: persist it so it is not lost.
    PersistFresh,
    /// A replayed record was delivered: delete exactly that identifier.
    DeleteRecord(u32),
    /// Leave the store untouched.
    Nothing,
}

/// The connectivity flag after one datum is folded in.
pub open spec fn spec_next_connected(connected: bool, id: u32, t: DatumType) -> bool {
    match t {
        DatumType::Notice => id != 0,
        DatumType::Message => connected,
    }
}

/// The decision for one datum, given the connectivity known on arrival.
pub open spec fn spec_decision(connected: bool, id: u32, t: DatumType) -> Decision {
    match t {
        DatumType::Notice => Decision::Notice { trigger_replay: id != 0 && !connected },
        DatumType::Message => if connected {
            Decision::Publish
        } else if id == 0 {
            Decision::Persist
        } else {
            Decision::Discard
        },
    }
}

/// The store action owed once the publisher reports an outcome for a
/// datum with the given origin identifier.
pub open spec fn spec_follow_up(id: u32, success: bool) -> FollowUp {
    if success {
        if id != 0 {
            FollowUp::DeleteRecord(id)
        } else {
            FollowUp::Nothing
        }
    } else {
        if id == 0 {
            FollowUp::PersistFresh
        } else {
            FollowUp::Nothing
        }
    }
}

/// The orchestrator's own state: the connectivity of record. It starts
/// disconnected and changes only when a notice is folded in.
pub struct DataManager {
    cloud_is_connected: bool,
}

impl DataManager {
    /// Whether the manager currently believes the broker is reachable.
    pub closed spec fn connected(&self) -> bool {
        self.cloud_is_connected
    }

    pub fn new() -> (r: DataManager)
        ensures
            !r.connected(),
    {
        DataManager { cloud_is_connected: false }
    }

    pub fn is_connected(&self) -> (r: bool)
        ensures
            r == self.connected(),
    {
        self.cloud_is_connected
    }

    /// Fold one datum in: update the connectivity of record and return
    /// the decision for this datum.
    pub fn process(&mut self, datum: &Datum) -> (d: Decision)
        ensures
            final(self).connected() == spec_next_connected(
                old(self).connected(),
                datum.id,
                datum.datum_type,
            ),
            d == spec_decision(old(self).connected(), datum.id, datum.datum_type),
    {
        match datum.datum_type {
            DatumType::Notice => {
                let was_connected = self.cloud_is_connected;
                if datum.id == 0 {
                    self.cloud_is_connected = false;
                    Decision::Notice { trigger_replay: false }
                } else {
                    self.cloud_is_connected = true;
                    Decision::Notice { trigger_replay: !was_connected }
                }
            },
            DatumType::Message => {
                if self.cloud_is_connected {
                    Decision::Publish
                } else if datum.id == 0 {
                    Decision::Persist
                } else {
                    Decision::Discard
                }
            },
        }
    }

    /// The store action owed for a publish outcome. Success on a
    /// replayed record is the only path to a delete; failure of a fresh
    /// datum is the only path to an insert.
    pub fn on_publish_result(&self, id: u32, success: bool) -> (f: FollowUp)
        ensures
            f == spec_follow_up(id, success),
    {
        if success {
            if id != 0 {
                FollowUp::DeleteRecord(id)
            } else {
                FollowUp::Nothing
            }
        } else {
            if id == 0 {
                FollowUp::PersistFresh
            } else {
                FollowUp::Nothing
            }
        }
    }
}

/// The message text a datum carries.
pub fn get_msg_from_data(data: &DeviceData) -> (r: String)
    ensures
        r@ == data.msg@,
{
    data.msg.clone()
}

/// The offline replayer's conversion: every persisted record becomes a
/// replay datum carrying the record's identifier and payload, in the
/// order the store handed them out.
pub fn datums_from_records(records: &Vec<(u32, DeviceData)>) -> (v: Vec<Datum>)
    ensures
        v@.len() == records@.len(),
        forall|i: int|
            0 <= i < v@.len() ==> {
                &&& (#[trigger] v@[i]).id == records@[i].0
                &&& v@[i].datum_type == DatumType::Message
                &&& v@[i].value.msg@ == records@[i].1.msg@
            },
{
    let mut v: Vec<Datum> = Vec::new();
    let n = records.len();
    for j in 0..n
        invariant
            n == records@.len(),
            v@.len() == j,
            forall|i: int|
                0 <= i < j ==> {
                    &&& (#[trigger] v@[i]).id == records@[i].0
                    &&& v@[i].datum_type == DatumType::Message
                    &&& v@[i].value.msg@ == records@[i].1.msg@
                },
    {
        let id = records[j].0;
        let msg = records[j].1.msg.clone();
        v.push(Datum { id, datum_type: DatumType::Message, value: DeviceData { msg } });
    }
    v
}

/// Store-and-forward: a live message that arrives while disconnected is
/// persisted at once, never published; while connected it is published,
/// and reaches the store exactly when that publish attempt fails.
pub proof fn lemma_store_and_forward(success: bool)
    ensures
        spec_decision(false, 0, DatumType::Message) == Decision::Persist,
        spec_decision(true, 0, DatumType::Message) == Decision::Publish,
        spec_follow_up(0, success) == FollowUp::PersistFresh <==> !success,
        !(spec_follow_up(0, success) is DeleteRecord),
{
}

/// No duplication on replay: a replayed datum (non-zero origin) is never
/// persisted again, whatever the outcome; when its publish attempt fails
/// nothing at all is done to the store, so the record simply stays for
/// the next replay pass.
pub proof fn lemma_replay_no_duplication(id: u32, success: bool)
    requires
        id != 0,
    ensures
        spec_follow_up(id, false) == FollowUp::Nothing,
        spec_follow_up(id, success) != FollowUp::PersistFresh,
        spec_decision(false, id, DatumType::Message) == Decision::Discard,
        spec_decision(true, id, DatumType::Message) == Decision::Publish,
{
}

/// A record is deleted only for a confirmed delivery, and only the
/// delivered record's own identifier is deleted.
pub proof fn lemma_delete_only_on_success(id: u32, success: bool)
    ensures
        spec_follow_up(id, success) is DeleteRecord ==> success && id != 0,
        spec_follow_up(id, success) is DeleteRecord ==> spec_follow_up(id, success)
            == FollowUp::DeleteRecord(id),
{
}

/// Replay is signalled exactly once per transition to connected: a
/// notice triggers replay when and only when it reports the broker
/// connected and the manager believed it disconnected.
pub proof fn lemma_replay_once_per_transition(connected: bool, id: u32)
    ensures
        spec_decision(connected, id, DatumType::Notice) == (Decision::Notice {
            trigger_replay: id != 0 && !connected,
        }),
        spec_next_connected(connected, id, DatumType::Notice) == (id != 0),
{
}

} // verus!
