use edge_gateway::data_management::{
    create_device_data_table, delete_device_data, device_data_table_exsits,
    insert_data_to_device_data_table, open_data_base, process_db_request, querry_device_data,
    DbOp, DbRep, DbReq, DeviceData,
};
use edge_gateway::data_manager::{
    datums_from_records, get_msg_from_data, DataManager, Datum, DatumType, Decision, FollowUp,
};

#[test]
fn it_works() {
    let db = open_data_base("/tmp/", "test.db");
    match db {
        Ok(db) => {
            match create_device_data_table(&db) {
                _ => {}
            }
            assert_eq!(device_data_table_exsits(&db), true);
        }
        Err(err) => {
            panic!("Problem opening the database: {:?}", err)
        }
    }
}

/// Empty the store so a scenario starts from nothing.
fn clear_store(db: &rusqlite::Connection) {
    let records = querry_device_data(db).unwrap();
    for (id, _data) in records {
        delete_device_data(db, id).unwrap();
    }
    assert_eq!(querry_device_data(db).unwrap().len(), 0);
}

fn open_scenario_store(name: &str) -> rusqlite::Connection {
    let db = open_data_base("/tmp/", name).unwrap();
    if !device_data_table_exsits(&db) {
        create_device_data_table(&db).unwrap();
    }
    clear_store(&db);
    db
}

/// Store-and-forward: starting disconnected, a live message is persisted
/// rather than published; after a connected notice, a replay pass hands
/// that exact payload to the publisher, and a simulated success issues
/// exactly one delete for its identifier.
#[test]
fn store_and_forward_delivery() {
    let db = open_scenario_store("edge_gateway_p5.db");
    let mut manager = DataManager::new();
    assert!(!manager.is_connected());

    // A live message arrives while disconnected: persist, do not publish.
    let live = Datum {
        id: 0,
        datum_type: DatumType::Message,
        value: DeviceData::new("{\"value\": 1}"),
    };
    let decision = manager.process(&live);
    assert_eq!(decision, Decision::Persist);
    insert_data_to_device_data_table(&db, &live.value).unwrap();

    // Connectivity returns: the notice triggers exactly one replay pass.
    let notice = Datum {
        id: 1,
        datum_type: DatumType::Notice,
        value: DeviceData::new(""),
    };
    let decision = manager.process(&notice);
    assert_eq!(decision, Decision::Notice { trigger_replay: true });
    assert!(manager.is_connected());
    // A second connected notice does not trigger another pass.
    let decision = manager.process(&notice);
    assert_eq!(decision, Decision::Notice { trigger_replay: false });

    // The replay pass reads the store and feeds the record back.
    let records = querry_device_data(&db).unwrap();
    assert_eq!(records.len(), 1);
    let replayed = datums_from_records(&records);
    assert_eq!(replayed.len(), 1);
    assert_ne!(replayed[0].id, 0);
    assert_eq!(get_msg_from_data(&replayed[0].value), "{\"value\": 1}");

    // Connected, so the replayed datum goes to the publisher.
    let decision = manager.process(&replayed[0]);
    assert_eq!(decision, Decision::Publish);

    // The publish succeeds: exactly that identifier is deleted.
    let follow_up = manager.on_publish_result(replayed[0].id, true);
    assert_eq!(follow_up, FollowUp::DeleteRecord(replayed[0].id));
    let deleted = delete_device_data(&db, replayed[0].id).unwrap();
    assert_eq!(deleted, 1);
    assert_eq!(querry_device_data(&db).unwrap().len(), 0);
}

/// No duplication on replay failure: a replayed datum whose publish
/// attempt fails is neither re-persisted nor deleted; the record stays
/// for the next replay pass.
#[test]
fn replay_failure_keeps_record() {
    let db = open_scenario_store("edge_gateway_p6.db");
    let mut manager = DataManager::new();
    insert_data_to_device_data_table(&db, &DeviceData::new("{\"value\": 2}")).unwrap();

    let notice = Datum {
        id: 1,
        datum_type: DatumType::Notice,
        value: DeviceData::new(""),
    };
    manager.process(&notice);

    let records = querry_device_data(&db).unwrap();
    assert_eq!(records.len(), 1);
    let replayed = datums_from_records(&records);
    let decision = manager.process(&replayed[0]);
    assert_eq!(decision, Decision::Publish);

    // The publish fails: nothing is done to the store.
    let follow_up = manager.on_publish_result(replayed[0].id, false);
    assert_eq!(follow_up, FollowUp::Nothing);
    let still_there = querry_device_data(&db).unwrap();
    assert_eq!(still_there.len(), 1);
    assert_eq!(still_there[0].0, records[0].0);
    assert_eq!(still_there[0].1.msg, "{\"value\": 2}");
}

/// A fresh datum whose live publish fails is persisted so it is not lost.
#[test]
fn live_publish_failure_persists() {
    let mut manager = DataManager::new();
    let notice = Datum {
        id: 1,
        datum_type: DatumType::Notice,
        value: DeviceData::new(""),
    };
    manager.process(&notice);
    let live = Datum {
        id: 0,
        datum_type: DatumType::Message,
        value: DeviceData::new("x"),
    };
    assert_eq!(manager.process(&live), Decision::Publish);
    assert_eq!(manager.on_publish_result(0, false), FollowUp::PersistFresh);
    // A successful live publish needs no store action.
    assert_eq!(manager.on_publish_result(0, true), FollowUp::Nothing);
}

/// A replayed datum observed while disconnected is dropped, not
/// persisted again.
#[test]
fn replay_while_disconnected_is_dropped() {
    let mut manager = DataManager::new();
    let stray = Datum {
        id: 7,
        datum_type: DatumType::Message,
        value: DeviceData::new("x"),
    };
    assert_eq!(manager.process(&stray), Decision::Discard);
}

/// A disconnect notice turns the flag off and never triggers replay.
#[test]
fn disconnect_notice() {
    let mut manager = DataManager::new();
    let connect = Datum {
        id: 1,
        datum_type: DatumType::Notice,
        value: DeviceData::new(""),
    };
    let disconnect = Datum {
        id: 0,
        datum_type: DatumType::Notice,
        value: DeviceData::new(""),
    };
    manager.process(&connect);
    assert!(manager.is_connected());
    assert_eq!(
        manager.process(&disconnect),
        Decision::Notice { trigger_replay: false }
    );
    assert!(!manager.is_connected());
}

/// The store worker answers each request kind in its own reply variant.
#[test]
fn db_worker_dispatch() {
    let db = open_scenario_store("edge_gateway_dispatch.db");
    let insert = DbReq {
        operation: DbOp::Insert,
        id: 0,
        data: DeviceData::new("payload"),
    };
    match process_db_request(&db, &insert) {
        DbRep::Inserted(ok) => assert!(ok),
        other => panic!("wrong reply: {:?}", reply_name(&other)),
    }
    let query = DbReq {
        operation: DbOp::Query,
        id: 0,
        data: DeviceData::new(""),
    };
    let id = match process_db_request(&db, &query) {
        DbRep::Rows(rows) => {
            let rows = rows.unwrap();
            assert_eq!(rows.len(), 1);
            assert_eq!(rows[0].1.msg, "payload");
            rows[0].0
        }
        other => panic!("wrong reply: {:?}", reply_name(&other)),
    };
    let delete = DbReq {
        operation: DbOp::Delete,
        id,
        data: DeviceData::new(""),
    };
    match process_db_request(&db, &delete) {
        DbRep::Deleted(ok) => assert!(ok),
        other => panic!("wrong reply: {:?}", reply_name(&other)),
    }
    assert_eq!(querry_device_data(&db).unwrap().len(), 0);
}

fn reply_name(rep: &DbRep) -> &'static str {
    match rep {
        DbRep::Inserted(_) => "Inserted",
        DbRep::Rows(_) => "Rows",
        DbRep::Deleted(_) => "Deleted",
    }
}
