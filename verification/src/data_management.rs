//! The durable record store: a sqlite-backed table of not-yet-delivered
//! messages. The database itself is an external collaborator; each call
//! into it stands behind a trusted wrapper, and the request dispatch that
//! the store-owning worker runs is verified here.

use vstd::prelude::*;

verus! {

/// A persisted, undelivered message payload.
#[derive(Debug)]
pub struct DeviceData {
    pub msg: String,
}

impl DeviceData {
    pub fn new(msg: &str) -> (r: DeviceData)
        ensures
            r.msg@ == msg@,
    {
        DeviceData { msg: msg.to_owned() }
    }
}

#[verifier::external_type_specification]
#[verifier::external_body]
pub struct ExConnection(rusqlite::Connection);

/// Relies on `rusqlite::Connection::open`: opens (or creates) the
/// database file at the concatenated path.
#[verifier::external_body]
pub fn open_data_base(path: &str, name: &str) -> (r: Result<rusqlite::Connection, ()>) {
    let full_path = String::from(path) + name;
    match rusqlite::Connection::open(&full_path) {
        Ok(conn) => Ok(conn),
        Err(_err) => Err(()),
    }
}

/// Relies on `rusqlite::Connection::execute`: creates the DEVICE_DATA
/// table with a monotonic integer primary key and a text payload column.
#[verifier::external_body]
pub fn create_device_data_table(db: &rusqlite::Connection) -> (r: Result<(), ()>) {
    let r = db.execute(
        "CREATE TABLE DEVICE_DATA(
                ID INTEGER PRIMARY KEY,
                MSG CHAR(256)
            )",
        [],
    );
    match r {
        Ok(_ok) => Ok(()),
        Err(_err) => Err(()),
    }
}

/// Relies on `rusqlite::Connection::prepare` and
/// `rusqlite::Statement::exists`: reports whether the DEVICE_DATA table
/// is already present in the schema.
#[verifier::external_body]
pub fn device_data_table_exsits(db: &rusqlite::Connection) -> bool {
    match db.prepare("SELECT * FROM sqlite_master WHERE name='DEVICE_DATA' and type='table'") {
        Ok(mut stmt) => match stmt.exists([]) {
            Ok(r) => r,
            Err(_) => false,
        },
        Err(_err) => false,
    }
}

/// Relies on `rusqlite::Connection::execute`: inserts one record and
/// returns how many rows were inserted.
#[verifier::external_body]
pub fn insert_data_to_device_data_table(
    db: &rusqlite::Connection,
    data: &DeviceData,
) -> (r: Result<usize, ()>) {
    let r = db.execute("INSERT INTO DEVICE_DATA(MSG) VALUES(?1)", [&data.msg]);
    match r {
        Ok(inserted) => Ok(inserted),
        Err(_err) => Err(()),
    }
}

/// Relies on `rusqlite::Connection::prepare` and
/// `rusqlite::Statement::query_map`: reads every stored record with its
/// identifier, in insertion order of the primary key.
#[verifier::external_body]
pub fn querry_device_data(
    db: &rusqlite::Connection,
) -> (r: Result<Vec<(u32, DeviceData)>, ()>) {
    let mut stmt = db.prepare("SELECT * FROM DEVICE_DATA").map_err(|_| ())?;
    let rows = stmt
        .query_map([], |row| Ok((row.get(0)?, DeviceData { msg: row.get(1)? })))
        .map_err(|_| ())?;
    let mut vec = Vec::new();
    for tuple in rows {
        vec.push(tuple.map_err(|_| ())?);
    }
    Ok(vec)
}

/// Relies on `rusqlite::Connection::execute`: deletes the record with
/// the given identifier and returns how many rows were removed.
#[verifier::external_body]
pub fn delete_device_data(db: &rusqlite::Connection, id: u32) -> (r: Result<usize, ()>) {
    let r = db.execute("DELETE FROM DEVICE_DATA WHERE ID =(?1)", [id]);
    match r {
        Ok(deleted) => Ok(deleted),
        Err(_err) => Err(()),
    }
}

/// Open the store and make sure the DEVICE_DATA table exists, creating
/// it on first use.
pub fn init_data_base(path: &str, name: &str) -> (r: Result<rusqlite::Connection, ()>) {
    let db = match open_data_base(path, name) {
        Ok(database) => database,
        Err(()) => {
            return Err(());
        },
    };
    if device_data_table_exsits(&db) {
        return Ok(db);
    }
    match create_device_data_table(&db) {
        Ok(_ok) => {},
        Err(_err) => {},
    }
    Ok(db)
}

/// A request to the store-owning worker: the single serialization point
/// for durable-state mutation.
pub enum DbOp {
    Insert,
    Query,
    Delete,
}

pub struct DbReq {
    pub operation: DbOp,
    pub id: u32,
    pub data: DeviceData,
}

/// The worker's reply, one variant per operation.
pub enum DbRep {
    Inserted(bool),
    Rows(Result<Vec<(u32, DeviceData)>, ()>),
    Deleted(bool),
}

/// One turn of the store-owning worker: perform the requested operation
/// against the database and report its outcome in the matching reply
/// variant.
pub fn process_db_request(db: &rusqlite::Connection, req: &DbReq) -> (r: DbRep)
    ensures
        req.operation is Insert ==> r is Inserted,
        req.operation is Query ==> r is Rows,
        req.operation is Delete ==> r is Deleted,
{
    match req.operation {
        DbOp::Insert => {
            match insert_data_to_device_data_table(db, &req.data) {
                Ok(_ok) => DbRep::Inserted(true),
                Err(()) => DbRep::Inserted(false),
            }
        },
        DbOp::Query => DbRep::Rows(querry_device_data(db)),
        DbOp::Delete => {
            match delete_device_data(db, req.id) {
                Ok(_ok) => DbRep::Deleted(true),
                Err(()) => DbRep::Deleted(false),
            }
        },
    }
}

} // verus!
