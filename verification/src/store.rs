//! The durable side-store records room-creation provenance.  The write
//! itself is network I/O performed outside the library; what is written —
//! the record key and its field/value pairs — is built and pinned down
//! here.

use vstd::prelude::*;
use crate::codec;
use crate::messages::InsertRoom;

verus! {

/// The side-store handle: the connection string the process was configured
/// with.  The live connection belongs to the task that owns the I/O.
pub struct Redis {
    /// Where the store is reached.
    pub conn_string: String,
}

impl Redis {
    /// A handle for the store at `redis_conn`.
    pub fn new(redis_conn: String) -> (r: Redis)
        ensures
            r.conn_string == redis_conn,
    {
        Redis { conn_string: redis_conn }
    }

    /// The key under which a room-creation record is stored: the decimal
    /// resource identifier.
    pub fn record_key(&self, msg: &InsertRoom) -> (r: String)
        ensures
            r@ == codec::dec_of_int(msg.script_id as int),
    {
        codec::dec_i64(msg.script_id)
    }

    /// The field/value pairs of a room-creation record: the resource
    /// identifier, and the creator's identity mapped to the creation time
    /// (milliseconds, as the caller's clock read when the room was made).
    pub fn record_fields(&self, msg: &InsertRoom, now_ms: u64) -> (r: Vec<(String, String)>)
        ensures
            r@.len() == 2,
            r@[0].0@ == "script_id"@,
            r@[0].1@ == codec::dec_of_int(msg.script_id as int),
            r@[1].0@ == "user:"@ + codec::dec_of_int(msg.user_id as int),
            r@[1].1@ == codec::dec_of_nat(now_ms as nat),
    {
        let mut out: Vec<(String, String)> = Vec::new();
        out.push(("script_id".to_owned(), codec::dec_i64(msg.script_id)));
        let mut user_key = String::new();
        user_key.append("user:");
        codec::append_dec_i64(&mut user_key, msg.user_id);
        out.push((user_key, codec::dec_u64(now_ms)));
        out
    }
}

} // verus!
