//! The HTTP write surface's one route: `POST /api/dump`. The network
//! listener itself lives outside the library; it hands the request body in
//! as text and sends the reply out. The handler decides everything in
//! between: a body that decodes as a record is appended to the store and
//! answered `200 OK` with body `"OK"`; a malformed body is answered with a
//! client-error status and leaves the store untouched.

use vstd::prelude::*;
use vstd::string::StringExecFns;

use crate::json::parse_record;
use crate::json::parse_record_str;
use crate::store::Store;

verus! {

/// The status code of a successful append.
pub const STATUS_OK: u16 = 200;

/// The status code answered for a body that is not a well-formed record.
pub const STATUS_BAD_REQUEST: u16 = 400;

/// What the route answers: a status code and a response body.
pub struct HttpReply {
    pub status: u16,
    pub body: String,
}

/// Handles one `POST /api/dump` request body. Exactly the bodies accepted
/// by the record grammar are appended; everything else is refused with a
/// client error and no change to the store.
pub fn handle_dump_request(store: &mut Store, body: &str) -> (r: HttpReply)
    ensures
        match parse_record(body@) {
            Some(rec) => final(store)@ == old(store)@.push(rec) && r.status == STATUS_OK && r.body@
                == "OK"@,
            None => final(store)@ == old(store)@ && r.status == STATUS_BAD_REQUEST && r.body@
                == "Bad Request"@,
        },
{
    match parse_record_str(body) {
        Some(record) => {
            store.append(record);
            HttpReply { status: STATUS_OK, body: String::from_str("OK") }
        },
        None => HttpReply {
            status: STATUS_BAD_REQUEST,
            body: String::from_str("Bad Request"),
        },
    }
}

} // verus!
