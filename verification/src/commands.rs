//! The in-process command surface: the operations the embedding shell invokes
//! directly (`greet`, `add_dump`, `get_dumps`, `clear_dumps`). Each store
//! command runs under exclusive access to the shared store and reports its
//! outcome explicitly; acquiring that access is the embedder's duty, and an
//! embedder whose exclusivity primitive is poisoned reports the failure as an
//! error string instead of calling these functions.

use vstd::prelude::*;
use vstd::string::StringExecFns;

use crate::record::Record;
use crate::record::RecordView;
use crate::store::Store;

verus! {

/// The greeting returned for a caller's name.
pub open spec fn greeting(name: Seq<char>) -> Seq<char> {
    "Hello, "@ + name + "! You've been greeted from Rust!"@
}

/// Connectivity smoke test for the command channel: pure formatting,
/// unrelated to the store.
pub fn greet(name: &str) -> (r: String)
    ensures
        r@ == greeting(name@),
{
    let mut out = String::from_str("Hello, ");
    out.append(name);
    out.append("! You've been greeted from Rust!");
    out
}

/// Appends a record to the store. Under exclusive access this never fails:
/// the result is the confirmation string, and the store gains exactly the
/// given record at its end.
pub fn add_dump(store: &mut Store, record: Record) -> (r: Result<String, String>)
    ensures
        final(store)@ == old(store)@.push(record@),
        r matches Ok(msg) && msg@ == "Dump added successfully"@,
{
    store.append(record);
    Ok(String::from_str("Dump added successfully"))
}

/// Returns the full current snapshot of the store, in insertion order.
/// Under exclusive access this never fails.
pub fn get_dumps(store: &Store) -> (r: Result<Vec<Record>, String>)
    ensures
        r matches Ok(records) && records.deep_view() == store@,
{
    Ok(store.snapshot())
}

/// Empties the store. Under exclusive access this never fails: the result is
/// the confirmation string, and the store is left with no records.
pub fn clear_dumps(store: &mut Store) -> (r: Result<String, String>)
    ensures
        final(store)@ == Seq::<RecordView>::empty(),
        r matches Ok(msg) && msg@ == "Dumps cleared successfully"@,
{
    store.clear();
    Ok(String::from_str("Dumps cleared successfully"))
}

} // verus!
