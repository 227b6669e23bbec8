use dump_store::commands::add_dump;
use dump_store::commands::clear_dumps;
use dump_store::commands::get_dumps;
use dump_store::commands::greet;
use dump_store::record::Record;
use dump_store::store::Store;

fn record(kind: &str, timestamp: &str, output: &str) -> Record {
    Record {
        kind: kind.to_string(),
        timestamp: timestamp.to_string(),
        output: output.to_string(),
        file: None,
        line: None,
    }
}

#[test]
fn greet_formats_name() {
    assert_eq!(greet("Verus"), "Hello, Verus! You've been greeted from Rust!");
    assert_eq!(greet(""), "Hello, ! You've been greeted from Rust!");
}

#[test]
fn add_dump_returns_confirmation() {
    let mut store = Store::new();
    let reply = add_dump(&mut store, record("log", "t0", "x"));
    assert_eq!(reply, Ok("Dump added successfully".to_string()));
}

#[test]
fn adds_in_order_returned_by_get_dumps() {
    let mut store = Store::new();
    add_dump(&mut store, record("log", "t1", "first")).unwrap();
    add_dump(&mut store, record("error", "t2", "second")).unwrap();
    add_dump(&mut store, record("log", "t3", "third")).unwrap();

    let all = get_dumps(&store).unwrap();
    assert_eq!(all.len(), 3);
    assert_eq!(all[0].kind, "log");
    assert_eq!(all[0].timestamp, "t1");
    assert_eq!(all[0].output, "first");
    assert_eq!(all[1].kind, "error");
    assert_eq!(all[1].timestamp, "t2");
    assert_eq!(all[1].output, "second");
    assert_eq!(all[2].timestamp, "t3");
    assert_eq!(all[2].output, "third");
}

#[test]
fn clear_then_get_dumps_empty() {
    let mut store = Store::new();
    add_dump(&mut store, record("log", "t1", "a")).unwrap();
    add_dump(&mut store, record("log", "t2", "b")).unwrap();
    let reply = clear_dumps(&mut store);
    assert_eq!(reply, Ok("Dumps cleared successfully".to_string()));
    let all = get_dumps(&store).unwrap();
    assert!(all.is_empty());
}

#[test]
fn clear_dumps_on_empty_store_succeeds() {
    let mut store = Store::new();
    let reply = clear_dumps(&mut store);
    assert_eq!(reply, Ok("Dumps cleared successfully".to_string()));
    assert!(get_dumps(&store).unwrap().is_empty());
}

#[test]
fn snapshot_is_unaffected_by_later_changes() {
    let mut store = Store::new();
    add_dump(&mut store, record("log", "t1", "kept")).unwrap();
    let snapshot = get_dumps(&store).unwrap();
    add_dump(&mut store, record("log", "t2", "later")).unwrap();
    clear_dumps(&mut store).unwrap();
    assert_eq!(snapshot.len(), 1);
    assert_eq!(snapshot[0].output, "kept");
    assert!(get_dumps(&store).unwrap().is_empty());
}

#[test]
fn store_len_tracks_contents() {
    let mut store = Store::new();
    assert_eq!(store.len(), 0);
    store.append(record("log", "t1", "a"));
    store.append(record("log", "t2", "b"));
    assert_eq!(store.len(), 2);
    store.clear();
    assert_eq!(store.len(), 0);
}

#[test]
fn optional_fields_are_kept() {
    let mut store = Store::new();
    let rec = Record {
        kind: "log".to_string(),
        timestamp: "t1".to_string(),
        output: "o".to_string(),
        file: Some("main.rs".to_string()),
        line: Some(42),
    };
    add_dump(&mut store, rec).unwrap();
    let all = get_dumps(&store).unwrap();
    assert_eq!(all[0].file, Some("main.rs".to_string()));
    assert_eq!(all[0].line, Some(42));
}
