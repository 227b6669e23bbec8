use dump_store::commands::get_dumps;
use dump_store::http::handle_dump_request;
use dump_store::http::STATUS_BAD_REQUEST;
use dump_store::http::STATUS_OK;
use dump_store::store::Store;

#[test]
fn post_valid_record_then_get_dumps() {
    let mut store = Store::new();
    let body = r#"{"type":"log","timestamp":"t1","output":"hello","file":null,"line":null}"#;
    let reply = handle_dump_request(&mut store, body);
    assert_eq!(reply.status, STATUS_OK);
    assert_eq!(reply.body, "OK");

    let all = get_dumps(&store).unwrap();
    assert_eq!(all.len(), 1);
    assert_eq!(all[0].kind, "log");
    assert_eq!(all[0].timestamp, "t1");
    assert_eq!(all[0].output, "hello");
    assert_eq!(all[0].file, None);
    assert_eq!(all[0].line, None);
}

#[test]
fn post_malformed_body_leaves_store_unchanged() {
    let mut store = Store::new();
    let good = r#"{"type":"log","timestamp":"t0","output":"kept","file":null,"line":null}"#;
    assert_eq!(handle_dump_request(&mut store, good).status, STATUS_OK);

    let reply = handle_dump_request(&mut store, "{not json");
    assert_eq!(reply.status, STATUS_BAD_REQUEST);
    let all = get_dumps(&store).unwrap();
    assert_eq!(all.len(), 1);
    assert_eq!(all[0].output, "kept");
}

#[test]
fn member_order_does_not_matter() {
    let mut store = Store::new();
    let body = r#"{"line":7,"file":"main.rs","output":"o","timestamp":"t","type":"log"}"#;
    assert_eq!(handle_dump_request(&mut store, body).status, STATUS_OK);
    let all = get_dumps(&store).unwrap();
    assert_eq!(all[0].kind, "log");
    assert_eq!(all[0].file, Some("main.rs".to_string()));
    assert_eq!(all[0].line, Some(7));
}

#[test]
fn whitespace_is_tolerated() {
    let mut store = Store::new();
    let body = "  {\n  \"type\" : \"log\" ,\r\n\t\"timestamp\": \"t\",\n  \"output\": \"o\",\n  \"file\": null,\n  \"line\": null\n}  \n";
    assert_eq!(handle_dump_request(&mut store, body).status, STATUS_OK);
    assert_eq!(get_dumps(&store).unwrap().len(), 1);
}

#[test]
fn missing_member_is_rejected() {
    let mut store = Store::new();
    let body = r#"{"type":"log","timestamp":"t1","output":"hello","file":null}"#;
    assert_eq!(handle_dump_request(&mut store, body).status, STATUS_BAD_REQUEST);
    assert_eq!(get_dumps(&store).unwrap().len(), 0);
}

#[test]
fn repeated_member_is_rejected() {
    let mut store = Store::new();
    let body = r#"{"type":"log","type":"log","timestamp":"t","output":"o","file":null,"line":null}"#;
    assert_eq!(handle_dump_request(&mut store, body).status, STATUS_BAD_REQUEST);
}

#[test]
fn unknown_member_is_rejected() {
    let mut store = Store::new();
    let body = r#"{"type":"log","timestamp":"t","output":"o","file":null,"line":null,"extra":1}"#;
    assert_eq!(handle_dump_request(&mut store, body).status, STATUS_BAD_REQUEST);
}

#[test]
fn string_escapes_are_decoded() {
    let mut store = Store::new();
    let body = r#"{"type":"log","timestamp":"t","output":"a\"b\u0041\n\t\\","file":null,"line":null}"#;
    assert_eq!(handle_dump_request(&mut store, body).status, STATUS_OK);
    let all = get_dumps(&store).unwrap();
    assert_eq!(all[0].output, "a\"bA\n\t\\");
}

#[test]
fn unicode_escape_beyond_ascii_is_decoded() {
    let mut store = Store::new();
    let body = r#"{"type":"log","timestamp":"t","output":"caf\u00e9","file":null,"line":null}"#;
    assert_eq!(handle_dump_request(&mut store, body).status, STATUS_OK);
    let all = get_dumps(&store).unwrap();
    assert_eq!(all[0].output, "caf\u{e9}");
}

#[test]
fn surrogate_escape_is_rejected() {
    let mut store = Store::new();
    let body = r#"{"type":"log","timestamp":"t","output":"\ud800","file":null,"line":null}"#;
    assert_eq!(handle_dump_request(&mut store, body).status, STATUS_BAD_REQUEST);
}

#[test]
fn raw_control_character_in_string_is_rejected() {
    let mut store = Store::new();
    let body = "{\"type\":\"a\nb\",\"timestamp\":\"t\",\"output\":\"o\",\"file\":null,\"line\":null}";
    assert_eq!(handle_dump_request(&mut store, body).status, STATUS_BAD_REQUEST);
}

#[test]
fn unterminated_string_is_rejected() {
    let mut store = Store::new();
    let body = r#"{"type":"log","timestamp":"t","output":"oops"#;
    assert_eq!(handle_dump_request(&mut store, body).status, STATUS_BAD_REQUEST);
}

#[test]
fn line_accepts_extreme_values() {
    let mut store = Store::new();
    let max = r#"{"type":"l","timestamp":"t","output":"o","file":null,"line":2147483647}"#;
    let min = r#"{"type":"l","timestamp":"t","output":"o","file":null,"line":-2147483648}"#;
    assert_eq!(handle_dump_request(&mut store, max).status, STATUS_OK);
    assert_eq!(handle_dump_request(&mut store, min).status, STATUS_OK);
    let all = get_dumps(&store).unwrap();
    assert_eq!(all[0].line, Some(2147483647));
    assert_eq!(all[1].line, Some(-2147483648));
}

#[test]
fn line_out_of_range_is_rejected() {
    let mut store = Store::new();
    let too_big = r#"{"type":"l","timestamp":"t","output":"o","file":null,"line":2147483648}"#;
    let too_small = r#"{"type":"l","timestamp":"t","output":"o","file":null,"line":-2147483649}"#;
    let huge = r#"{"type":"l","timestamp":"t","output":"o","file":null,"line":99999999999999999999}"#;
    assert_eq!(handle_dump_request(&mut store, too_big).status, STATUS_BAD_REQUEST);
    assert_eq!(handle_dump_request(&mut store, too_small).status, STATUS_BAD_REQUEST);
    assert_eq!(handle_dump_request(&mut store, huge).status, STATUS_BAD_REQUEST);
    assert_eq!(get_dumps(&store).unwrap().len(), 0);
}

#[test]
fn leading_zero_is_rejected() {
    let mut store = Store::new();
    let body = r#"{"type":"l","timestamp":"t","output":"o","file":null,"line":007}"#;
    assert_eq!(handle_dump_request(&mut store, body).status, STATUS_BAD_REQUEST);
}

#[test]
fn zero_and_negative_zero_lines() {
    let mut store = Store::new();
    let zero = r#"{"type":"l","timestamp":"t","output":"o","file":null,"line":0}"#;
    let neg_zero = r#"{"type":"l","timestamp":"t","output":"o","file":null,"line":-0}"#;
    assert_eq!(handle_dump_request(&mut store, zero).status, STATUS_OK);
    assert_eq!(handle_dump_request(&mut store, neg_zero).status, STATUS_OK);
    let all = get_dumps(&store).unwrap();
    assert_eq!(all[0].line, Some(0));
    assert_eq!(all[1].line, Some(0));
}

#[test]
fn misspelled_null_is_rejected() {
    let mut store = Store::new();
    let short = r#"{"type":"l","timestamp":"t","output":"o","file":nul,"line":null}"#;
    let long = r#"{"type":"l","timestamp":"t","output":"o","file":nullx,"line":null}"#;
    assert_eq!(handle_dump_request(&mut store, short).status, STATUS_BAD_REQUEST);
    assert_eq!(handle_dump_request(&mut store, long).status, STATUS_BAD_REQUEST);
}

#[test]
fn non_object_bodies_are_rejected() {
    let mut store = Store::new();
    assert_eq!(handle_dump_request(&mut store, "").status, STATUS_BAD_REQUEST);
    assert_eq!(handle_dump_request(&mut store, "   ").status, STATUS_BAD_REQUEST);
    assert_eq!(handle_dump_request(&mut store, "[]").status, STATUS_BAD_REQUEST);
    assert_eq!(handle_dump_request(&mut store, "\"record\"").status, STATUS_BAD_REQUEST);
    assert_eq!(handle_dump_request(&mut store, "{}").status, STATUS_BAD_REQUEST);
}

#[test]
fn trailing_content_is_rejected() {
    let mut store = Store::new();
    let body = r#"{"type":"l","timestamp":"t","output":"o","file":null,"line":null} extra"#;
    assert_eq!(handle_dump_request(&mut store, body).status, STATUS_BAD_REQUEST);
    let comma = r#"{"type":"l","timestamp":"t","output":"o","file":null,"line":null,}"#;
    assert_eq!(handle_dump_request(&mut store, comma).status, STATUS_BAD_REQUEST);
}
