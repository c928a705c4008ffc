use destiny::api::{lookup_reply, query_reply, Reply, ReplyBody};

#[test]
fn found_definitions_are_ok() {
    let r = lookup_reply::<u32>(Ok(Some(7)));
    assert_eq!(r, Reply { status: 200, body: ReplyBody::Value(7) });
}

#[test]
fn missing_definitions_are_not_found() {
    let r = lookup_reply::<u32>(Ok(None));
    assert_eq!(r.status, 404);
    assert_eq!(r.body, ReplyBody::Error("definition_not_found".to_string()));
}

#[test]
fn failed_lookups_are_server_errors() {
    let r = lookup_reply::<u32>(Err("disk".to_string()));
    assert_eq!(r, Reply { status: 500, body: ReplyBody::Error("disk".to_string()) });
    let q = query_reply::<(i64, i64)>(Err("locked".to_string()));
    assert_eq!(q, Reply { status: 500, body: ReplyBody::Error("locked".to_string()) });
}

#[test]
fn queries_answer_their_value() {
    let q = query_reply::<(i64, i64, i64, i64)>(Ok((12192, 3, 2, 1)));
    assert_eq!(q, Reply { status: 200, body: ReplyBody::Value((12192, 3, 2, 1)) });
    let e = query_reply::<Vec<u8>>(Ok(vec![]));
    assert_eq!(e.status, 200);
}
