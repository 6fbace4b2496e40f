use s3_ingest::rpc::{reply_status, CallOutcome, Dispatch, HandlerTable};

#[test]
fn requests_are_routed() {
    let mut table = HandlerTable::new();
    assert_eq!(table.route("POST", "/ping"), Dispatch::NotFound);
    assert_eq!(table.add_handler("ping".to_string()), 0);
    assert_eq!(table.add_handler("block".to_string()), 1);
    assert_eq!(table.add_handler("ping".to_string()), 0);
    assert_eq!(table.find("block"), Some(1));
    assert_eq!(table.find("other"), None);
    assert_eq!(table.route("POST", "/ping"), Dispatch::Call(0));
    assert_eq!(table.route("POST", "/block"), Dispatch::Call(1));
    assert_eq!(table.route("POST", "/"), Dispatch::NotFound);
    assert_eq!(table.route("POST", "/ping/"), Dispatch::NotFound);
    assert_eq!(table.route("POST", "ping"), Dispatch::NotFound);
    assert_eq!(table.route("GET", "/ping"), Dispatch::BadRequest);
    assert_eq!(table.route("post", "/ping"), Dispatch::BadRequest);
    assert_eq!(table.route("GET", "/nothing"), Dispatch::BadRequest);
    assert_eq!(table.route("GET", ""), Dispatch::BadRequest);
    assert_eq!(table.route("", ""), Dispatch::BadRequest);
}

#[test]
fn status_after_a_call() {
    assert_eq!(reply_status(&CallOutcome::Aborted), 500);
    assert_eq!(reply_status(&CallOutcome::Failed("boom".to_string())), 400);
    assert_eq!(reply_status(&CallOutcome::Answered(200)), 200);
    assert_eq!(reply_status(&CallOutcome::Answered(503)), 503);
}
