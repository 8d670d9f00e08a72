use headless_chrome::connection::Connection;
use headless_chrome::connection::Dispatch;
use headless_chrome::errors::CdpError;
use headless_chrome::frame::Frame;
use headless_chrome::frame::ResponsePayload;

fn ok_payload(text: &str) -> ResponsePayload {
    ResponsePayload::Success { result: text.to_string() }
}

#[test]
fn ids_are_distinct_and_increasing() {
    let mut conn = Connection::new();
    let (id1, _) = conn.issue_call("Page.enable", "{}", None).unwrap();
    let (id2, _) = conn.issue_call("DOM.enable", "{}", None).unwrap();
    let (id3, _) = conn.issue_call("Page.navigate", "{\"url\":\"x\"}", None).unwrap();
    assert_eq!((id1, id2, id3), (1, 2, 3));
}

#[test]
fn each_reply_resolves_only_its_own_call() {
    let mut conn = Connection::new();
    let (id1, _) = conn.issue_call("Page.enable", "{}", None).unwrap();
    let (id2, _) = conn.issue_call("DOM.enable", "{}", None).unwrap();
    // Replies arrive out of send order: each resolves exactly its own id.
    let res2 = conn.handle_response(id2, ok_payload("{\"b\":2}")).unwrap();
    assert_eq!(res2.id, id2);
    let res1 = conn.handle_response(id1, ok_payload("{\"a\":1}")).unwrap();
    assert_eq!(res1.id, id1);
}

#[test]
fn stale_and_duplicate_replies_are_tolerated() {
    let mut conn = Connection::new();
    let (id, _) = conn.issue_call("Page.enable", "{}", None).unwrap();
    assert!(conn.handle_response(999, ok_payload("{}")).is_none());
    assert!(conn.handle_response(id, ok_payload("{}")).is_some());
    // A duplicate reply for an already resolved id is dropped, not fatal.
    assert!(conn.handle_response(id, ok_payload("{}")).is_none());
}

#[test]
fn close_drains_every_pending_call_exactly_once() {
    let mut conn = Connection::new();
    let (id1, _) = conn.issue_call("Page.enable", "{}", None).unwrap();
    let (id2, _) = conn.issue_call("DOM.enable", "{}", None).unwrap();
    let (id3, _) = conn.issue_call("Network.enable", "{}", None).unwrap();
    let drained = conn.close();
    assert_eq!(drained, vec![id1, id2, id3]);
    assert!(!conn.is_live());
    // Closing again finds nothing left to drain.
    assert_eq!(conn.close(), Vec::<u64>::new());
}

#[test]
fn calls_after_close_fail_without_a_frame() {
    let mut conn = Connection::new();
    conn.issue_call("Page.enable", "{}", None).unwrap();
    conn.close();
    let r = conn.issue_call("Page.navigate", "{\"url\":\"x\"}", None);
    match r {
        Err(CdpError::ConnectionClosed) => {},
        _ => panic!("a call on a closed connection must fail with ConnectionClosed"),
    }
}

#[test]
fn errors_describe_themselves() {
    assert_eq!(CdpError::ConnectionClosed.describe(), "connection closed");
    assert_eq!(CdpError::Protocol.describe(), "malformed protocol frame");
    assert_eq!(CdpError::Transport.describe(), "transport failure");
}

#[test]
fn events_reach_only_their_sessions_subscribers() {
    let mut conn = Connection::new();
    let browser_token = conn.subscribe(None);
    let sess_a = conn.register_session("A".to_string()).unwrap();
    let sess_b = conn.register_session("B".to_string()).unwrap();
    assert_eq!(conn.route_event(Some(&"A".to_string())), vec![sess_a.token]);
    assert_eq!(conn.route_event(Some(&"B".to_string())), vec![sess_b.token]);
    // An untagged event reaches only browser-level subscribers.
    assert_eq!(conn.route_event(None), vec![browser_token]);
    // An unknown session tag reaches nobody.
    assert_eq!(conn.route_event(Some(&"C".to_string())), Vec::<u64>::new());
}

#[test]
fn at_most_one_live_session_per_id() {
    let mut conn = Connection::new();
    let sess = conn.register_session("A".to_string()).unwrap();
    assert!(conn.register_session("A".to_string()).is_none());
    conn.detach_session(sess);
    // Once detached, the id can be attached again, and its events no longer
    // route anywhere in between.
    assert_eq!(conn.route_event(Some(&"A".to_string())), Vec::<u64>::new());
    assert!(conn.register_session("A".to_string()).is_some());
}

#[test]
fn session_calls_carry_their_tag() {
    let mut conn = Connection::new();
    let sess = conn.register_session("TAB1".to_string()).unwrap();
    let (id, frame) = sess.call(&mut conn, "Runtime.evaluate", "{\"expression\":\"1\"}").unwrap();
    let text = String::from_utf8(frame).unwrap();
    assert_eq!(id, 1);
    assert_eq!(
        text,
        "{\"id\":1,\"method\":\"Runtime.evaluate\",\"params\":{\"expression\":\"1\"},\"sessionId\":\"TAB1\"}"
    );
}

#[test]
fn session_calls_fail_cleanly_after_close() {
    let mut conn = Connection::new();
    let sess = conn.register_session("TAB1".to_string()).unwrap();
    conn.close();
    match sess.call(&mut conn, "Runtime.evaluate", "{}") {
        Err(CdpError::ConnectionClosed) => {},
        _ => panic!("a session call on a closed connection must fail with ConnectionClosed"),
    }
}

#[test]
fn dispatch_routes_events_and_resolves_responses() {
    let mut conn = Connection::new();
    let sess = conn.register_session("A".to_string()).unwrap();
    let (id, _) = conn.issue_call("Page.enable", "{}", None).unwrap();
    let d = conn.dispatch(Frame::Event {
        method: "Page.loadEventFired".to_string(),
        session_id: Some("A".to_string()),
        params: "{\"timestamp\":1}".to_string(),
    });
    match d {
        Dispatch::Deliver { method, tokens, .. } => {
            assert_eq!(method, "Page.loadEventFired");
            assert_eq!(tokens, vec![sess.token]);
        },
        _ => panic!("an event frame must be delivered"),
    }
    let d = conn.dispatch(Frame::Response { id, payload: ok_payload("{}") });
    match d {
        Dispatch::Resolve { resolution } => assert_eq!(resolution.id, id),
        _ => panic!("a response frame with a pending id must resolve"),
    }
    let d = conn.dispatch(Frame::Response { id: 999, payload: ok_payload("{}") });
    match d {
        Dispatch::Stale { id } => assert_eq!(id, 999),
        _ => panic!("a response frame with an unknown id is stale"),
    }
}
