use headless_chrome::connection::Connection;
use headless_chrome::connection::Dispatch;
use headless_chrome::errors::CdpError;
use headless_chrome::frame::decode_frame;
use headless_chrome::frame::Frame;
use headless_chrome::frame::ResponsePayload;
use headless_chrome::input::DispatchKeyEvent;
use headless_chrome::input::DispatchKeyEventReturnObject;

#[test]
fn decodes_a_success_reply() {
    match decode_frame("{\"id\":3,\"result\":{\"x\":1}}") {
        Ok(Frame::Response { id, payload: ResponsePayload::Success { result } }) => {
            assert_eq!(id, 3);
            assert_eq!(result, "{\"x\":1}");
        },
        _ => panic!("a frame with id and result is a success reply"),
    }
}

#[test]
fn decodes_an_error_reply() {
    match decode_frame("{\"id\":4,\"error\":{\"code\":-32000,\"message\":\"nope\"}}") {
        Ok(Frame::Response { id, payload: ResponsePayload::Failure { error } }) => {
            assert_eq!(id, 4);
            assert_eq!(error.code, -32000);
            assert_eq!(error.message, "nope");
        },
        _ => panic!("a frame with id and error is an error reply"),
    }
}

#[test]
fn decodes_an_event_by_absence_of_id() {
    match decode_frame("{\"method\":\"Page.loadEventFired\",\"params\":{\"timestamp\":7},\"sessionId\":\"S\"}") {
        Ok(Frame::Event { method, session_id, params }) => {
            assert_eq!(method, "Page.loadEventFired");
            assert_eq!(session_id.as_deref(), Some("S"));
            assert_eq!(params, "{\"timestamp\":7}");
        },
        _ => panic!("a frame without id is an event"),
    }
}

#[test]
fn decodes_an_unscoped_event() {
    match decode_frame("{\"method\":\"Target.targetCreated\",\"params\":{}}") {
        Ok(Frame::Event { session_id, .. }) => assert!(session_id.is_none()),
        _ => panic!("an event may carry no session tag"),
    }
}

#[test]
fn malformed_frames_become_protocol_errors() {
    let malformed = [
        "not json at all",
        "[1,2,3]",
        "{\"id\":5}",
        "{\"id\":5,\"result\":{},\"error\":{\"code\":1,\"message\":\"m\"}}",
        "{\"id\":1,\"error\":{\"code\":\"not a number\",\"message\":\"m\"}}",
        "{\"id\":1,\"error\":{\"code\":2}}",
        "{\"foo\":1}",
        "{\"method\":\"Page.loadEventFired\"}",
    ];
    for text in malformed {
        match decode_frame(text) {
            Err(CdpError::Protocol) => {},
            _ => panic!("must be refused as a protocol error: {}", text),
        }
    }
}

#[test]
fn one_bad_frame_does_not_kill_the_connection() {
    let mut conn = Connection::new();
    let (id, _) = conn.issue_call("Page.enable", "{}", None).unwrap();
    assert!(conn.handle_text("garbage").is_err());
    // The pending call is untouched and still resolvable afterwards.
    let reply = format!("{{\"id\":{},\"result\":{{}}}}", id);
    match conn.handle_text(&reply) {
        Ok(Dispatch::Resolve { resolution }) => assert_eq!(resolution.id, id),
        _ => panic!("the reply after a bad frame must still resolve"),
    }
    assert!(conn.is_live());
}

#[test]
fn command_round_trip_yields_the_expected_return_object() {
    // Serialize a stub command, check the wire envelope carries its schema
    // faithfully, then feed a synthetic success reply for the same id back
    // through the connection and deserialize the stub's return object.
    let mut conn = Connection::new();
    let ev = DispatchKeyEvent { event_type: "char", key: "a", text: "a" };
    let params = String::from_utf8(ev.to_params_json()).unwrap();
    let (id, frame) = conn.issue_call(DispatchKeyEvent::method_name(), &params, None).unwrap();

    let sent: serde_json::Value =
        serde_json::from_str(&String::from_utf8(frame).unwrap()).unwrap();
    assert_eq!(sent.get("id").and_then(serde_json::Value::as_u64), Some(id));
    assert_eq!(
        sent.get("method").and_then(serde_json::Value::as_str),
        Some("Input.dispatchKeyEvent")
    );
    let sent_params = sent.get("params").unwrap();
    assert_eq!(sent_params.get("type").and_then(serde_json::Value::as_str), Some("char"));
    assert_eq!(sent_params.get("key").and_then(serde_json::Value::as_str), Some("a"));
    assert_eq!(sent_params.get("text").and_then(serde_json::Value::as_str), Some("a"));

    let reply = format!("{{\"id\":{},\"result\":{{}}}}", id);
    let resolution = match conn.handle_text(&reply) {
        Ok(Dispatch::Resolve { resolution }) => resolution,
        _ => panic!("the synthetic reply must resolve the pending call"),
    };
    assert_eq!(resolution.id, id);
    let result_json = match resolution.payload {
        ResponsePayload::Success { result } => result,
        _ => panic!("the synthetic reply is a success"),
    };
    let parsed: serde_json::Value = serde_json::from_str(&result_json).unwrap();
    assert!(parsed.as_object().map(|o| o.is_empty()).unwrap_or(false));
    let returned = DispatchKeyEventReturnObject {};
    assert_eq!(returned, DispatchKeyEventReturnObject {});
}

#[test]
fn dropped_connection_fails_pending_calls_and_later_waits() {
    // The teardown path end to end: pending calls drain with
    // ConnectionClosed, and a wait polling through the dead connection sees
    // the error immediately instead of hanging.
    let mut conn = Connection::new();
    let (id, _) = conn.issue_call("DOM.querySelector", "{\"selector\":\"div#foobar\"}", None).unwrap();
    let drained = conn.close();
    assert_eq!(drained, vec![id]);
    let w = headless_chrome::waiter::Waiter::new(1_000_000, 50);
    let outcome = match conn.issue_call("DOM.querySelector", "{}", None) {
        Err(e) => headless_chrome::waiter::Poll::<u32, CdpError>::Failed(e),
        Ok(_) => panic!("the connection is closed"),
    };
    match w.step(0, outcome) {
        headless_chrome::waiter::StepAction::Finish(Err(
            headless_chrome::errors::WaitError::Inner(CdpError::ConnectionClosed),
        )) => {},
        _ => panic!("a wait over a closed connection must fail at once"),
    }
}
