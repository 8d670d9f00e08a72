//! Decoding of inbound wire frames.
//!
//! An inbound frame is a JSON object.  A frame with an `id` member is the
//! reply to the call bearing that id and carries exactly one of `result`
//! (success) or `error` (a browser-reported failure); a frame without an
//! `id` is an unsolicited event, named by `method`, optionally scoped by
//! `sessionId`.  Pulling the members out of the JSON text is delegated to
//! serde_json behind two trusted wrappers; deciding what kind of frame the
//! members form is verified logic.

use vstd::prelude::*;

use crate::errors::CallError;
use crate::errors::CdpError;

verus! {

/// The envelope members of one inbound frame, as plain values.  Nested
/// objects (`result`, `error`, `params`) are carried as their raw JSON text.
pub struct RawFrame {
    pub id: Option<u64>,
    pub method: Option<String>,
    pub session_id: Option<String>,
    pub result: Option<String>,
    pub error: Option<String>,
    pub params: Option<String>,
}

/// The mathematical shadow of [`RawFrame`].
pub struct RawFrameView {
    pub id: Option<u64>,
    pub method: Option<Seq<char>>,
    pub session_id: Option<Seq<char>>,
    pub result: Option<Seq<char>>,
    pub error: Option<Seq<char>>,
    pub params: Option<Seq<char>>,
}

/// The view of one optional string field.
pub open spec fn opt_view(s: Option<String>) -> Option<Seq<char>> {
    match s {
        Option::None => Option::None,
        Option::Some(v) => Option::Some(v@),
    }
}

impl View for RawFrame {
    type V = RawFrameView;

    open spec fn view(&self) -> RawFrameView {
        RawFrameView {
            id: self.id,
            method: opt_view(self.method),
            session_id: opt_view(self.session_id),
            result: opt_view(self.result),
            error: opt_view(self.error),
            params: opt_view(self.params),
        }
    }
}

/// The envelope members that one frame text parses to: `None` when the text
/// is not a JSON object at all.  Defined by what serde_json finds in the
/// text; a function of the text alone.
pub uninterp spec fn frame_fields_of(s: Seq<char>) -> Option<RawFrameView>;

/// The `code` and `message` members of one CDP error object, or `None` when
/// the text is not a JSON object holding both.  A function of the text alone.
pub uninterp spec fn error_fields_of(s: Seq<char>) -> Option<(i64, Seq<char>)>;

/// Relies on serde_json::from_str::<serde_json::Value> and the accessors of
/// serde_json::Value: reads the envelope members of one inbound frame out of
/// its JSON text as plain values, `None` when the text is not a JSON object.
/// The nested `result`, `error` and `params` objects are re-rendered with
/// serde_json::Value's to_string and carried as text.
#[verifier::external_body]
fn extract_frame_fields(text: &str) -> (r: Option<RawFrame>)
    ensures
        r matches Some(f) ==> frame_fields_of(text@) == Some(f@),
        r is None ==> frame_fields_of(text@) is None,
{
    let v: serde_json::Value = serde_json::from_str(text).ok()?;
    if !v.is_object() {
        return None;
    }
    Some(RawFrame {
        id: v.get("id").and_then(serde_json::Value::as_u64),
        method: v.get("method").and_then(serde_json::Value::as_str).map(str::to_string),
        session_id: v.get("sessionId").and_then(serde_json::Value::as_str).map(str::to_string),
        result: v.get("result").map(serde_json::Value::to_string),
        error: v.get("error").map(serde_json::Value::to_string),
        params: v.get("params").map(serde_json::Value::to_string),
    })
}

/// Relies on serde_json::from_str::<serde_json::Value> and the accessors of
/// serde_json::Value: reads the `code` and `message` members of one CDP
/// error object, `None` when either is missing or of the wrong type.
#[verifier::external_body]
fn extract_error_fields(text: &str) -> (r: Option<CallError>)
    ensures
        r matches Some(c) ==> error_fields_of(text@) == Some((c.code, c.message@)),
        r is None ==> error_fields_of(text@) is None,
{
    let v: serde_json::Value = serde_json::from_str(text).ok()?;
    let code = v.get("code").and_then(serde_json::Value::as_i64)?;
    let message = v.get("message").and_then(serde_json::Value::as_str)?;
    Some(CallError { code, message: message.to_string() })
}

/// What the browser put in a reply: exactly one of a raw JSON result or a
/// reported error.
pub enum ResponsePayload {
    /// The `result` member, as raw JSON text, for the schema layer to
    /// deserialize.
    Success { result: String },
    /// The `error` member's code and message.
    Failure { error: CallError },
}

/// One decoded inbound frame.
pub enum Frame {
    /// The reply to the call bearing `id`.
    Response { id: u64, payload: ResponsePayload },
    /// An unsolicited event, scoped to a session when `session_id` is set.
    Event { method: String, session_id: Option<String>, params: String },
}

/// The mathematical shadow of [`Frame`].
pub enum FrameView {
    Response { id: u64, payload: PayloadView },
    Event { method: Seq<char>, session_id: Option<Seq<char>>, params: Seq<char> },
}

/// The mathematical shadow of [`ResponsePayload`].
pub enum PayloadView {
    Success { result: Seq<char> },
    Failure { code: i64, message: Seq<char> },
}

impl View for ResponsePayload {
    type V = PayloadView;

    open spec fn view(&self) -> PayloadView {
        match self {
            ResponsePayload::Success { result } => PayloadView::Success { result: result@ },
            ResponsePayload::Failure { error } => PayloadView::Failure {
                code: error.code,
                message: error.message@,
            },
        }
    }
}

impl View for Frame {
    type V = FrameView;

    open spec fn view(&self) -> FrameView {
        match self {
            Frame::Response { id, payload } => FrameView::Response {
                id: *id,
                payload: payload@,
            },
            Frame::Event { method, session_id, params } => FrameView::Event {
                method: method@,
                session_id: opt_view(*session_id),
                params: params@,
            },
        }
    }
}

/// What a frame with the given envelope members decodes to: a response when
/// `id` is present (well-formed only with exactly one of `result`/`error`,
/// and with a parsable error object), an event when it is absent (well-formed
/// only with both `method` and `params` present), and `None` for every
/// malformed frame.
pub open spec fn decoded(f: RawFrameView) -> Option<FrameView> {
    match f.id {
        Option::Some(id) => match (f.result, f.error) {
            (Option::Some(result), Option::None) => Option::Some(
                FrameView::Response { id, payload: PayloadView::Success { result } },
            ),
            (Option::None, Option::Some(error)) => match error_fields_of(error) {
                Option::Some((code, message)) => Option::Some(
                    FrameView::Response { id, payload: PayloadView::Failure { code, message } },
                ),
                Option::None => Option::None,
            },
            _ => Option::None,
        },
        Option::None => match (f.method, f.params) {
            (Option::Some(method), Option::Some(params)) => Option::Some(
                FrameView::Event { method, session_id: f.session_id, params },
            ),
            _ => Option::None,
        },
    }
}

/// Decode one inbound frame text.  Returns the decoded response or event, or
/// `CdpError::Protocol` exactly when the text is not a JSON object or its
/// members do not form a well-formed response or event.
pub fn decode_frame(text: &str) -> (r: Result<Frame, CdpError>)
    ensures
        r matches Ok(frame) ==> (frame_fields_of(text@) matches Some(f) && decoded(f) == Some(
            frame@,
        )),
        r matches Err(e) ==> (e is Protocol && (frame_fields_of(text@) matches Some(f) ==> decoded(
            f,
        ) is None)),
{
    let fields = match extract_frame_fields(text) {
        Option::Some(f) => f,
        Option::None => {
            return Err(CdpError::Protocol);
        },
    };
    let RawFrame { id, method, session_id, result, error, params } = fields;
    match id {
        Option::Some(id) => match (result, error) {
            (Option::Some(result), Option::None) => Ok(
                Frame::Response { id, payload: ResponsePayload::Success { result } },
            ),
            (Option::None, Option::Some(error)) => match extract_error_fields(error.as_str()) {
                Option::Some(err) => Ok(
                    Frame::Response { id, payload: ResponsePayload::Failure { error: err } },
                ),
                Option::None => Err(CdpError::Protocol),
            },
            _ => Err(CdpError::Protocol),
        },
        Option::None => match (method, params) {
            (Option::Some(method), Option::Some(params)) => Ok(
                Frame::Event { method, session_id, params },
            ),
            _ => Err(CdpError::Protocol),
        },
    }
}

} // verus!
